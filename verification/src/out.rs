//! Terminal text: colour only where the caller says the terminal wants it, so piped
//! output and agent captures stay clean, and tables sized on the visible text.
use vstd::prelude::*;

use crate::model::{status_name, Status};
use crate::text::{
    chars_of, join, joined_str, lemma_views_push, push_all, push_str, replace, replaced_str,
    string_of, trim_end, trimmed_end, views,
};

verus! {

/// `ESC [ code m`, the text, then the reset.
pub open spec fn painted(code: Seq<char>, s: Seq<char>) -> Seq<char> {
    seq!['\x1b'] + "["@ + code + "m"@ + s + seq!['\x1b'] + "[0m"@
}

fn paint(code: &str, s: &str) -> (r: String)
    ensures
        r@ == painted(code@, s@),
{
    let mut out: Vec<char> = Vec::new();
    out.push('\x1b');
    push_str(&mut out, "[");
    push_str(&mut out, code);
    push_str(&mut out, "m");
    push_str(&mut out, s);
    out.push('\x1b');
    push_str(&mut out, "[0m");
    assert(out@ =~= painted(code@, s@));
    string_of(&out)
}

/// Faint text, when colour is on.
pub fn dim(s: &str, colour: bool) -> (r: String)
    ensures
        r@ == if colour {
            painted("2"@, s@)
        } else {
            s@
        },
{
    if colour {
        paint("2", s)
    } else {
        s.to_string()
    }
}

/// Bold text, when colour is on.
pub fn bold(s: &str, colour: bool) -> (r: String)
    ensures
        r@ == if colour {
            painted("1"@, s@)
        } else {
            s@
        },
{
    if colour {
        paint("1", s)
    } else {
        s.to_string()
    }
}

pub open spec fn status_code(status: Status) -> Seq<char> {
    match status {
        Status::Draft => "2"@,
        Status::Ready => "0"@,
        Status::Active => "36"@,
        Status::InReview => "35"@,
        Status::Blocked => "31"@,
        Status::Done => "32"@,
        Status::Deferred => "2"@,
    }
}

/// Text in the colour of a status, when colour is on.
pub fn status_colour(status: Status, s: &str, colour: bool) -> (r: String)
    ensures
        r@ == if colour {
            painted(status_code(status), s@)
        } else {
            s@
        },
{
    if !colour {
        return s.to_string();
    }
    let code = match status {
        Status::Draft => "2",
        Status::Ready => "0",
        Status::Active => "36",
        Status::InReview => "35",
        Status::Blocked => "31",
        Status::Done => "32",
        Status::Deferred => "2",
    };
    paint(code, s)
}

/// One line, cut to `max` characters with an ellipsis when it had to cut; with no
/// room at all, nothing is left.
pub open spec fn cut_line(s: Seq<char>, max: nat) -> Seq<char> {
    let flat = replace(s, "\n"@, " "@);
    if flat.len() <= max {
        flat
    } else if max == 0 {
        Seq::empty()
    } else {
        flat.take(max - 1) + seq!['…']
    }
}

pub fn truncate(s: &str, max: usize) -> (r: String)
    ensures
        r@ == cut_line(s@, max as nat),
        r@.len() <= max,
{
    let v = chars_of(s);
    proof {
        reveal_strlit("\n");
        reveal_strlit(" ");
    }
    let flat = replaced_str(&v, "\n", " ");
    if flat.len() <= max {
        return string_of(&flat);
    }
    if max == 0 {
        return String::new();
    }
    let keep = max - 1;
    let mut out = crate::text::slice_of(&flat, 0, keep);
    out.push('…');
    assert(out@ =~= flat@.take(keep as int) + seq!['…']);
    string_of(&out)
}

// ---------------------------------------------------------------------------
// Widths
// ---------------------------------------------------------------------------

/// How many characters of `s` show from position `i` on, with `ESC ... m` colour
/// escapes discounted.
pub open spec fn shown_from(s: Seq<char>, i: int, in_escape: bool) -> nat
    decreases s.len() - i,
{
    if i < 0 || i >= s.len() {
        0
    } else if in_escape {
        shown_from(s, i + 1, s[i] != 'm')
    } else if s[i] == '\x1b' {
        shown_from(s, i + 1, true)
    } else {
        1 + shown_from(s, i + 1, false)
    }
}

pub open spec fn visible(s: Seq<char>) -> nat {
    shown_from(s, 0, false)
}

proof fn lemma_shown_from_bound(s: Seq<char>, i: int, e: bool)
    requires
        0 <= i <= s.len(),
    ensures
        shown_from(s, i, e) <= s.len() - i,
    decreases s.len() - i,
{
    if i < s.len() {
        lemma_shown_from_bound(s, i + 1, if e { s[i] != 'm' } else { s[i] == '\x1b' });
    }
}

/// Character count with ANSI escapes discounted.
pub fn visible_len(s: &str) -> (r: usize)
    ensures
        r == visible(s@),
{
    let v = chars_of(s);
    let mut len: usize = 0;
    let mut in_escape = false;
    let mut i: usize = 0;
    while i < v.len()
        invariant
            i <= v@.len(),
            v@ == s@,
            len + shown_from(s@, i as int, in_escape) == visible(s@),
            len <= i,
        decreases v.len() - i,
    {
        let ch = v[i];
        proof {
            lemma_shown_from_bound(s@, i + 1, if in_escape { ch != 'm' } else { ch == '\x1b' });
        }
        if in_escape {
            if ch == 'm' {
                in_escape = false;
            }
        } else if ch == '\x1b' {
            in_escape = true;
        } else {
            len += 1;
        }
        i += 1;
    }
    len
}

/// Spaces after `s` up to `width` visible characters.
pub open spec fn padded(s: Seq<char>, width: nat) -> Seq<char> {
    if visible(s) >= width {
        s
    } else {
        s + Seq::new((width - visible(s)) as nat, |i: int| ' ')
    }
}

pub fn pad(s: &str, width: usize) -> (r: String)
    ensures
        r@ == padded(s@, width as nat),
{
    let len = visible_len(s);
    if len >= width {
        return s.to_string();
    }
    let mut out = chars_of(s);
    let mut k: usize = 0;
    while k < width - len
        invariant
            k <= width - len,
            len < width,
            out@ == s@ + Seq::new(k as nat, |i: int| ' '),
        decreases width - len - k,
    {
        out.push(' ');
        assert(out@ =~= s@ + Seq::new((k + 1) as nat, |i: int| ' '));
        k += 1;
    }
    string_of(&out)
}

// ---------------------------------------------------------------------------
// Tables
// ---------------------------------------------------------------------------

/// A left-aligned table that sizes its own columns. Cells may contain colour
/// escapes, so width is measured on the visible text.
pub struct Table {
    headers: Vec<String>,
    rows: Vec<Vec<String>>,
}

pub open spec fn strs(v: Seq<String>) -> Seq<Seq<char>> {
    v.map_values(|s: String| s@)
}

impl Table {
    pub closed spec fn header_texts(&self) -> Seq<Seq<char>> {
        strs(self.headers@)
    }

    pub closed spec fn row_texts(&self) -> Seq<Seq<Seq<char>>> {
        self.rows@.map_values(|r: Vec<String>| strs(r@))
    }

    pub fn new(headers: &[&str]) -> (t: Table)
        ensures
            t.header_texts() == headers@.map_values(|h: &str| h@),
            t.row_texts().len() == 0,
    {
        let mut hs: Vec<String> = Vec::new();
        let mut i: usize = 0;
        while i < headers.len()
            invariant
                i <= headers@.len(),
                strs(hs@) == headers@.map_values(|h: &str| h@).take(i as int),
            decreases headers.len() - i,
        {
            let h: &str = headers[i];
            let hv = chars_of(h);
            let ghost before = hs@;
            let st = string_of(&hv);
            hs.push(st);
            assert(hs@ == before.push(st));
            assert(headers@.map_values(|h: &str| h@)[i as int] == h@);
            assert(strs(hs@) =~= strs(before).push(h@));
            assert(headers@.map_values(|h: &str| h@).take(i + 1) =~= headers@.map_values(|h: &str| h@).take(i as int).push(h@));
            assert(strs(hs@) =~= headers@.map_values(|h: &str| h@).take(i + 1));
            i += 1;
        }
        assert(headers@.map_values(|h: &str| h@).take(headers@.len() as int) =~= headers@.map_values(
            |h: &str| h@,
        ));
        let t = Table { headers: hs, rows: Vec::new() };
        assert(t.row_texts() =~= Seq::<Seq<Seq<char>>>::empty());
        t
    }

    pub fn row(&mut self, cells: Vec<String>)
        ensures
            final(self).header_texts() == old(self).header_texts(),
            final(self).row_texts() == old(self).row_texts().push(strs(cells@)),
    {
        self.rows.push(cells);
        assert(self.row_texts() =~= old(self).row_texts().push(strs(cells@)));
    }
}


pub open spec fn nat_max(a: nat, b: nat) -> nat {
    if a >= b {
        a
    } else {
        b
    }
}

/// The widest cell of column `j` over the rows (rows too short for it count nothing).
pub open spec fn width_over(rows: Seq<Seq<Seq<char>>>, j: int) -> nat
    decreases rows.len(),
{
    if rows.len() == 0 {
        0
    } else {
        nat_max(
            width_over(rows.drop_last(), j),
            if 0 <= j < rows.last().len() {
                visible(rows.last()[j])
            } else {
                0
            },
        )
    }
}

/// A column is as wide as its header or its widest cell.
pub open spec fn col_width(hs: Seq<Seq<char>>, rows: Seq<Seq<Seq<char>>>, j: int) -> nat {
    nat_max(visible(hs[j]), width_over(rows, j))
}

/// The cells of one line, each padded to its column (cells beyond the headers are
/// dropped).
pub open spec fn padded_cells(cells: Seq<Seq<char>>, hs: Seq<Seq<char>>, rows: Seq<Seq<Seq<char>>>) -> Seq<Seq<char>> {
    let n = if cells.len() <= hs.len() { cells.len() } else { hs.len() };
    Seq::new(n, |j: int| padded(cells[j], col_width(hs, rows, j)))
}

pub open spec fn table_line(cells: Seq<Seq<char>>, hs: Seq<Seq<char>>, rows: Seq<Seq<Seq<char>>>) -> Seq<char> {
    trim_end(join(padded_cells(cells, hs, rows), "  "@))
}

/// The header, faint when colour is on, then each row.
pub open spec fn table_lines(hs: Seq<Seq<char>>, rows: Seq<Seq<Seq<char>>>, colour: bool) -> Seq<Seq<char>> {
    let head = table_line(hs, hs, rows);
    seq![if colour { painted("2"@, head) } else { head }] + rows.map_values(
        |r: Seq<Seq<char>>| table_line(r, hs, rows),
    )
}

impl Table {
    fn widths(&self) -> (w: Vec<usize>)
        ensures
            w@.len() == self.header_texts().len(),
            forall|j: int|
                0 <= j < w@.len() ==> w@[j] == col_width(self.header_texts(), self.row_texts(), j),
    {
        let ghost hs = self.header_texts();
        let ghost rs = self.row_texts();
        let mut w: Vec<usize> = Vec::new();
        let mut j: usize = 0;
        while j < self.headers.len()
            invariant
                j <= self.headers@.len(),
                hs == self.header_texts(),
                rs == self.row_texts(),
                hs.len() == self.headers@.len(),
                rs.len() == self.rows@.len(),
                w@.len() == j,
                forall|k: int| 0 <= k < j ==> w@[k] == col_width(hs, rs, k),
            decreases self.headers.len() - j,
        {
            assert(hs[j as int] == self.headers@[j as int]@);
            let mut m = visible_len(self.headers[j].as_str());
            let ghost mh = m as nat;
            let mut r: usize = 0;
            while r < self.rows.len()
                invariant
                    r <= self.rows@.len(),
                    j < hs.len(),
                    rs == self.row_texts(),
                    rs.len() == self.rows@.len(),
                    mh == visible(hs[j as int]),
                    m == nat_max(mh, width_over(rs.take(r as int), j as int)),
                decreases self.rows.len() - r,
            {
                assert(rs.take(r + 1).drop_last() =~= rs.take(r as int));
                assert(rs[r as int] == strs(self.rows@[r as int]@));
                if j < self.rows[r].len() {
                    assert(rs[r as int][j as int] == self.rows@[r as int]@[j as int]@);
                    let c = visible_len(self.rows[r][j].as_str());
                    if c > m {
                        m = c;
                    }
                }
                r += 1;
            }
            assert(rs.take(rs.len() as int) =~= rs);
            w.push(m);
            j += 1;
        }
        w
    }

    fn line(cells: &Vec<String>, widths: &Vec<usize>, hs: Ghost<Seq<Seq<char>>>, rs: Ghost<Seq<Seq<Seq<char>>>>) -> (r: Vec<char>)
        requires
            widths@.len() == hs@.len(),
            forall|j: int| 0 <= j < widths@.len() ==> widths@[j] == col_width(hs@, rs@, j),
        ensures
            r@ == table_line(strs(cells@), hs@, rs@),
    {
        let n = if cells.len() <= widths.len() { cells.len() } else { widths.len() };
        let mut parts: Vec<Vec<char>> = Vec::new();
        let mut j: usize = 0;
        while j < n
            invariant
                j <= n,
                n <= cells@.len(),
                n <= widths@.len(),
                widths@.len() == hs@.len(),
                forall|k: int| 0 <= k < widths@.len() ==> widths@[k] == col_width(hs@, rs@, k),
                views(parts@) == padded_cells(strs(cells@), hs@, rs@).take(j as int),
            decreases n - j,
        {
            let p = pad(cells[j].as_str(), widths[j]);
            let pv = chars_of(p.as_str());
            proof {
                lemma_views_push(parts@, pv);
            }
            parts.push(pv);
            assert(views(parts@) =~= padded_cells(strs(cells@), hs@, rs@).take(j + 1));
            j += 1;
        }
        assert(padded_cells(strs(cells@), hs@, rs@).take(n as int) =~= padded_cells(strs(cells@), hs@, rs@));
        let joined = joined_str(&parts, "  ");
        trimmed_end(&joined)
    }

    /// The lines `print` shows: the header (faint when colour is on), then each row,
    /// every cell padded to its column and trailing space dropped.
    pub fn lines(&self, colour: bool) -> (r: Vec<String>)
        ensures
            strs(r@) == table_lines(self.header_texts(), self.row_texts(), colour),
    {
        let w = self.widths();
        let ghost hs = self.header_texts();
        let ghost rs = self.row_texts();
        let head = Table::line(&self.headers, &w, Ghost(hs), Ghost(rs));
        assert(strs(self.headers@) == hs);
        let hstr = string_of(&head);
        let first = if colour { paint("2", hstr.as_str()) } else { hstr };
        let mut out: Vec<String> = Vec::new();
        out.push(first);
        let mut i: usize = 0;
        while i < self.rows.len()
            invariant
                i <= self.rows@.len(),
                hs == self.header_texts(),
                rs == self.row_texts(),
                w@.len() == hs.len(),
                forall|j: int| 0 <= j < w@.len() ==> w@[j] == col_width(hs, rs, j),
                strs(out@) == table_lines(hs, rs, colour).take(i + 1),
            decreases self.rows.len() - i,
        {
            let l = Table::line(&self.rows[i], &w, Ghost(hs), Ghost(rs));
            assert(rs[i as int] == strs(self.rows@[i as int]@));
            let ls = string_of(&l);
            let ghost before = out@;
            out.push(ls);
            assert(strs(out@) =~= strs(before).push(ls@));
            assert(table_lines(hs, rs, colour).take(i + 2) =~= table_lines(hs, rs, colour).take(i + 1).push(
                table_lines(hs, rs, colour)[i + 1],
            ));
            i += 1;
        }
        assert(table_lines(hs, rs, colour).take(self.rows@.len() as int + 1) =~= table_lines(hs, rs, colour));
        out
    }
}

} // verus!
