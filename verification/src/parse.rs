//! Reading build plans as they are actually written: `## N. Section`, slices keyed
//! `PR1` / `S1` / `M4` / `Phase 0` / `Slice 0` at either heading level, decisions keyed
//! `D1` / `AD-1`, shouted status markers, `**Demo:**` lines and dated progress-log
//! bullets. Whatever is not classified stays in a section body.
use vstd::prelude::*;

use crate::model::{Renders, Status};
use crate::text::{
    all_ascii, byte_len, chars_of, contains, digit, ends_with, eq_chars, find, find_in, has,
    has_str, index_at_byte, index_at_byte_of, is_alpha, is_digit, is_ws, join, joined_str,
    lead_in, lemma_find_from_bounds, lemma_index_at_byte_bounds, lemma_lead_in_bounds,
    lemma_views_push, lines, lines_of, lowercase, push_all, push_str, replace, replaced_str,
    rfind, rfind_in, slice_of, split_once, split_once_of, starts_str, starts_with,
    strip_prefix, strip_prefix_of, to_lowercase, to_uppercase, trim, trim_end, trim_end_in,
    trim_in, trim_start, trim_start_in, trimmed, trimmed_end, trimmed_end_in, trimmed_in,
    trimmed_start, trimmed_start_in, uppercase, views, words, words_of, ends_str, alpha, ws,
    lemma_rfind_bounds, find_any, find_any_at, lemma_find_any_bounds, string_of, copy,
};
use crate::util::{alpha_end, digit_end, lemma_alpha_end, lemma_digit_end};

verus! {

// ---------------------------------------------------------------------------
// What a parse yields
// ---------------------------------------------------------------------------

#[derive(Debug, Clone, PartialEq, Eq)]
pub struct ParsedSection {
    pub key: String,
    pub title: String,
    pub body: String,
    pub renders: Renders,
}

#[derive(Debug, Clone, PartialEq, Eq)]
pub struct ParsedDecision {
    pub key: String,
    pub title: String,
    pub body: String,
    pub section: Option<String>,
}

#[derive(Debug, Clone, PartialEq, Eq)]
pub struct ParsedSlice {
    pub key: String,
    pub title: String,
    pub status: Status,
    pub scope: String,
    pub demo: Option<String>,
    pub estimate_files: Option<i64>,
    pub section: Option<String>,
}

#[derive(Debug, Clone, PartialEq, Eq)]
pub struct ParsedLog {
    pub at: Option<String>,
    pub body: String,
}

#[derive(Debug, Clone)]
pub struct ParsedPlan {
    pub title: String,
    pub summary: Option<String>,
    pub ticket_key: Option<String>,
    pub ticket_url: Option<String>,
    pub base_branch: Option<String>,
    pub owner: Option<String>,
    pub sections: Vec<ParsedSection>,
    pub decisions: Vec<ParsedDecision>,
    pub slices: Vec<ParsedSlice>,
    pub questions: Vec<String>,
    pub gotchas: Vec<(String, String)>,
    pub log: Vec<ParsedLog>,
}

pub open spec fn opt_view(o: Option<String>) -> Option<Seq<char>> {
    match o {
        Some(s) => Some(s@),
        None => None,
    }
}

pub struct SectionV {
    pub key: Seq<char>,
    pub title: Seq<char>,
    pub body: Seq<char>,
    pub renders: Renders,
}

pub struct DecisionV {
    pub key: Seq<char>,
    pub title: Seq<char>,
    pub body: Seq<char>,
    pub section: Option<Seq<char>>,
}

pub struct SliceV {
    pub key: Seq<char>,
    pub title: Seq<char>,
    pub status: Status,
    pub scope: Seq<char>,
    pub demo: Option<Seq<char>>,
    pub estimate_files: Option<i64>,
    pub section: Option<Seq<char>>,
}

pub struct LogV {
    pub at: Option<Seq<char>>,
    pub body: Seq<char>,
}

pub struct PlanV {
    pub title: Seq<char>,
    pub summary: Option<Seq<char>>,
    pub ticket_key: Option<Seq<char>>,
    pub ticket_url: Option<Seq<char>>,
    pub base_branch: Option<Seq<char>>,
    pub owner: Option<Seq<char>>,
    pub sections: Seq<SectionV>,
    pub decisions: Seq<DecisionV>,
    pub slices: Seq<SliceV>,
    pub questions: Seq<Seq<char>>,
    pub gotchas: Seq<(Seq<char>, Seq<char>)>,
    pub log: Seq<LogV>,
}

impl View for ParsedSection {
    type V = SectionV;

    open spec fn view(&self) -> SectionV {
        SectionV { key: self.key@, title: self.title@, body: self.body@, renders: self.renders }
    }
}

impl View for ParsedDecision {
    type V = DecisionV;

    open spec fn view(&self) -> DecisionV {
        DecisionV {
            key: self.key@,
            title: self.title@,
            body: self.body@,
            section: opt_view(self.section),
        }
    }
}

impl View for ParsedSlice {
    type V = SliceV;

    open spec fn view(&self) -> SliceV {
        SliceV {
            key: self.key@,
            title: self.title@,
            status: self.status,
            scope: self.scope@,
            demo: opt_view(self.demo),
            estimate_files: self.estimate_files,
            section: opt_view(self.section),
        }
    }
}

impl View for ParsedLog {
    type V = LogV;

    open spec fn view(&self) -> LogV {
        LogV { at: opt_view(self.at), body: self.body@ }
    }
}

impl View for ParsedPlan {
    type V = PlanV;

    open spec fn view(&self) -> PlanV {
        PlanV {
            title: self.title@,
            summary: opt_view(self.summary),
            ticket_key: opt_view(self.ticket_key),
            ticket_url: opt_view(self.ticket_url),
            base_branch: opt_view(self.base_branch),
            owner: opt_view(self.owner),
            sections: self.sections@.map_values(|x: ParsedSection| x@),
            decisions: self.decisions@.map_values(|x: ParsedDecision| x@),
            slices: self.slices@.map_values(|x: ParsedSlice| x@),
            questions: self.questions@.map_values(|x: String| x@),
            gotchas: self.gotchas@.map_values(|x: (String, String)| (x.0@, x.1@)),
            log: self.log@.map_values(|x: ParsedLog| x@),
        }
    }
}

pub open spec fn section_keys(s: Seq<ParsedSection>) -> Seq<Seq<char>> {
    s.map_values(|x: ParsedSection| x.key@)
}

// ---------------------------------------------------------------------------
// Lines
// ---------------------------------------------------------------------------

/// A code fence opens or closes on this line.
pub open spec fn is_fence(line: Seq<char>) -> bool {
    starts_with(trim_start(line), "```"@) || starts_with(trim_start(line), "~~~"@)
}

pub fn fence(line: &[char]) -> (r: bool)
    ensures
        r == is_fence(line@),
{
    let t = trimmed_start(line);
    starts_str(&t, "```") || starts_str(&t, "~~~")
}

/// `## Title` -> (2, `Title`): up to six hashes and some text after them.
pub open spec fn heading_of(line: Seq<char>) -> Option<(nat, Seq<char>)> {
    if !starts_with(line, "#"@) {
        None
    } else {
        let level = lead_in(line, seq!['#'], 0);
        let rest = trim(line.skip(level));
        if level > 6 || rest.len() == 0 {
            None
        } else {
            Some((level as nat, rest))
        }
    }
}

pub fn heading(line: &[char]) -> (r: Option<(usize, Vec<char>)>)
    ensures
        r matches Some(x) ==> heading_of(line@) == Some((x.0 as nat, x.1@)),
        r is None ==> heading_of(line@) is None,
{
    if !starts_str(line, "#") {
        return None;
    }
    let mut level: usize = 0;
    while level < line.len() && line[level] == '#'
        invariant
            level <= line@.len(),
            lead_in(line@, seq!['#'], 0) == lead_in(line@, seq!['#'], level as int),
        decreases line.len() - level,
    {
        proof {
            assert(seq!['#'][0] == line@[level as int]);
        }
        level += 1;
    }
    proof {
        if level < line@.len() {
            assert(!seq!['#'].contains(line@[level as int]));
        }
    }
    let after = slice_of(line, level, line.len());
    assert(after@ =~= line@.skip(level as int));
    let rest = trimmed(&after);
    if level > 6 || rest.len() == 0 {
        None
    } else {
        Some((level, rest))
    }
}

/// Bold markers dropped, then trimmed.
pub open spec fn strip_markup(text: Seq<char>) -> Seq<char> {
    trim(replace(text, "**"@, ""@))
}

pub fn strip_markup_of(text: &[char]) -> (r: Vec<char>)
    ensures
        r@ == strip_markup(text@),
{
    proof {
        reveal_strlit("**");
    }
    let t = replaced_str(text, "**", "");
    trimmed(&t)
}

// ---------------------------------------------------------------------------
// Keys
// ---------------------------------------------------------------------------

/// The earlier of two matches, the first one on a tie.
pub open spec fn earlier(a: Option<(int, nat)>, b: Option<(int, nat)>) -> Option<(int, nat)> {
    match (a, b) {
        (Some(x), Some(y)) => if y.0 < x.0 {
            b
        } else {
            a
        },
        (None, _) => b,
        (_, None) => a,
    }
}

pub open spec fn sep_at(text: Seq<char>, sep: Seq<char>) -> Option<(int, nat)> {
    match find(text, sep) {
        Some(i) => Some((i, sep.len())),
        None => None,
    }
}

/// Where the key ends: the earliest spaced dash (any of three dashes) or colon.
pub open spec fn key_separator(text: Seq<char>) -> Option<(int, nat)> {
    earlier(
        earlier(
            earlier(sep_at(text, " - "@), sep_at(text, " – "@)),
            sep_at(text, " — "@),
        ),
        sep_at(text, ": "@),
    )
}

/// What a key is made of: letters, then a bare number with at most one letter after.
pub open spec fn key_parts(head: Seq<char>) -> Option<Seq<char>> {
    let letters = head.take(alpha_end(head, 0));
    let number = trim(trim_start_in(trim(head.skip(letters.len() as int)), seq!['-']));
    let digits = number.take(digit_end(number, 0));
    let suffix = number.skip(digits.len() as int);
    if head.len() == 0 || head.len() > 12 || letters.len() == 0 {
        None
    } else if digits.len() == 0 || suffix.len() > 1 || (suffix.len() == 1 && !is_alpha(
        suffix[0],
    )) {
        None
    } else {
        Some(letters + digits + suffix)
    }
}

/// `PR1 - Shared core` -> (`PR1`, `Shared core`).
pub open spec fn split_key(text: Seq<char>) -> Option<(Seq<char>, Seq<char>)> {
    let (head0, rest) = match key_separator(text) {
        Some((i, len)) => (text.take(i), trim(text.skip(i + len))),
        None => (text, Seq::empty()),
    };
    let head = match find(head0, "("@) {
        Some(i) => trim(head0.take(i)),
        None => trim(head0),
    };
    match key_parts(head) {
        Some(k) => Some((k, rest)),
        None => None,
    }
}

fn sep_of(text: &[char], sep: &str) -> (r: Option<(usize, usize)>)
    ensures
        r matches Some(x) ==> sep_at(text@, sep@) == Some((x.0 as int, x.1 as nat)),
        r is None ==> sep_at(text@, sep@) is None,
        r matches Some(x) ==> x.0 + x.1 <= text@.len(),
{
    let sv = chars_of(sep);
    match find_in(text, &sv) {
        Some(i) => {
            proof {
                lemma_find_from_bounds(text@, sep@, 0);
            }
            Some((i, sv.len()))
        },
        None => None,
    }
}

fn earlier_of(a: Option<(usize, usize)>, b: Option<(usize, usize)>) -> (r: Option<(usize, usize)>)
    ensures
        r == a || r == b,
        (match r {
            Some(x) => Some((x.0 as int, x.1 as nat)),
            None => None,
        }) == earlier(
            match a {
                Some(x) => Some((x.0 as int, x.1 as nat)),
                None => None,
            },
            match b {
                Some(x) => Some((x.0 as int, x.1 as nat)),
                None => None,
            },
        ),
{
    match (a, b) {
        (Some(x), Some(y)) => if y.0 < x.0 {
            b
        } else {
            a
        },
        (None, _) => b,
        (_, None) => a,
    }
}

fn key_parts_of(head: &[char]) -> (r: Option<Vec<char>>)
    ensures
        r matches Some(k) ==> key_parts(head@) == Some(k@),
        r is None ==> key_parts(head@) is None,
{
    let mut a: usize = 0;
    proof {
        lemma_alpha_end(head@, 0);
    }
    while a < head.len() && alpha(head[a])
        invariant
            a <= head@.len(),
            alpha_end(head@, 0) == alpha_end(head@, a as int),
        decreases head.len() - a,
    {
        a += 1;
    }
    let letters = slice_of(head, 0, a);
    assert(letters@ =~= head@.take(a as int));
    let after = slice_of(head, a, head.len());
    assert(after@ =~= head@.skip(a as int));
    let t1 = trimmed(&after);
    let dash = ['-'];
    assert(dash@ =~= seq!['-']);
    let t2 = trimmed_start_in(&t1, &dash);
    let number = trimmed(&t2);
    let mut d: usize = 0;
    proof {
        lemma_digit_end(number@, 0);
    }
    while d < number.len() && digit(number[d])
        invariant
            d <= number@.len(),
            digit_end(number@, 0) == digit_end(number@, d as int),
        decreases number.len() - d,
    {
        d += 1;
    }
    let digits = slice_of(&number, 0, d);
    assert(digits@ =~= number@.take(d as int));
    let suffix = slice_of(&number, d, number.len());
    assert(suffix@ =~= number@.skip(d as int));
    if head.len() == 0 || head.len() > 12 || a == 0 {
        return None;
    }
    if d == 0 || suffix.len() > 1 || (suffix.len() == 1 && !alpha(suffix[0])) {
        return None;
    }
    let mut k = letters;
    push_all(&mut k, &digits);
    push_all(&mut k, &suffix);
    Some(k)
}

pub fn split_key_of(text: &[char]) -> (r: Option<(Vec<char>, Vec<char>)>)
    ensures
        r matches Some(x) ==> split_key(text@) == Some((x.0@, x.1@)),
        r is None ==> split_key(text@) is None,
{
    let s1 = sep_of(text, " - ");
    let s2 = sep_of(text, " – ");
    let s3 = sep_of(text, " — ");
    let s4 = sep_of(text, ": ");
    let e = earlier_of(earlier_of(earlier_of(s1, s2), s3), s4);
    let (head0, rest) = match e {
        Some((i, len)) => {
            assert(text@.len() == text.len());
            assert(i + len <= text.len());
            let h = slice_of(text, 0, i);
            assert(h@ =~= text@.take(i as int));
            let tail = slice_of(text, i + len, text.len());
            assert(tail@ =~= text@.skip(i + len));
            (h, trimmed(&tail))
        },
        None => (slice_of(text, 0, text.len()), Vec::new()),
    };
    assert(text@.subrange(0, text@.len() as int) =~= text@);
    let paren = ['('];
    proof {
        reveal_strlit("(");
    }
    assert(paren@ =~= "("@);
    let head = match find_in(&head0, &paren) {
        Some(i) => {
            proof {
                lemma_find_from_bounds(head0@, paren@, 0);
            }
            let h = slice_of(&head0, 0, i);
            assert(h@ =~= head0@.take(i as int));
            trimmed(&h)
        },
        None => trimmed(&head0),
    };
    match key_parts_of(&head) {
        Some(k) => Some((k, rest)),
        None => None,
    }
}

/// `PR1` stays `PR1`; `PHASE0` becomes `Phase 0`; `AD3` becomes `AD-3`.
pub open spec fn normalise_key(upper: Seq<char>) -> Seq<char> {
    let letters = upper.take(alpha_end(upper, 0));
    let digits = upper.skip(letters.len() as int);
    if letters == "PHASE"@ {
        "Phase "@ + digits
    } else if letters == "SLICE"@ {
        "S"@ + digits
    } else if letters == "MILESTONE"@ {
        "M"@ + digits
    } else if letters == "STAGE"@ {
        "Stage "@ + digits
    } else if letters == "STEP"@ {
        "Step "@ + digits
    } else if letters == "AD"@ || letters == "ADR"@ {
        letters + "-"@ + digits
    } else {
        letters + digits
    }
}

fn letters_of(v: &[char]) -> (r: usize)
    ensures
        r == alpha_end(v@, 0),
        r <= v@.len(),
{
    let mut a: usize = 0;
    proof {
        lemma_alpha_end(v@, 0);
    }
    while a < v.len() && alpha(v[a])
        invariant
            a <= v@.len(),
            alpha_end(v@, 0) == alpha_end(v@, a as int),
        decreases v.len() - a,
    {
        a += 1;
    }
    a
}

fn normalise_key_of(upper: &[char]) -> (r: Vec<char>)
    ensures
        r@ == normalise_key(upper@),
{
    let a = letters_of(upper);
    let letters = slice_of(upper, 0, a);
    assert(letters@ =~= upper@.take(a as int));
    let digits = slice_of(upper, a, upper.len());
    assert(digits@ =~= upper@.skip(a as int));
    let mut out: Vec<char> = Vec::new();
    if crate::model::is_word(&letters, "PHASE") {
        push_str(&mut out, "Phase ");
    } else if crate::model::is_word(&letters, "SLICE") {
        push_str(&mut out, "S");
    } else if crate::model::is_word(&letters, "MILESTONE") {
        push_str(&mut out, "M");
    } else if crate::model::is_word(&letters, "STAGE") {
        push_str(&mut out, "Stage ");
    } else if crate::model::is_word(&letters, "STEP") {
        push_str(&mut out, "Step ");
    } else if crate::model::is_word(&letters, "AD") || crate::model::is_word(&letters, "ADR") {
        push_all(&mut out, &letters);
        push_str(&mut out, "-");
    } else {
        push_all(&mut out, &letters);
    }
    push_all(&mut out, &digits);
    out
}

/// What a heading names.
pub enum HeadingV {
    Slice(Seq<char>, Seq<char>),
    Decision(Seq<char>, Seq<char>),
    Section(Seq<char>),
}

pub open spec fn is_decision_letters(l: Seq<char>) -> bool {
    l == "D"@ || l == "AD"@ || l == "ADR"@
}

pub open spec fn is_slice_letters(l: Seq<char>) -> bool {
    l == "PR"@ || l == "S"@ || l == "M"@ || l == "SLICE"@ || l == "MILESTONE"@ || l == "PHASE"@
        || l == "STAGE"@ || l == "STEP"@
}

/// `PR1`, `S2`, `M4`, `Phase 0`, `Slice 3`, `D1`, `AD-3` - the keys these plans use.
pub open spec fn classify_heading(text: Seq<char>) -> HeadingV {
    let stripped = strip_markup(text);
    match split_key(stripped) {
        Some((key, rest)) => {
            let upper = uppercase(key);
            let letters = upper.take(alpha_end(upper, 0));
            if is_decision_letters(letters) {
                HeadingV::Decision(normalise_key(upper), rest)
            } else if is_slice_letters(letters) {
                HeadingV::Slice(normalise_key(upper), rest)
            } else {
                HeadingV::Section(stripped)
            }
        },
        None => HeadingV::Section(stripped),
    }
}

pub enum Heading {
    Slice(Vec<char>, Vec<char>),
    Decision(Vec<char>, Vec<char>),
    Section(Vec<char>),
}

pub open spec fn heading_view(h: Heading) -> HeadingV {
    match h {
        Heading::Slice(k, t) => HeadingV::Slice(k@, t@),
        Heading::Decision(k, t) => HeadingV::Decision(k@, t@),
        Heading::Section(t) => HeadingV::Section(t@),
    }
}

pub fn classify_heading_of(text: &[char]) -> (r: Heading)
    ensures
        heading_view(r) == classify_heading(text@),
{
    let stripped = strip_markup_of(text);
    match split_key_of(&stripped) {
        Some((key, rest)) => {
            let upper = to_uppercase(&key);
            let a = letters_of(&upper);
            let letters = slice_of(&upper, 0, a);
            assert(letters@ =~= upper@.take(a as int));
            let is_decision = crate::model::is_word(&letters, "D") || crate::model::is_word(
                &letters,
                "AD",
            ) || crate::model::is_word(&letters, "ADR");
            let is_slice = crate::model::is_word(&letters, "PR") || crate::model::is_word(
                &letters,
                "S",
            ) || crate::model::is_word(&letters, "M") || crate::model::is_word(&letters, "SLICE")
                || crate::model::is_word(&letters, "MILESTONE") || crate::model::is_word(
                &letters,
                "PHASE",
            ) || crate::model::is_word(&letters, "STAGE") || crate::model::is_word(
                &letters,
                "STEP",
            );
            if is_decision {
                Heading::Decision(normalise_key_of(&upper), rest)
            } else if is_slice {
                Heading::Slice(normalise_key_of(&upper), rest)
            } else {
                Heading::Section(stripped)
            }
        },
        None => Heading::Section(stripped),
    }
}


// ---------------------------------------------------------------------------
// Sections
// ---------------------------------------------------------------------------

pub open spec fn classify_section(title: Seq<char>) -> Renders {
    let t = lowercase(title);
    if contains(t, "open question"@) || contains(t, "open item"@) || ends_with(t, "questions"@) {
        Renders::Questions
    } else if contains(t, "progress log"@) || contains(t, "change log"@) || t == "log"@ {
        Renders::Log
    } else if contains(t, "gotcha"@) {
        Renders::Gotchas
    } else if contains(t, "decision log"@) || t == "decisions"@ {
        Renders::Decisions
    } else {
        Renders::Body
    }
}

pub fn classify_section_of(title: &[char]) -> (r: Renders)
    ensures
        r == classify_section(title@),
{
    let t = to_lowercase(title);
    if has_str(&t, "open question") || has_str(&t, "open item") || ends_str(&t, "questions") {
        Renders::Questions
    } else if has_str(&t, "progress log") || has_str(&t, "change log") || crate::model::is_word(
        &t,
        "log",
    ) {
        Renders::Log
    } else if has_str(&t, "gotcha") {
        Renders::Gotchas
    } else if has_str(&t, "decision log") || crate::model::is_word(&t, "decisions") {
        Renders::Decisions
    } else {
        Renders::Body
    }
}

/// `base-n`.
pub open spec fn numbered(base: Seq<char>, n: nat) -> Seq<char> {
    base + "-"@ + crate::text::dec(n)
}

/// `n` is the first number from 2 on whose `base-n` is not taken.
pub open spec fn first_free(base: Seq<char>, keys: Seq<Seq<char>>, n: nat) -> bool {
    &&& n >= 2
    &&& !keys.contains(numbered(base, n))
    &&& forall|m: nat| 2 <= m < n ==> keys.contains(#[trigger] numbered(base, m))
}

/// A section's key: its title without leading numbering, as a slug, made unique among
/// the keys already taken by appending `-2`, `-3`, ...
pub open spec fn key_base(title: Seq<char>) -> Seq<char> {
    let stripped = trim_start_in(title, "0123456789.) "@);
    let b = crate::util::slug(
        if stripped.len() == 0 {
            title
        } else {
            stripped
        },
    );
    if b.len() == 0 {
        "section"@
    } else {
        b
    }
}

pub open spec fn section_key(title: Seq<char>, keys: Seq<Seq<char>>) -> Seq<char> {
    let base = key_base(title);
    if !keys.contains(base) {
        base
    } else {
        numbered(base, choose|n: nat| first_free(base, keys, n))
    }
}

proof fn lemma_numbered_injective(base: Seq<char>, a: nat, b: nat)
    requires
        numbered(base, a) == numbered(base, b),
    ensures
        a == b,
{
    let pa = base + "-"@;
    assert(numbered(base, a).skip(pa.len() as int) =~= crate::text::dec(a));
    assert(numbered(base, b).skip(pa.len() as int) =~= crate::text::dec(b));
    crate::text::lemma_dec_injective(a, b);
}

proof fn lemma_numbered_not_base(base: Seq<char>, n: nat)
    ensures
        numbered(base, n) != base,
{
    crate::text::lemma_dec_len(n);
    assert(numbered(base, n).len() > base.len());
}

fn key_base_of(title: &[char]) -> (r: Vec<char>)
    ensures
        r@ == key_base(title@),
{
    let cs = chars_of("0123456789.) ");
    let stripped = trimmed_start_in(title, &cs);
    let src = if stripped.len() == 0 {
        string_of(title)
    } else {
        string_of(&stripped)
    };
    let b = crate::util::slugify(src.as_str());
    let bv = chars_of(b.as_str());
    if bv.len() == 0 {
        chars_of("section")
    } else {
        bv
    }
}

fn keys_contain(sections: &Vec<ParsedSection>, key: &[char]) -> (r: bool)
    ensures
        r == section_keys(sections@).contains(key@),
{
    let mut i: usize = 0;
    while i < sections.len()
        invariant
            i <= sections@.len(),
            forall|k: int| 0 <= k < i ==> section_keys(sections@)[k] != key@,
        decreases sections.len() - i,
    {
        let kv = chars_of(sections[i].key.as_str());
        if eq_chars(&kv, key) {
            assert(section_keys(sections@)[i as int] == key@);
            return true;
        }
        i += 1;
    }
    false
}

fn section_key_of(title: &[char], sections: &Vec<ParsedSection>) -> (r: Vec<char>)
    ensures
        r@ == section_key(title@, section_keys(sections@)),
{
    let ghost keys = section_keys(sections@);
    let base = key_base_of(title);
    if !keys_contain(sections, &base) {
        return base;
    }
    let total = sections.len();
    let mut n: u128 = 2;
    let mut key = base.clone();
    push_str(&mut key, "-");
    crate::text::push_decimal(&mut key, 2);
    let ghost mut taken: Set<Seq<char>> = set![base@];
    proof {
        assert(key@ == numbered(base@, 2));
        keys.lemma_cardinality_of_set();
    }
    while keys_contain(sections, &key)
        invariant
            2 <= n,
            key@ == numbered(base@, n as nat),
            keys == section_keys(sections@),
            keys.len() == sections@.len(),
            total == sections@.len(),
            forall|m: nat| 2 <= m < n ==> keys.contains(#[trigger] numbered(base@, m)),
            taken.finite(),
            taken.len() == n - 1,
            taken.subset_of(keys.to_set()),
            keys.to_set().len() <= keys.len(),
            forall|x: Seq<char>| #[trigger] taken.contains(x) ==> x == base@ || exists|m: nat|
                2 <= m < n && x == numbered(base@, m),
        decreases keys.len() + 2 - n,
    {
        proof {
            if taken.contains(key@) {
                if key@ == base@ {
                    lemma_numbered_not_base(base@, n as nat);
                } else {
                    let m = choose|m: nat| 2 <= m < n && key@ == numbered(base@, m);
                    lemma_numbered_injective(base@, m, n as nat);
                }
            }
            let t2 = taken.insert(key@);
            assert(t2.subset_of(keys.to_set()));
            vstd::set_lib::lemma_len_subset(t2, keys.to_set());
            assert(t2.len() == n);
            taken = t2;
            assert(n <= total);
        }
        n = n + 1;
        key = base.clone();
        push_str(&mut key, "-");
        crate::text::push_decimal(&mut key, n);
        proof {
            assert forall|x: Seq<char>| #[trigger] taken.contains(x) implies x == base@ || exists|m: nat|
                2 <= m < n && x == numbered(base@, m) by {
                if x == numbered(base@, (n - 1) as nat) {
                    assert(2 <= (n - 1) as nat && ((n - 1) as nat) < n);
                }
            }
        }
    }
    proof {
        assert(first_free(base@, keys, n as nat));
        let c = choose|m: nat| first_free(base@, keys, m);
        if c < n {
            assert(keys.contains(numbered(base@, c)));
        } else if c > n {
            assert(keys.contains(numbered(base@, n as nat)));
        }
        assert(c == n);
    }
    key
}

// ---------------------------------------------------------------------------
// Slices
// ---------------------------------------------------------------------------

/// Status markers are matched case-sensitively: they are shouted, and deliberately
/// distinct from prose.
pub open spec fn marker_status(text: Seq<char>) -> Option<Status> {
    if contains(text, "⛔"@) || contains(text, "BLOCKED"@) {
        Some(Status::Blocked)
    } else if contains(text, "IN REVIEW"@) {
        Some(Status::InReview)
    } else if contains(text, "DONE"@) || contains(text, "DELIVERED"@) || contains(text, "✅"@) {
        Some(Status::Done)
    } else if contains(lowercase(text), "(optional)"@) || contains(text, "DEFERRED"@) {
        Some(Status::Deferred)
    } else if contains(text, "IN PROGRESS"@) {
        Some(Status::Active)
    } else {
        None
    }
}

pub fn marker_status_of(text: &[char]) -> (r: Option<Status>)
    ensures
        r == marker_status(text@),
{
    if has_str(text, "⛔") || has_str(text, "BLOCKED") {
        return Some(Status::Blocked);
    }
    if has_str(text, "IN REVIEW") {
        return Some(Status::InReview);
    }
    if has_str(text, "DONE") || has_str(text, "DELIVERED") || has_str(text, "✅") {
        return Some(Status::Done);
    }
    let low = to_lowercase(text);
    if has_str(&low, "(optional)") || has_str(text, "DEFERRED") {
        return Some(Status::Deferred);
    }
    if has_str(text, "IN PROGRESS") {
        return Some(Status::Active);
    }
    None
}

pub open spec fn sub_status_from(ls: Seq<Seq<char>>, key: Seq<char>, i: int) -> Option<Status>
    decreases ls.len() - i,
{
    if i < 0 || i >= ls.len() {
        None
    } else if starts_with(ls[i], "#"@) && contains(ls[i], key) && marker_status(ls[i]) is Some {
        marker_status(ls[i])
    } else {
        sub_status_from(ls, key, i + 1)
    }
}

/// A slice's status comes from its own heading, or from a folded sub-heading that
/// reports on it; otherwise it is ready.
pub open spec fn status_of_slice(heading: Seq<char>, key: Seq<char>, body: Seq<char>) -> Status {
    match marker_status(heading) {
        Some(s) => s,
        None => match sub_status_from(lines(body), key, 0) {
            Some(s) => s,
            None => Status::Ready,
        },
    }
}

pub fn slice_status_of(heading: &[char], key: &[char], body: &[char]) -> (r: Status)
    ensures
        r == status_of_slice(heading@, key@, body@),
{
    let hm = marker_status_of(heading);
    if let Some(s) = hm {
        return s;
    }
    assert(marker_status(heading@) is None);
    let ls = lines_of(body);
    let mut i: usize = 0;
    while i < ls.len()
        invariant
            i <= ls@.len(),
            views(ls@) == lines(body@),
            marker_status(heading@) is None,
            sub_status_from(lines(body@), key@, 0) == sub_status_from(lines(body@), key@, i as int),
        decreases ls.len() - i,
    {
        assert(views(ls@)[i as int] == ls@[i as int]@);
        let line = &ls[i];
        assert(lines(body@)[i as int] == line@);
        if starts_str(line, "#") && has(line, key) {
            if let Some(s) = marker_status_of(line) {
                assert(sub_status_from(lines(body@), key@, i as int) == Some(s));
                return s;
            }
        }
        i += 1;
    }
    Status::Ready
}

/// The status a slice's heading (or a sub-heading in its body that names it) reports.
pub fn slice_status(heading: &str, key: &str, body: &str) -> (r: Status)
    ensures
        r == status_of_slice(heading@, key@, body@),
{
    let h = chars_of(heading);
    let k = chars_of(key);
    let b = chars_of(body);
    slice_status_of(&h, &k, &b)
}

/// How a status marker reads, case-sensitively and with a fixed precedence: a block
/// (`⛔` or `BLOCKED`) wins over everything; `IN REVIEW` over a finish; a finish
/// (`DONE`, `DELIVERED`, `✅`) over a deferral (`(optional)` in any case, or
/// `DEFERRED`); `IN PROGRESS` only when nothing else is there; and text with none of
/// them reads as no status at all.
pub proof fn law_status_markers_and_their_precedence(t: Seq<char>)
    ensures
        (contains(t, "⛔"@) || contains(t, "BLOCKED"@)) <==> marker_status(t) == Some(Status::Blocked),
        (contains(t, "IN REVIEW"@) && !contains(t, "⛔"@) && !contains(t, "BLOCKED"@)) <==> marker_status(t)
            == Some(Status::InReview),
        ((contains(t, "DONE"@) || contains(t, "DELIVERED"@) || contains(t, "✅"@)) && !contains(t, "⛔"@)
            && !contains(t, "BLOCKED"@) && !contains(t, "IN REVIEW"@)) <==> marker_status(t) == Some(Status::Done),
        marker_status(t) == Some(Status::Deferred) ==> (contains(lowercase(t), "(optional)"@) || contains(
            t,
            "DEFERRED"@,
        )),
        marker_status(t) == Some(Status::Active) ==> contains(t, "IN PROGRESS"@),
        marker_status(t) is None <==> (!contains(t, "⛔"@) && !contains(t, "BLOCKED"@) && !contains(t, "IN REVIEW"@)
            && !contains(t, "DONE"@) && !contains(t, "DELIVERED"@) && !contains(t, "✅"@) && !contains(
            lowercase(t),
            "(optional)"@,
        ) && !contains(t, "DEFERRED"@) && !contains(t, "IN PROGRESS"@)),
        marker_status(t) matches Some(s) ==> s != Status::Ready && s != Status::Draft,
{
}

/// A marker on a slice's own heading decides its status, whatever its body says; with
/// no marker there, and no heading line in the body naming the slice with one, the
/// slice is ready.
pub proof fn law_a_slice_heading_marker_decides(heading: Seq<char>, key: Seq<char>, body: Seq<char>)
    ensures
        marker_status(heading) matches Some(s) ==> status_of_slice(heading, key, body) == s,
        (marker_status(heading) is None && forall|i: int|
            0 <= i < lines(body).len() ==> !(starts_with(#[trigger] lines(body)[i], "#"@) && contains(
                lines(body)[i],
                key,
            ) && marker_status(lines(body)[i]) is Some)) ==> status_of_slice(heading, key, body) == Status::Ready,
{
    if marker_status(heading) is None && forall|i: int|
        0 <= i < lines(body).len() ==> !(starts_with(#[trigger] lines(body)[i], "#"@) && contains(lines(body)[i], key)
            && marker_status(lines(body)[i]) is Some) {
        lemma_no_sub_status(lines(body), key, 0);
    }
}

proof fn lemma_no_sub_status(ls: Seq<Seq<char>>, key: Seq<char>, i: int)
    requires
        0 <= i,
        forall|j: int|
            0 <= j < ls.len() ==> !(starts_with(#[trigger] ls[j], "#"@) && contains(ls[j], key) && marker_status(ls[j]) is Some),
    ensures
        sub_status_from(ls, key, i) is None,
    decreases ls.len() - i,
{
    if i < ls.len() {
        lemma_no_sub_status(ls, key, i + 1);
    }
}

/// The number the digits spell.
pub open spec fn dec_value(ds: Seq<char>) -> int
    decreases ds.len(),
{
    if ds.len() == 0 {
        0
    } else {
        dec_value(ds.drop_last()) * 10 + ((ds.last() as u32) - 48)
    }
}

proof fn lemma_dec_value_mono(ds: Seq<char>, i: int, j: int)
    requires
        0 <= i <= j <= ds.len(),
        forall|k: int| 0 <= k < ds.len() ==> is_digit(#[trigger] ds[k]),
    ensures
        0 <= dec_value(ds.take(i)) <= dec_value(ds.take(j)),
    decreases j - i,
{
    if i < j {
        lemma_dec_value_mono(ds, i, j - 1);
        assert(ds.take(j).drop_last() =~= ds.take(j - 1));
        assert(is_digit(ds[j - 1]));
    } else {
        lemma_dec_value_nonneg(ds.take(i));
    }
}

proof fn lemma_dec_value_nonneg(ds: Seq<char>)
    requires
        forall|k: int| 0 <= k < ds.len() ==> is_digit(#[trigger] ds[k]),
    ensures
        dec_value(ds) >= 0,
    decreases ds.len(),
{
    if ds.len() > 0 {
        assert(is_digit(ds[ds.len() - 1]));
        lemma_dec_value_nonneg(ds.drop_last());
    }
}

/// `str::parse::<i64>` on a run of digits: the number, unless it does not fit.
fn parse_digits(ds: &[char]) -> (r: Option<i64>)
    requires
        forall|k: int| 0 <= k < ds@.len() ==> is_digit(#[trigger] ds@[k]),
    ensures
        r matches Some(v) ==> dec_value(ds@) == v,
        r is None ==> dec_value(ds@) > i64::MAX,
{
    let mut v: i64 = 0;
    let mut i: usize = 0;
    while i < ds.len()
        invariant
            i <= ds@.len(),
            forall|k: int| 0 <= k < ds@.len() ==> is_digit(#[trigger] ds@[k]),
            v == dec_value(ds@.take(i as int)),
            0 <= v,
        decreases ds.len() - i,
    {
        let d: i64 = ((ds[i] as u32) - 48) as i64;
        assert(ds@.take(i + 1).drop_last() =~= ds@.take(i as int));
        assert(is_digit(ds@[i as int]));
        if v > (i64::MAX - d) / 10 {
            proof {
                lemma_dec_value_mono(ds@, i + 1, ds@.len() as int);
                assert(ds@.take(ds@.len() as int) =~= ds@);
                assert(dec_value(ds@.take(i + 1)) == v * 10 + d);
                assert(v * 10 + d > i64::MAX) by (nonlinear_arith)
                    requires
                        v > (i64::MAX - d) / 10,
                        0 <= d <= 9,
                ;
            }
            return None;
        }
        assert(v * 10 + d <= i64::MAX) by (nonlinear_arith)
            requires
                v <= (i64::MAX - d) / 10,
                0 <= d <= 9,
                v >= 0,
        ;
        v = v * 10 + d;
        i += 1;
    }
    assert(ds@.take(ds@.len() as int) =~= ds@);
    Some(v)
}

/// What `str::parse::<i64>` reads: an optional `+` or `-`, then one or more digits,
/// and a value that fits.
pub open spec fn i64_text(s: Seq<char>) -> Option<int> {
    if s.len() > 0 && (s[0] == '-' || s[0] == '+') {
        let ds = s.skip(1);
        if ds.len() > 0 && forall|k: int| 0 <= k < ds.len() ==> is_digit(#[trigger] ds[k]) {
            let v = if s[0] == '-' { -dec_value(ds) } else { dec_value(ds) };
            if i64::MIN <= v <= i64::MAX { Some(v) } else { None }
        } else {
            None
        }
    } else if s.len() > 0 && forall|k: int| 0 <= k < s.len() ==> is_digit(#[trigger] s[k]) {
        if dec_value(s) <= i64::MAX { Some(dec_value(s)) } else { None }
    } else {
        None
    }
}

/// The value of a run of digits when it is at most `bound`.
fn digits_upto(ds: &[char], bound: u64) -> (r: Option<u64>)
    requires
        forall|k: int| 0 <= k < ds@.len() ==> is_digit(#[trigger] ds@[k]),
    ensures
        r matches Some(v) ==> dec_value(ds@) == v && v <= bound,
        r is None ==> dec_value(ds@) > bound,
{
    let mut v: u64 = 0;
    let mut i: usize = 0;
    while i < ds.len()
        invariant
            i <= ds@.len(),
            forall|k: int| 0 <= k < ds@.len() ==> is_digit(#[trigger] ds@[k]),
            v == dec_value(ds@.take(i as int)),
            v <= bound,
        decreases ds.len() - i,
    {
        let d: u64 = ((ds[i] as u32) - 48) as u64;
        assert(ds@.take(i + 1).drop_last() =~= ds@.take(i as int));
        assert(is_digit(ds@[i as int]));
        if d > bound || v > (bound - d) / 10 {
            proof {
                lemma_dec_value_mono(ds@, i + 1, ds@.len() as int);
                assert(ds@.take(ds@.len() as int) =~= ds@);
                assert(dec_value(ds@.take(i + 1)) == v * 10 + d);
                if d <= bound {
                    assert(v * 10 + d > bound) by (nonlinear_arith)
                        requires
                            v > (bound - d) / 10,
                            0 <= d <= 9,
                            d <= bound,
                    ;
                }
            }
            return None;
        }
        assert(v * 10 + d <= bound) by (nonlinear_arith)
            requires
                v <= (bound - d) / 10,
                0 <= d <= 9,
                d <= bound,
                v >= 0,
        ;
        v = v * 10 + d;
        i += 1;
    }
    assert(ds@.take(ds@.len() as int) =~= ds@);
    Some(v)
}

/// `str::parse::<i64>`, with `None` for its error.
pub fn parse_i64(s: &[char]) -> (r: Option<i64>)
    ensures
        r matches Some(v) ==> i64_text(s@) == Some(v as int),
        r is None ==> i64_text(s@) is None,
{
    if s.len() == 0 {
        return None;
    }
    let signed = s[0] == '-' || s[0] == '+';
    let from: usize = if signed { 1 } else { 0 };
    if from >= s.len() {
        return None;
    }
    let mut ds: Vec<char> = Vec::new();
    let mut i: usize = from;
    while i < s.len()
        invariant
            from <= i <= s@.len(),
            s@.len() > 0,
            signed == (s@[0] == '-' || s@[0] == '+'),
            from == (if signed { 1usize } else { 0usize }),
            ds@ == s@.subrange(from as int, i as int),
            forall|k: int| 0 <= k < ds@.len() ==> is_digit(#[trigger] ds@[k]),
        decreases s.len() - i,
    {
        let c = s[i];
        if !('0' <= c && c <= '9') {
            proof {
                if signed {
                    let tail = s@.skip(1);
                    assert(tail[i - 1] == c);
                    assert(!is_digit(tail[i - 1]));
                } else {
                    assert(!is_digit(s@[i as int]));
                }
            }
            return None;
        }
        ds.push(c);
        assert(ds@ =~= s@.subrange(from as int, i + 1));
        i += 1;
    }
    assert(ds@ =~= s@.skip(from as int));
    assert(s@.skip(0) =~= s@);
    proof {
        lemma_dec_value_nonneg(ds@);
    }
    if s[0] == '-' {
        match digits_upto(&ds, 9223372036854775808u64) {
            Some(v) => {
                if v == 9223372036854775808u64 {
                    Some(i64::MIN)
                } else {
                    let w: i64 = v as i64;
                    Some(-w)
                }
            },
            None => None,
        }
    } else {
        match digits_upto(&ds, 9223372036854775807u64) {
            Some(v) => Some(v as i64),
            None => None,
        }
    }
}

/// `(~40 files)` -> 40.
pub open spec fn file_estimate(text: Seq<char>) -> Option<i64> {
    match find(text, "~"@) {
        None => None,
        Some(at) => {
            let tail = text.skip(at + 1);
            let de = digit_end(tail, 0);
            let digits = tail.take(de);
            let after = trim_start(tail.skip(de));
            if de == 0 {
                None
            } else if !starts_with(lowercase(after), "file"@) {
                None
            } else if dec_value(digits) <= i64::MAX {
                Some(dec_value(digits) as i64)
            } else {
                None
            }
        },
    }
}

pub fn file_estimate_of(text: &[char]) -> (r: Option<i64>)
    ensures
        r == file_estimate(text@),
{
    let tilde = chars_of("~");
    let at = match find_in(text, &tilde) {
        Some(at) => at,
        None => return None,
    };
    proof {
        lemma_find_from_bounds(text@, "~"@, 0);
        reveal_strlit("~");
    }
    assert(text@.len() == text.len());
    assert(at + 1 <= text.len());
    let tail = slice_of(text, at + 1, text.len());
    assert(tail@ =~= text@.skip(at + 1));
    let mut de: usize = 0;
    proof {
        lemma_digit_end(tail@, 0);
    }
    while de < tail.len() && digit(tail[de])
        invariant
            de <= tail@.len(),
            digit_end(tail@, 0) == digit_end(tail@, de as int),
        decreases tail.len() - de,
    {
        de += 1;
    }
    if de == 0 {
        return None;
    }
    let digits = slice_of(&tail, 0, de);
    assert(digits@ =~= tail@.take(de as int));
    let rest = slice_of(&tail, de, tail.len());
    assert(rest@ =~= tail@.skip(de as int));
    let after = trimmed_start(&rest);
    let low = to_lowercase(&after);
    if !starts_str(&low, "file") {
        return None;
    }
    assert forall|k: int| 0 <= k < digits@.len() implies is_digit(#[trigger] digits@[k]) by {
        assert(digits@[k] == tail@[k]);
    }
    parse_digits(&digits)
}

/// The text after a `**Demo:**` (or `**Demo**:`) label.
pub open spec fn demo_rest(t: Seq<char>) -> Option<Seq<char>> {
    match strip_prefix(t, "**Demo:**"@) {
        Some(r) => Some(r),
        None => strip_prefix(t, "**Demo**:"@),
    }
}

pub open spec fn demo_acc(
    ls: Seq<Seq<char>>,
    i: int,
    demo: Seq<Seq<char>>,
    scope: Seq<Seq<char>>,
    in_demo: bool,
) -> (Seq<Seq<char>>, Seq<Seq<char>>)
    decreases ls.len() - i,
{
    if i < 0 || i >= ls.len() {
        (demo, scope)
    } else {
        let t = trim(ls[i]);
        match demo_rest(t) {
            Some(rest) => demo_acc(ls, i + 1, demo.push(trim(rest)), scope, true),
            None => if in_demo {
                if t.len() == 0 {
                    demo_acc(ls, i + 1, demo, scope, false)
                } else {
                    demo_acc(ls, i + 1, demo.push(t), scope, true)
                }
            } else {
                demo_acc(ls, i + 1, demo, scope.push(ls[i]), false)
            },
        }
    }
}

/// A slice body split into its scope and its demo line(s).
pub open spec fn split_demo(body: Seq<char>) -> (Seq<char>, Option<Seq<char>>) {
    let (demo, scope) = demo_acc(lines(body), 0, Seq::empty(), Seq::empty(), false);
    let d = trim(join(demo, " "@));
    (
        join(scope, "\n"@),
        if d.len() == 0 {
            None
        } else {
            Some(d)
        },
    )
}

pub fn split_demo_of(body: &[char]) -> (r: (Vec<char>, Option<Vec<char>>))
    ensures
        r.0@ == split_demo(body@).0,
        (match r.1 {
            Some(d) => Some(d@),
            None => None,
        }) == split_demo(body@).1,
{
    let ls = lines_of(body);
    let mut demo: Vec<Vec<char>> = Vec::new();
    let mut scope: Vec<Vec<char>> = Vec::new();
    let mut in_demo = false;
    let mut i: usize = 0;
    assert(views(demo@) =~= Seq::<Seq<char>>::empty());
    assert(views(scope@) =~= Seq::<Seq<char>>::empty());
    while i < ls.len()
        invariant
            i <= ls@.len(),
            views(ls@) == lines(body@),
            demo_acc(lines(body@), i as int, views(demo@), views(scope@), in_demo) == demo_acc(
                lines(body@),
                0,
                Seq::empty(),
                Seq::empty(),
                false,
            ),
        decreases ls.len() - i,
    {
        assert(views(ls@)[i as int] == ls@[i as int]@);
        let t = trimmed(&ls[i]);
        let rest = match strip_prefix_of(&t, "**Demo:**") {
            Some(r) => Some(r),
            None => strip_prefix_of(&t, "**Demo**:"),
        };
        match rest {
            Some(r) => {
                in_demo = true;
                let tr = trimmed(&r);
                proof {
                    lemma_views_push(demo@, tr);
                }
                demo.push(tr);
            },
            None => {
                if in_demo {
                    if t.len() == 0 {
                        in_demo = false;
                    } else {
                        proof {
                            lemma_views_push(demo@, t);
                        }
                        demo.push(t);
                    }
                } else {
                    let line = crate::text::copy(&ls[i]);
                    proof {
                        lemma_views_push(scope@, line);
                    }
                    scope.push(line);
                }
            },
        }
        i += 1;
    }
    let d0 = joined_str(&demo, " ");
    let d = trimmed(&d0);
    let sc = joined_str(&scope, "\n");
    (
        sc,
        if d.len() == 0 {
            None
        } else {
            Some(d)
        },
    )
}

pub open spec fn is_decoration(c: char) -> bool {
    is_digit(c) || "-–—/ .:()"@.contains(c)
}

pub open spec fn all_decoration(s: Seq<char>) -> bool {
    forall|i: int| 0 <= i < s.len() ==> is_decoration(#[trigger] s[i])
}

/// A shouted status word, and whatever date trails it, cut off - only as a suffix.
pub open spec fn cut_word(t: Seq<char>, w: Seq<char>) -> Seq<char> {
    match rfind(t, w) {
        Some(at) => if all_decoration(t.skip(at + w.len())) {
            t.take(at)
        } else {
            t
        },
        None => t,
    }
}

/// The first `(~...)` estimate removed.
pub open spec fn cut_estimate(t: Seq<char>) -> Seq<char> {
    match find(t, "(~"@) {
        Some(at) => match find(t.skip(at), ")"@) {
            Some(close) => t.take(at) + t.skip(at + close + 1),
            None => t,
        },
        None => t,
    }
}

pub open spec fn unmarked(t: Seq<char>) -> Seq<char> {
    replace(replace(replace(replace(t, "✅"@, " "@), "⛔"@, " "@), "✔"@, " "@), "❌"@, " "@)
}

/// Slice titles carry their status marker and file estimate; both are columns now.
pub open spec fn clean_slice_title(title: Seq<char>) -> Seq<char> {
    let t1 = unmarked(title);
    let t2 = cut_word(
        cut_word(
            cut_word(cut_word(cut_word(t1, "DELIVERED"@), "IN REVIEW"@), "DONE"@),
            "BLOCKED"@,
        ),
        "IN PROGRESS"@,
    );
    let t3 = cut_estimate(t2);
    let collapsed = join(words(t3), " "@);
    trim(trim_end_in(trim(collapsed), seq!['-', '·', ',']))
}

fn decoration(c: char) -> (r: bool)
    ensures
        r == is_decoration(c),
{
    let set = chars_of("-–—/ .:()");
    digit(c) || crate::text::one_of(c, &set)
}

fn cut_word_of(t: Vec<char>, w: &str) -> (r: Vec<char>)
    ensures
        r@ == cut_word(t@, w@),
{
    let wv = chars_of(w);
    match rfind_in(&t, &wv) {
        Some(at) => {
            proof {
                lemma_rfind_bounds(t@, w@, t@.len() - w@.len());
            }
            assert(at + wv.len() <= t.len());
            let tail = slice_of(&t, at + wv.len(), t.len());
            assert(tail@ =~= t@.skip(at + w@.len()));
            let mut all = true;
            let mut k: usize = 0;
            while k < tail.len()
                invariant
                    k <= tail@.len(),
                    all == forall|m: int| 0 <= m < k ==> is_decoration(#[trigger] tail@[m]),
                decreases tail.len() - k,
            {
                if !decoration(tail[k]) {
                    all = false;
                }
                k += 1;
            }
            if all {
                let r = slice_of(&t, 0, at);
                assert(r@ =~= t@.take(at as int));
                r
            } else {
                t
            }
        },
        None => t,
    }
}

fn cut_estimate_of(t: Vec<char>) -> (r: Vec<char>)
    ensures
        r@ == cut_estimate(t@),
{
    let open = chars_of("(~");
    let close = chars_of(")");
    proof {
        reveal_strlit("(~");
        reveal_strlit(")");
    }
    match find_in(&t, &open) {
        Some(at) => {
            proof {
                lemma_find_from_bounds(t@, "(~"@, 0);
            }
            let tail = slice_of(&t, at, t.len());
            assert(tail@ =~= t@.skip(at as int));
            match find_in(&tail, &close) {
                Some(c) => {
                    proof {
                        lemma_find_from_bounds(tail@, ")"@, 0);
                    }
                    assert(c + 1 <= tail@.len());
                    assert(at + c + 1 <= t.len());
                    let mut r = slice_of(&t, 0, at);
                    let after = slice_of(&t, at + c + 1, t.len());
                    push_all(&mut r, &after);
                    assert(r@ =~= t@.take(at as int) + t@.skip(at + c + 1));
                    r
                },
                None => t,
            }
        },
        None => t,
    }
}

pub fn clean_slice_title_of(title: &[char]) -> (r: Vec<char>)
    ensures
        r@ == clean_slice_title(title@),
{
    proof {
        reveal_strlit("✅");
        reveal_strlit("⛔");
        reveal_strlit("✔");
        reveal_strlit("❌");
    }
    let t = replaced_str(title, "✅", " ");
    let t = replaced_str(&t, "⛔", " ");
    let t = replaced_str(&t, "✔", " ");
    let t = replaced_str(&t, "❌", " ");
    let t = cut_word_of(t, "DELIVERED");
    let t = cut_word_of(t, "IN REVIEW");
    let t = cut_word_of(t, "DONE");
    let t = cut_word_of(t, "BLOCKED");
    let t = cut_word_of(t, "IN PROGRESS");
    let t = cut_estimate_of(t);
    let ws_ = words_of(&t);
    let collapsed = joined_str(&ws_, " ");
    let c1 = trimmed(&collapsed);
    let set = ['-', '·', ','];
    assert(set@ =~= seq!['-', '·', ',']);
    let c2 = trimmed_end_in(&c1, &set);
    trimmed(&c2)
}


// ---------------------------------------------------------------------------
// Bullets, questions and the progress log
// ---------------------------------------------------------------------------

pub open spec fn strip_checkbox(text: Seq<char>) -> Seq<char> {
    let t = trim(text);
    match strip_prefix(t, "[ ] "@) {
        Some(r) => trim(r),
        None => match strip_prefix(t, "[x] "@) {
            Some(r) => trim(r),
            None => match strip_prefix(t, "[X] "@) {
                Some(r) => trim(r),
                None => t,
            },
        },
    }
}

pub fn strip_checkbox_of(text: &[char]) -> (r: Vec<char>)
    ensures
        r@ == strip_checkbox(text@),
{
    let t = trimmed(text);
    if let Some(r) = strip_prefix_of(&t, "[ ] ") {
        return trimmed(&r);
    }
    if let Some(r) = strip_prefix_of(&t, "[x] ") {
        return trimmed(&r);
    }
    if let Some(r) = strip_prefix_of(&t, "[X] ") {
        return trimmed(&r);
    }
    t
}

pub open spec fn bullet_rest(t: Seq<char>) -> Option<Seq<char>> {
    match strip_prefix(t, "- "@) {
        Some(r) => Some(r),
        None => strip_prefix(t, "* "@),
    }
}

/// Two or more bytes of leading whitespace.
pub open spec fn is_indented(line: Seq<char>) -> bool {
    byte_len(line) - byte_len(trim_start(line)) >= 2
}

pub open spec fn bullets_acc(ls: Seq<Seq<char>>, i: int, out: Seq<Seq<char>>, fenced: bool) -> Seq<
    Seq<char>,
>
    decreases ls.len() - i,
{
    if i < 0 || i >= ls.len() {
        out
    } else if is_fence(ls[i]) {
        bullets_acc(ls, i + 1, out, !fenced)
    } else if fenced {
        bullets_acc(ls, i + 1, out, fenced)
    } else {
        let t = trim_start(ls[i]);
        let indented = is_indented(ls[i]);
        match bullet_rest(t) {
            Some(rest) => {
                let text = strip_checkbox(rest);
                if indented && out.len() > 0 {
                    bullets_acc(
                        ls,
                        i + 1,
                        out.update(out.len() - 1, out.last() + "\n  - "@ + text),
                        fenced,
                    )
                } else {
                    bullets_acc(ls, i + 1, out.push(text), fenced)
                }
            },
            None => if t.len() > 0 && indented && out.len() > 0 {
                bullets_acc(ls, i + 1, out.update(out.len() - 1, out.last() + " "@ + t), fenced)
            } else {
                bullets_acc(ls, i + 1, out, fenced)
            },
        }
    }
}

/// The bullets of a body, outside code fences. A nested bullet, or an indented
/// continuation line, extends the bullet above it.
pub open spec fn bullets(body: Seq<char>) -> Seq<Seq<char>> {
    bullets_acc(lines(body), 0, Seq::empty(), false)
}

fn indented_of(line: &[char]) -> (r: bool)
    ensures
        r == is_indented(line@),
{
    let lead = crate::text::lead_ws_len(line);
    let t = trimmed_start(line);
    proof {
        crate::text::lemma_lead_ws_bounds(line@, 0);
        assert(line@ =~= line@.take(lead as int) + t@);
        crate::text::lemma_byte_len_concat(line@.take(lead as int), t@);
        crate::text::lemma_byte_len_ge(line@.take(lead as int));
        assert(byte_len(Seq::<char>::empty()) == 0);
        if lead == 1 {
            assert(line@.take(1).drop_last() =~= Seq::<char>::empty());
            assert(line@.take(1).last() == line@[0]);
            assert(byte_len(line@.take(1)) == byte_len(line@.take(1).drop_last())
                + crate::text::utf8_len(line@.take(1).last()));
        }
        if lead == 0 {
            assert(line@.take(0) =~= Seq::<char>::empty());
        }
    }
    if lead >= 2 {
        true
    } else if lead == 1 {
        crate::text::char_utf8_len(line[0]) >= 2
    } else {
        false
    }
}

fn bullets_of(body: &[char]) -> (out: Vec<Vec<char>>)
    ensures
        views(out@) == bullets(body@),
{
    let ls = lines_of(body);
    let mut out: Vec<Vec<char>> = Vec::new();
    let mut fenced = false;
    let mut i: usize = 0;
    assert(views(out@) =~= Seq::<Seq<char>>::empty());
    while i < ls.len()
        invariant
            i <= ls@.len(),
            views(ls@) == lines(body@),
            bullets_acc(lines(body@), i as int, views(out@), fenced) == bullets(body@),
        decreases ls.len() - i,
    {
        assert(views(ls@)[i as int] == ls@[i as int]@);
        let line = &ls[i];
        assert(lines(body@)[i as int] == line@);
        if fence(line) {
            fenced = !fenced;
            i += 1;
            continue;
        }
        if fenced {
            i += 1;
            continue;
        }
        let t = trimmed_start(line);
        let indented = indented_of(line);
        let rest = match strip_prefix_of(&t, "- ") {
            Some(r) => Some(r),
            None => strip_prefix_of(&t, "* "),
        };
        match rest {
            Some(r) => {
                let text = strip_checkbox_of(&r);
                if indented && out.len() > 0 {
                    let last_i = out.len() - 1;
                    let mut last = crate::text::copy(&out[last_i]);
                    push_str(&mut last, "\n  - ");
                    push_all(&mut last, &text);
                    let ghost before = out@;
                    out.set(last_i, last);
                    assert(views(out@) =~= views(before).update(
                        last_i as int,
                        views(before).last() + "\n  - "@ + text@,
                    ));
                } else {
                    proof {
                        lemma_views_push(out@, text);
                    }
                    out.push(text);
                }
            },
            None => {
                if t.len() > 0 && indented && out.len() > 0 {
                    let last_i = out.len() - 1;
                    let mut last = crate::text::copy(&out[last_i]);
                    push_str(&mut last, " ");
                    push_all(&mut last, &t);
                    let ghost before = out@;
                    out.set(last_i, last);
                    assert(views(out@) =~= views(before).update(
                        last_i as int,
                        views(before).last() + " "@ + t@,
                    ));
                }
            },
        }
        i += 1;
    }
    out
}

pub open spec fn prose_acc(ls: Seq<Seq<char>>, i: int, out: Seq<Seq<char>>) -> Seq<Seq<char>>
    decreases ls.len() - i,
{
    if i < 0 || i >= ls.len() {
        out
    } else if starts_with(trim_start(ls[i]), "- "@) || starts_with(trim_start(ls[i]), "* "@) {
        out
    } else {
        prose_acc(ls, i + 1, out.push(ls[i]))
    }
}

/// Prose that appears before the first bullet stays in the section body.
pub open spec fn prose_before_bullets(body: Seq<char>) -> Seq<char> {
    trim(join(prose_acc(lines(body), 0, Seq::empty()), "\n"@))
}

fn prose_before_bullets_of(body: &[char]) -> (r: Vec<char>)
    ensures
        r@ == prose_before_bullets(body@),
{
    let ls = lines_of(body);
    let mut out: Vec<Vec<char>> = Vec::new();
    let mut i: usize = 0;
    assert(views(out@) =~= Seq::<Seq<char>>::empty());
    while i < ls.len()
        invariant
            i <= ls@.len(),
            views(ls@) == lines(body@),
            prose_acc(lines(body@), i as int, views(out@)) == prose_acc(
                lines(body@),
                0,
                Seq::empty(),
            ),
        ensures
            views(out@) == prose_acc(lines(body@), 0, Seq::empty()),
        decreases ls.len() - i,
    {
        assert(views(ls@)[i as int] == ls@[i as int]@);
        let t = trimmed_start(&ls[i]);
        if starts_str(&t, "- ") || starts_str(&t, "* ") {
            break;
        }
        let line = crate::text::copy(&ls[i]);
        proof {
            lemma_views_push(out@, line);
        }
        out.push(line);
        i += 1;
    }
    let j = joined_str(&out, "\n");
    trimmed(&j)
}

/// `YYYY-MM-DD`: digits, with dashes at positions 4 and 7.
pub open spec fn date_shaped(h: Seq<char>) -> bool {
    h.len() == 10 && forall|i: int|
        0 <= i < 10 ==> if i == 4 || i == 7 {
            #[trigger] h[i] == '-'
        } else {
            is_digit(h[i])
        }
}

/// `leading_date` slices ten bytes off the trimmed text; that is only possible when
/// the tenth byte falls on a character boundary.
/// `2026-07-20 - M3 done` -> (`2026-07-20`, `M3 done`).
pub open spec fn leading_date(text: Seq<char>) -> Option<(Seq<char>, Seq<char>)> {
    let t = trim(text);
    if byte_len(t) < 10 {
        None
    } else if index_at_byte(t, 10) == Some(10int) && date_shaped(t.take(10)) {
        Some((t.take(10), trim(trim_start_in(trim_start(t.skip(10)), seq!['-', '–', '—']))))
    } else {
        None
    }
}

proof fn lemma_byte_len_eq_len_ascii(s: Seq<char>)
    requires
        byte_len(s) == s.len(),
    ensures
        crate::text::all_ascii(s),
    decreases s.len(),
{
    if s.len() > 0 {
        crate::text::lemma_byte_len_ge(s.drop_last());
        lemma_byte_len_eq_len_ascii(s.drop_last());
        assert forall|i: int| 0 <= i < s.len() implies crate::text::is_ascii_char(#[trigger] s[i]) by {
            if i < s.len() - 1 {
                assert(s.drop_last()[i] == s[i]);
            }
        }
    }
}

/// The result of `leading_date`: a text whose tenth byte falls inside a character
/// has no date, and is kept whole.
fn leading_date_of(text: &[char]) -> (r: Option<(Vec<char>, Vec<char>)>)
    ensures
        (match r {
            Some(p) => Some((p.0@, p.1@)),
            None => None,
        }) == leading_date(text@),
{
    let t = trimmed(text);
    let total = crate::text::prefix_bytes(&t, t.len());
    assert(t@.take(t@.len() as int) =~= t@);
    if total < 10 {
        return None;
    }
    let j = match index_at_byte_of(&t, 10) {
        Some(j) => j,
        None => return None,
    };
    if j != 10 {
        return None;
    }
    proof {
        lemma_index_at_byte_bounds(t@, 10, 0);
    }
    let head = slice_of(&t, 0, 10);
    assert(head@ =~= t@.take(10));
    let mut shaped = true;
    let mut k: usize = 0;
    while k < 10
        invariant
            k <= 10,
            head@.len() == 10,
            shaped == forall|m: int|
                0 <= m < k ==> if m == 4 || m == 7 {
                    #[trigger] head@[m] == '-'
                } else {
                    is_digit(head@[m])
                },
        decreases 10 - k,
    {
        let ok = if k == 4 || k == 7 {
            head[k] == '-'
        } else {
            digit(head[k])
        };
        if !ok {
            shaped = false;
        }
        k += 1;
    }
    if !shaped {
        return None;
    }
    let rest0 = slice_of(&t, 10, t.len());
    assert(rest0@ =~= t@.skip(10));
    let r1 = trimmed_start(&rest0);
    let dashes = ['-', '–', '—'];
    assert(dashes@ =~= seq!['-', '–', '—']);
    let r2 = trimmed_start_in(&r1, &dashes);
    let rest = trimmed(&r2);
    Some((head, rest))
}

pub open spec fn log_entry(text: Seq<char>) -> LogV {
    match leading_date(text) {
        Some((date, rest)) => LogV { at: Some(date + "T00:00:00Z"@), body: rest },
        None => LogV { at: None, body: text },
    }
}

/// `- 2026-07-20 - M3 bulk-archive slice completed...` keeps its own date.
pub open spec fn log_entries(body: Seq<char>) -> Seq<LogV> {
    bullets(body).map_values(|t: Seq<char>| log_entry(t))
}

fn log_entries_of(body: &[char]) -> (r: Vec<ParsedLog>)
    ensures
        r@.map_values(|x: ParsedLog| x@) == log_entries(body@),
{
    let bs = bullets_of(body);
    let mut out: Vec<ParsedLog> = Vec::new();
    let mut i: usize = 0;
    while i < bs.len()
        invariant
            i <= bs@.len(),
            views(bs@) == bullets(body@),
            out@.len() == i,
            forall|k: int| 0 <= k < i ==> (#[trigger] out@[k])@ == log_entry(bullets(body@)[k]),
        decreases bs.len() - i,
    {
        assert(views(bs@)[i as int] == bs@[i as int]@);
        let text = &bs[i];
        let entry = match leading_date_of(text) {
            Some((date, rest)) => {
                let mut at = date;
                push_str(&mut at, "T00:00:00Z");
                ParsedLog { at: Some(string_of(&at)), body: string_of(&rest) }
            },
            None => ParsedLog { at: None, body: string_of(text) },
        };
        assert(entry@ == log_entry(bullets(body@)[i as int]));
        out.push(entry);
        i += 1;
    }
    assert(out@.map_values(|x: ParsedLog| x@) =~= log_entries(body@));
    out
}

// ---------------------------------------------------------------------------
// The preamble's fields
// ---------------------------------------------------------------------------

pub open spec fn is_url_end(c: char) -> bool {
    is_ws(c) || c == ')' || c == '>' || c == ']'
}

pub open spec fn url_end_from(t: Seq<char>, k: int) -> int
    decreases t.len() - k,
{
    if 0 <= k < t.len() && !is_url_end(t[k]) {
        url_end_from(t, k + 1)
    } else {
        k
    }
}

/// The first `http...` run, up to whitespace or a closing bracket.
pub open spec fn url_in(text: Seq<char>) -> Option<Seq<char>> {
    match find(text, "http"@) {
        Some(at) => {
            let tail = text.skip(at);
            Some(tail.take(url_end_from(tail, 0)))
        },
        None => None,
    }
}

fn url_in_of(text: &[char]) -> (r: Option<Vec<char>>)
    ensures
        r matches Some(u) ==> url_in(text@) == Some(u@),
        r is None ==> url_in(text@) is None,
{
    let p = chars_of("http");
    match find_in(text, &p) {
        Some(at) => {
            proof {
                lemma_find_from_bounds(text@, "http"@, 0);
            }
            let tail = slice_of(text, at, text.len());
            assert(tail@ =~= text@.skip(at as int));
            let mut k: usize = 0;
            while k < tail.len() && !(ws(tail[k]) || tail[k] == ')' || tail[k] == '>' || tail[k]
                == ']')
                invariant
                    k <= tail@.len(),
                    url_end_from(tail@, 0) == url_end_from(tail@, k as int),
                decreases tail.len() - k,
            {
                k += 1;
            }
            let u = slice_of(&tail, 0, k);
            assert(u@ =~= tail@.take(k as int));
            Some(u)
        },
        None => None,
    }
}

/// `**Label:** value` -> (`label`, `value`).
pub open spec fn field_line(line: Seq<char>) -> Option<(Seq<char>, Seq<char>)> {
    match strip_prefix(line, "**"@) {
        Some(rest) => match split_once(rest, ":**"@) {
            Some((label, value)) => Some((lowercase(trim(label)), trim(value))),
            None => None,
        },
        None => None,
    }
}

fn field_line_of(line: &[char]) -> (r: Option<(Vec<char>, Vec<char>)>)
    ensures
        r matches Some(x) ==> field_line(line@) == Some((x.0@, x.1@)),
        r is None ==> field_line(line@) is None,
{
    let rest = match strip_prefix_of(line, "**") {
        Some(r) => r,
        None => return None,
    };
    match split_once_of(&rest, ":**") {
        Some((label, value)) => {
            let l = trimmed(&label);
            Some((to_lowercase(&l), trimmed(&value)))
        },
        None => None,
    }
}

/// Where the value after a label starts in `text`: the label is found in the
/// lowercased text, and its byte offset there is used in the text as given.
pub open spec fn label_offset(text: Seq<char>, label: Seq<char>) -> Option<int> {
    let lower = lowercase(text);
    match find(lower, label) {
        Some(at) => Some((byte_len(lower.take(at)) + byte_len(label)) as int),
        None => None,
    }
}

/// The value after `label:` up to the end of the line or sentence.
pub open spec fn after_label(text: Seq<char>, label: Seq<char>) -> Option<Seq<char>> {
    match label_offset(text, label) {
        Some(b) => match index_at_byte(text, b) {
            Some(j) => {
                let tail = trim_start(text.skip(j));
                let end = match find_any(tail, seq!['\n', '.']) {
                    Some(e) => e,
                    None => tail.len() as int,
                };
                let value = trim(tail.take(end));
                if value.len() == 0 {
                    None
                } else {
                    Some(value)
                }
            },
            None => None,
        },
        None => None,
    }
}

fn after_label_of(text: &[char], label: &str) -> (r: Option<Vec<char>>)
    ensures
        (match r {
            Some(v) => Some(v@),
            None => None,
        }) == after_label(text@, label@),
{
    let lower = to_lowercase(text);
    let lv = chars_of(label);
    let at = match find_in(&lower, &lv) {
        Some(at) => at,
        None => return None,
    };
    proof {
        lemma_find_from_bounds(lower@, label@, 0);
        crate::text::lemma_byte_len_le(lower@.take(at as int));
        crate::text::lemma_byte_len_le(label@);
    }
    let b1 = crate::text::prefix_bytes(&lower, at);
    let b2 = crate::text::prefix_bytes(&lv, lv.len());
    assert(lv@.take(lv@.len() as int) =~= lv@);
    let b = b1 + b2;
    let j = match index_at_byte_of(text, b) {
        Some(j) => j,
        None => return None,
    };
    proof {
        lemma_index_at_byte_bounds(text@, b as int, 0);
    }
    let rest = slice_of(text, j, text.len());
    assert(rest@ =~= text@.skip(j as int));
    let tail = trimmed_start(&rest);
    let stops = ['\n', '.'];
    assert(stops@ =~= seq!['\n', '.']);
    let end = match find_any_at(&tail, &stops, 0) {
        Some(e) => {
            proof {
                lemma_find_any_bounds(tail@, stops@, 0);
            }
            e
        },
        None => tail.len(),
    };
    let head = slice_of(&tail, 0, end);
    assert(head@ =~= tail@.take(end as int));
    let value = trimmed(&head);
    if value.len() == 0 {
        None
    } else {
        Some(value)
    }
}


// ---------------------------------------------------------------------------
// The preamble: title, blockquote and `**Field:** value` lines
// ---------------------------------------------------------------------------

/// Scan from line `i` up to the first section heading, taking the first level-one
/// heading as the title. Yields where the sections start, the title and the lines of
/// the preamble.
pub open spec fn pre_scan(
    ls: Seq<Seq<char>>,
    i: int,
    fenced: bool,
    title: Seq<char>,
    pre: Seq<Seq<char>>,
) -> (int, Seq<char>, Seq<Seq<char>>)
    decreases ls.len() - i,
{
    if i < 0 || i >= ls.len() {
        (i, title, pre)
    } else {
        let f = if is_fence(ls[i]) {
            !fenced
        } else {
            fenced
        };
        if !f && heading_of(ls[i]) is Some {
            let level = block_level(heading_of(ls[i]));
            let text = block_text(heading_of(ls[i]));
            if level == 1 && title.len() == 0 {
                pre_scan(ls, i + 1, f, strip_markup(text), pre)
            } else {
                (i, title, pre)
            }
        } else {
            pre_scan(ls, i + 1, f, title, pre.push(ls[i]))
        }
    }
}

pub struct PreV {
    pub ticket_url: Option<Seq<char>>,
    pub ticket_key: Option<Seq<char>>,
    pub owner: Option<Seq<char>>,
    pub base: Option<Seq<char>>,
    pub quote: Seq<Seq<char>>,
}

pub open spec fn pre_field(st: PreV, label: Seq<char>, value: Seq<char>) -> PreV {
    if label == "ticket"@ {
        PreV { ticket_url: url_in(value), ticket_key: crate::util::ticket(value), ..st }
    } else if label == "owner"@ {
        PreV { owner: Some(strip_markup(value)), ..st }
    } else if label == "base branch"@ || label == "base"@ || label == "branch"@ {
        PreV { base: Some(trim_in(value, seq!['`'])), ..st }
    } else {
        st
    }
}

pub open spec fn pre_fields(ls: Seq<Seq<char>>, i: int, st: PreV) -> PreV
    decreases ls.len() - i,
{
    if i < 0 || i >= ls.len() {
        st
    } else {
        let t = trim(ls[i]);
        match strip_prefix(t, ">"@) {
            Some(rest) => pre_fields(ls, i + 1, PreV { quote: st.quote.push(trim(rest)), ..st }),
            None => match field_line(t) {
                Some((label, value)) => pre_fields(ls, i + 1, pre_field(st, label, value)),
                None => pre_fields(ls, i + 1, st),
            },
        }
    }
}

pub open spec fn pre_start() -> PreV {
    PreV { ticket_url: None, ticket_key: None, owner: None, base: None, quote: Seq::empty() }
}

pub open spec fn quote_text(st: PreV) -> Seq<char> {
    trim(join(st.quote, "\n"@))
}

/// The header fields: (summary, ticket key, ticket url, base branch, owner).
pub open spec fn preamble(title: Seq<char>, lines: Seq<Seq<char>>) -> (
    Option<Seq<char>>,
    Option<Seq<char>>,
    Option<Seq<char>>,
    Option<Seq<char>>,
    Option<Seq<char>>,
) {
    let st = pre_fields(lines, 0, pre_start());
    let text = quote_text(st);
    let owner = if st.quote.len() > 0 && st.owner is None {
        after_label(text, "owner:"@)
    } else {
        st.owner
    };
    let base = if st.quote.len() > 0 && st.base is None {
        match after_label(text, "base branch:"@) {
            Some(b) => Some(trim_in(b, seq!['`', '.', ','])),
            None => None,
        }
    } else {
        st.base
    };
    let summary = if st.quote.len() > 0 {
        Some(text)
    } else {
        None
    };
    let ticket_key = if st.ticket_key is None {
        crate::util::ticket(title)
    } else {
        st.ticket_key
    };
    (summary, ticket_key, st.ticket_url, base, owner)
}

/// Reading the blockquote's labels cuts the text at byte offsets found in its
/// lowercased form; that must land on character boundaries.
pub open spec fn ov(o: Option<Vec<char>>) -> Option<Seq<char>> {
    match o {
        Some(v) => Some(v@),
        None => None,
    }
}

fn pre_fields_of(ls: &Vec<Vec<char>>) -> (r: (
    Option<Vec<char>>,
    Option<Vec<char>>,
    Option<Vec<char>>,
    Option<Vec<char>>,
    Vec<Vec<char>>,
))
    ensures
        ({
            let st = pre_fields(views(ls@), 0, pre_start());
            &&& ov(r.0) == st.ticket_url
            &&& ov(r.1) == st.ticket_key
            &&& ov(r.2) == st.owner
            &&& ov(r.3) == st.base
            &&& views(r.4@) == st.quote
        }),
{
    let mut url: Option<Vec<char>> = None;
    let mut key: Option<Vec<char>> = None;
    let mut owner: Option<Vec<char>> = None;
    let mut base: Option<Vec<char>> = None;
    let mut quote: Vec<Vec<char>> = Vec::new();
    let mut i: usize = 0;
    assert(views(quote@) =~= Seq::<Seq<char>>::empty());
    while i < ls.len()
        invariant
            i <= ls@.len(),
            pre_fields(
                views(ls@),
                i as int,
                PreV {
                    ticket_url: ov(url),
                    ticket_key: ov(key),
                    owner: ov(owner),
                    base: ov(base),
                    quote: views(quote@),
                },
            ) == pre_fields(views(ls@), 0, pre_start()),
        decreases ls.len() - i,
    {
        assert(views(ls@)[i as int] == ls@[i as int]@);
        let t = trimmed(&ls[i]);
        match strip_prefix_of(&t, ">") {
            Some(rest) => {
                let q = trimmed(&rest);
                proof {
                    lemma_views_push(quote@, q);
                }
                quote.push(q);
            },
            None => match field_line_of(&t) {
                Some((label, value)) => {
                    if crate::model::is_word(&label, "ticket") {
                        url = url_in_of(&value);
                        let vs = string_of(&value);
                        key = match crate::util::ticket_key(vs.as_str()) {
                            Some(k) => Some(chars_of(k.as_str())),
                            None => None,
                        };
                    } else if crate::model::is_word(&label, "owner") {
                        owner = Some(strip_markup_of(&value));
                    } else if crate::model::is_word(&label, "base branch") || crate::model::is_word(
                        &label,
                        "base",
                    ) || crate::model::is_word(&label, "branch") {
                        let tick = ['`'];
                        assert(tick@ =~= seq!['`']);
                        base = Some(trimmed_in(&value, &tick));
                    }
                },
                None => {},
            },
        }
        i += 1;
    }
    (url, key, owner, base, quote)
}

fn opt_string(o: Option<Vec<char>>) -> (r: Option<String>)
    ensures
        opt_view(r) == ov(o),
{
    match o {
        Some(v) => Some(string_of(&v)),
        None => None,
    }
}

/// The header fields, or `None` where reading them would cut a character apart.
fn preamble_of(title: &[char], lines: &Vec<Vec<char>>) -> (r: (
    Option<String>,
    Option<String>,
    Option<String>,
    Option<String>,
    Option<String>,
))
    ensures
        (opt_view(r.0), opt_view(r.1), opt_view(r.2), opt_view(r.3), opt_view(
            r.4,
        )) == preamble(title@, views(lines@)),
{
    let (url, key, owner0, base0, quote) = pre_fields_of(lines);
    let jt = joined_str(&quote, "\n");
    let text = trimmed(&jt);
    let has_quote = quote.len() > 0;
    let owner = if has_quote && owner0.is_none() {
        after_label_of(&text, "owner:")
    } else {
        owner0
    };
    let base = if has_quote && base0.is_none() {
        match after_label_of(&text, "base branch:") {
            Some(b) => {
                let set = ['`', '.', ','];
                assert(set@ =~= seq!['`', '.', ',']);
                Some(trimmed_in(&b, &set))
            },
            None => None,
        }
    } else {
        base0
    };
    let summary = if has_quote {
        Some(string_of(&text))
    } else {
        None
    };
    let ticket = match key {
        Some(k) => Some(string_of(&k)),
        None => {
            let ts = string_of(title);
            crate::util::ticket_key(ts.as_str())
        },
    };
    (summary, ticket, opt_string(url), opt_string(base), opt_string(owner))
}

// ---------------------------------------------------------------------------
// Headed blocks
// ---------------------------------------------------------------------------

pub struct BlockV {
    pub level: nat,
    pub heading: HeadingV,
    /// The heading exactly as written: status markers and file estimates often sit in
    /// the part that splitting the key throws away.
    pub raw: Seq<char>,
    pub body: Seq<char>,
}

pub struct Block {
    pub level: usize,
    pub heading: Heading,
    pub raw: Vec<char>,
    pub body: Vec<char>,
}

pub open spec fn block_view(b: Block) -> BlockV {
    BlockV { level: b.level as nat, heading: heading_view(b.heading), raw: b.raw@, body: b.body@ }
}

pub open spec fn block_views(bs: Seq<Block>) -> Seq<BlockV> {
    bs.map_values(|b: Block| block_view(b))
}

pub open spec fn block_level(h: Option<(nat, Seq<char>)>) -> nat {
    match h {
        Some((level, _)) => level,
        None => 0,
    }
}

pub open spec fn block_text(h: Option<(nat, Seq<char>)>) -> Seq<char> {
    match h {
        Some((_, text)) => text,
        None => Seq::empty(),
    }
}

pub open spec fn with_line(b: BlockV, line: Seq<char>) -> BlockV {
    BlockV { body: b.body + line + "\n"@, ..b }
}

pub open spec fn blocks_acc(
    ls: Seq<Seq<char>>,
    i: int,
    blocks: Seq<BlockV>,
    fenced: bool,
    pending: Option<BlockV>,
) -> Seq<BlockV>
    decreases ls.len() - i,
{
    if i < 0 || i >= ls.len() {
        match pending {
            Some(b) => blocks.push(b),
            None => blocks,
        }
    } else {
        let line = ls[i];
        let f = if is_fence(line) {
            !fenced
        } else {
            fenced
        };
        let head = if f {
            None
        } else {
            heading_of(line)
        };
        if head is Some && block_level(head) <= 3 {
            let level = block_level(head);
            let text = block_text(head);
            let c = classify_heading(text);
            if level == 3 && c is Section && pending is Some {
                blocks_acc(ls, i + 1, blocks, f, Some(with_line(pending->0, line)))
            } else {
                blocks_acc(
                    ls,
                    i + 1,
                    match pending {
                        Some(b) => blocks.push(b),
                        None => blocks,
                    },
                    f,
                    Some(BlockV { level, heading: c, raw: text, body: Seq::empty() }),
                )
            }
        } else {
            blocks_acc(
                ls,
                i + 1,
                blocks,
                f,
                match pending {
                    Some(b) => Some(with_line(b, line)),
                    None => None,
                },
            )
        }
    }
}

/// The lines from `from` on, as a flat list of headed blocks. Level-three prose
/// headings stay inside the block above them.
pub open spec fn split_blocks(ls: Seq<Seq<char>>, from: int) -> Seq<BlockV> {
    blocks_acc(ls, from, Seq::empty(), false, None)
}

fn split_blocks_of(ls: &Vec<Vec<char>>, from: usize) -> (r: Vec<Block>)
    requires
        from <= ls@.len(),
    ensures
        block_views(r@) == split_blocks(views(ls@), from as int),
{
    let mut blocks: Vec<Block> = Vec::new();
    let mut fenced = false;
    let mut pending: Option<Block> = None;
    let mut i = from;
    assert(block_views(blocks@) =~= Seq::<BlockV>::empty());
    while i < ls.len()
        invariant
            from <= i <= ls@.len(),
            blocks_acc(
                views(ls@),
                i as int,
                block_views(blocks@),
                fenced,
                match pending {
                    Some(b) => Some(block_view(b)),
                    None => None,
                },
            ) == split_blocks(views(ls@), from as int),
        decreases ls.len() - i,
    {
        assert(views(ls@)[i as int] == ls@[i as int]@);
        let line = &ls[i];
        if fence(line) {
            fenced = !fenced;
        }
        let head = if fenced {
            None
        } else {
            heading(line)
        };
        let mut started = false;
        if let Some((level, text)) = head {
            if level <= 3 {
                let c = classify_heading_of(&text);
                let is_section = match c {
                    Heading::Section(_) => true,
                    _ => false,
                };
                if level == 3 && is_section && pending.is_some() {
                    let mut b = pending.unwrap();
                    let ghost bv = block_view(b);
                    push_all(&mut b.body, line);
                    b.body.push('\n');
                    proof {
                        reveal_strlit("\n");
                    }
                    assert(b.body@ =~= bv.body + line@ + "\n"@);
                    assert(block_view(b) == with_line(bv, line@));
                    pending = Some(b);
                } else {
                    match pending {
                        Some(b) => {
                            let ghost before = blocks@;
                            blocks.push(b);
                            assert(block_views(blocks@) =~= block_views(before).push(
                                block_view(b),
                            ));
                        },
                        None => {},
                    }
                    pending = Some(Block { level, heading: c, raw: text, body: Vec::new() });
                }
                started = true;
            }
        }
        if !started {
            match pending {
                Some(mut b) => {
                    let ghost bv = block_view(b);
                    push_all(&mut b.body, line);
                    b.body.push('\n');
                    proof {
                        reveal_strlit("\n");
                    }
                    assert(b.body@ =~= bv.body + line@ + "\n"@);
                    assert(block_view(b) == with_line(bv, line@));
                    pending = Some(b);
                },
                None => {},
            }
        }
        i += 1;
    }
    match pending {
        Some(b) => {
            let ghost before = blocks@;
            blocks.push(b);
            assert(block_views(blocks@) =~= block_views(before).push(block_view(b)));
        },
        None => {},
    }
    blocks
}


// ---------------------------------------------------------------------------
// Blocks into sections, decisions and slices
// ---------------------------------------------------------------------------

pub struct BodyV {
    pub sections: Seq<SectionV>,
    pub decisions: Seq<DecisionV>,
    pub slices: Seq<SliceV>,
    pub current: Option<Seq<char>>,
}

pub open spec fn sv_keys(ss: Seq<SectionV>) -> Seq<Seq<char>> {
    ss.map_values(|x: SectionV| x.key)
}

pub open spec fn first_key_from(ss: Seq<SectionV>, key: Seq<char>, j: int) -> Option<int>
    decreases ss.len() - j,
{
    if j < 0 || j >= ss.len() {
        None
    } else if ss[j].key == key {
        Some(j)
    } else {
        first_key_from(ss, key, j + 1)
    }
}

pub open spec fn hashes(n: nat) -> Seq<char> {
    Seq::new(n, |_i: int| '#')
}

/// A heading that turned out to be a duplicate key, kept as text in the section it
/// sits in so nothing is silently dropped.
pub open spec fn folded_body(body: Seq<char>, level: nat, heading: Seq<char>, text: Seq<char>) -> Seq<
    char,
> {
    trim(trim_end(body) + "\n\n"@ + hashes(level) + " "@ + heading + "\n\n"@ + trim(text))
}

pub open spec fn push_back(
    ss: Seq<SectionV>,
    current: Option<Seq<char>>,
    level: nat,
    heading: Seq<char>,
    text: Seq<char>,
) -> Seq<SectionV> {
    match current {
        None => ss,
        Some(key) => match first_key_from(ss, key, 0) {
            None => ss,
            Some(j) => ss.update(
                j,
                SectionV { body: folded_body(ss[j].body, level, heading, text), ..ss[j] },
            ),
        },
    }
}

pub open spec fn has_decision(ds: Seq<DecisionV>, key: Seq<char>) -> bool {
    exists|i: int| 0 <= i < ds.len() && (#[trigger] ds[i]).key == key
}

pub open spec fn has_slice(sl: Seq<SliceV>, key: Seq<char>) -> bool {
    exists|i: int| 0 <= i < sl.len() && (#[trigger] sl[i]).key == key
}

pub open spec fn new_slice(b: BlockV, key: Seq<char>, title: Seq<char>, current: Option<Seq<char>>) -> SliceV {
    let (scope, demo) = split_demo(b.body);
    SliceV {
        key,
        title: clean_slice_title(title),
        status: status_of_slice(b.raw, key, b.body),
        scope: trim(scope),
        demo,
        estimate_files: match file_estimate(b.raw) {
            Some(n) => Some(n),
            None => file_estimate(b.body),
        },
        section: current,
    }
}

pub open spec fn process(bs: Seq<BlockV>, i: int, st: BodyV) -> BodyV
    decreases bs.len() - i,
{
    if i < 0 || i >= bs.len() {
        st
    } else {
        let b = bs[i];
        match b.heading {
            HeadingV::Section(title) => {
                let key = section_key(title, sv_keys(st.sections));
                process(
                    bs,
                    i + 1,
                    BodyV {
                        sections: st.sections.push(
                            SectionV {
                                key,
                                title,
                                body: trim(b.body),
                                renders: classify_section(title),
                            },
                        ),
                        current: Some(key),
                        ..st
                    },
                )
            },
            HeadingV::Decision(key, title) => if has_decision(st.decisions, key) {
                process(
                    bs,
                    i + 1,
                    BodyV {
                        sections: push_back(
                            st.sections,
                            st.current,
                            b.level,
                            key + " - "@ + title,
                            b.body,
                        ),
                        ..st
                    },
                )
            } else {
                process(
                    bs,
                    i + 1,
                    BodyV {
                        decisions: st.decisions.push(
                            DecisionV { key, title, body: trim(b.body), section: st.current },
                        ),
                        ..st
                    },
                )
            },
            HeadingV::Slice(key, title) => if has_slice(st.slices, key) {
                process(
                    bs,
                    i + 1,
                    BodyV {
                        sections: push_back(
                            st.sections,
                            st.current,
                            b.level,
                            key + " - "@ + title,
                            b.body,
                        ),
                        ..st
                    },
                )
            } else {
                process(
                    bs,
                    i + 1,
                    BodyV { slices: st.slices.push(new_slice(b, key, title, st.current)), ..st },
                )
            },
        }
    }
}

pub open spec fn sviews(v: Seq<ParsedSection>) -> Seq<SectionV> {
    v.map_values(|x: ParsedSection| x@)
}

pub open spec fn dviews(v: Seq<ParsedDecision>) -> Seq<DecisionV> {
    v.map_values(|x: ParsedDecision| x@)
}

pub open spec fn slviews(v: Seq<ParsedSlice>) -> Seq<SliceV> {
    v.map_values(|x: ParsedSlice| x@)
}

fn first_key_of(ss: &Vec<ParsedSection>, key: &[char]) -> (r: Option<usize>)
    ensures
        r matches Some(j) ==> first_key_from(sviews(ss@), key@, 0) == Some(j as int) && j < ss@.len(),
        r is None ==> first_key_from(sviews(ss@), key@, 0) is None,
{
    let mut j: usize = 0;
    while j < ss.len()
        invariant
            j <= ss@.len(),
            first_key_from(sviews(ss@), key@, 0) == first_key_from(sviews(ss@), key@, j as int),
        decreases ss.len() - j,
    {
        let k = chars_of(ss[j].key.as_str());
        assert(sviews(ss@)[j as int].key == k@);
        if eq_chars(&k, key) {
            return Some(j);
        }
        j += 1;
    }
    None
}

fn push_back_of(
    ss: &mut Vec<ParsedSection>,
    current: &Option<Vec<char>>,
    level: usize,
    heading: &[char],
    text: &[char],
)
    ensures
        sviews(final(ss)@) == push_back(sviews(old(ss)@), ov(*current), level as nat, heading@, text@),
{
    let key = match current {
        Some(k) => k,
        None => return,
    };
    let j = match first_key_of(ss, key) {
        Some(j) => j,
        None => return,
    };
    let body = chars_of(ss[j].body.as_str());
    let mut out = trimmed_end(&body);
    push_str(&mut out, "\n\n");
    let mut h: usize = 0;
    let ghost start = out@;
    while h < level
        invariant
            h <= level,
            out@ == start + hashes(h as nat),
        decreases level - h,
    {
        out.push('#');
        assert(hashes((h + 1) as nat) =~= hashes(h as nat).push('#'));
        h += 1;
    }
    push_str(&mut out, " ");
    push_all(&mut out, heading);
    push_str(&mut out, "\n\n");
    let t = trimmed(text);
    push_all(&mut out, &t);
    let fin = trimmed(&out);
    let ghost before = ss@;
    let sec = ParsedSection {
        key: ss[j].key.clone(),
        title: ss[j].title.clone(),
        body: string_of(&fin),
        renders: ss[j].renders,
    };
    ss.set(j, sec);
    assert(sviews(ss@) =~= push_back(sviews(before), ov(*current), level as nat, heading@, text@));
}

fn has_decision_of(ds: &Vec<ParsedDecision>, key: &[char]) -> (r: bool)
    ensures
        r == has_decision(dviews(ds@), key@),
{
    let mut i: usize = 0;
    while i < ds.len()
        invariant
            i <= ds@.len(),
            forall|k: int| 0 <= k < i ==> (#[trigger] dviews(ds@)[k]).key != key@,
        decreases ds.len() - i,
    {
        let k = chars_of(ds[i].key.as_str());
        assert(dviews(ds@)[i as int].key == k@);
        if eq_chars(&k, key) {
            return true;
        }
        i += 1;
    }
    false
}

fn has_slice_of(sl: &Vec<ParsedSlice>, key: &[char]) -> (r: bool)
    ensures
        r == has_slice(slviews(sl@), key@),
{
    let mut i: usize = 0;
    while i < sl.len()
        invariant
            i <= sl@.len(),
            forall|k: int| 0 <= k < i ==> (#[trigger] slviews(sl@)[k]).key != key@,
        decreases sl.len() - i,
    {
        let k = chars_of(sl[i].key.as_str());
        assert(slviews(sl@)[i as int].key == k@);
        if eq_chars(&k, key) {
            return true;
        }
        i += 1;
    }
    false
}

fn new_slice_of(b: &Block, key: Vec<char>, title: Vec<char>, current: &Option<Vec<char>>) -> (r:
    ParsedSlice)
    ensures
        r@ == new_slice(block_view(*b), key@, title@, ov(*current)),
{
    let status = slice_status_of(&b.raw, &key, &b.body);
    let estimate_files = match file_estimate_of(&b.raw) {
        Some(n) => Some(n),
        None => file_estimate_of(&b.body),
    };
    let (scope, demo) = split_demo_of(&b.body);
    let sc = trimmed(&scope);
    let t = clean_slice_title_of(&title);
    let section = match current {
        Some(c) => Some(string_of(c)),
        None => None,
    };
    ParsedSlice {
        key: string_of(&key),
        title: string_of(&t),
        status,
        scope: string_of(&sc),
        demo: opt_string(demo),
        estimate_files,
        section,
    }
}

fn process_of(bs: Vec<Block>) -> (r: (Vec<ParsedSection>, Vec<ParsedDecision>, Vec<ParsedSlice>))
    ensures
        ({
            let st = process(
                block_views(bs@),
                0,
                BodyV {
                    sections: Seq::empty(),
                    decisions: Seq::empty(),
                    slices: Seq::empty(),
                    current: None,
                },
            );
            &&& sviews(r.0@) == st.sections
            &&& dviews(r.1@) == st.decisions
            &&& slviews(r.2@) == st.slices
        }),
{
    let mut sections: Vec<ParsedSection> = Vec::new();
    let mut decisions: Vec<ParsedDecision> = Vec::new();
    let mut slices: Vec<ParsedSlice> = Vec::new();
    let mut current: Option<Vec<char>> = None;
    let ghost bvs = block_views(bs@);
    let ghost goal = process(
        bvs,
        0,
        BodyV { sections: Seq::empty(), decisions: Seq::empty(), slices: Seq::empty(), current: None },
    );
    assert(sviews(sections@) =~= Seq::<SectionV>::empty());
    assert(dviews(decisions@) =~= Seq::<DecisionV>::empty());
    assert(slviews(slices@) =~= Seq::<SliceV>::empty());
    let mut i: usize = 0;
    while i < bs.len()
        invariant
            i <= bs@.len(),
            bvs == block_views(bs@),
            process(
                bvs,
                i as int,
                BodyV {
                    sections: sviews(sections@),
                    decisions: dviews(decisions@),
                    slices: slviews(slices@),
                    current: ov(current),
                },
            ) == goal,
        decreases bs.len() - i,
    {
        let b = &bs[i];
        assert(bvs[i as int] == block_view(*b));
        match &b.heading {
            Heading::Section(title) => {
                let key = section_key_of(title, &sections);
                proof {
                    assert(section_keys(sections@) =~= sv_keys(sviews(sections@)));
                }
                let renders = classify_section_of(title);
                let body = trimmed(&b.body);
                let ghost before = sections@;
                sections.push(
                    ParsedSection {
                        key: string_of(&key),
                        title: string_of(title),
                        body: string_of(&body),
                        renders,
                    },
                );
                assert(sviews(sections@) =~= sviews(before).push(
                    SectionV { key: key@, title: title@, body: trim(b.body@), renders },
                ));
                current = Some(key);
            },
            Heading::Decision(key, title) => {
                if has_decision_of(&decisions, key) {
                    let mut heading = crate::text::copy(key);
                    push_str(&mut heading, " - ");
                    push_all(&mut heading, title);
                    push_back_of(&mut sections, &current, b.level, &heading, &b.body);
                } else {
                    let body = trimmed(&b.body);
                    let section = match &current {
                        Some(c) => Some(string_of(c)),
                        None => None,
                    };
                    let ghost before = decisions@;
                    decisions.push(
                        ParsedDecision {
                            key: string_of(key),
                            title: string_of(title),
                            body: string_of(&body),
                            section,
                        },
                    );
                    assert(dviews(decisions@) =~= dviews(before).push(
                        DecisionV {
                            key: key@,
                            title: title@,
                            body: trim(b.body@),
                            section: ov(current),
                        },
                    ));
                }
            },
            Heading::Slice(key, title) => {
                if has_slice_of(&slices, key) {
                    let mut heading = crate::text::copy(key);
                    push_str(&mut heading, " - ");
                    push_all(&mut heading, title);
                    push_back_of(&mut sections, &current, b.level, &heading, &b.body);
                } else {
                    let sl = new_slice_of(b, crate::text::copy(key), crate::text::copy(title), &current);
                    let ghost before = slices@;
                    slices.push(sl);
                    assert(slviews(slices@) =~= slviews(before).push(sl@));
                }
            },
        }
        i += 1;
    }
    (sections, decisions, slices)
}

// ---------------------------------------------------------------------------
// Questions and the log become rows; host sections render what they host
// ---------------------------------------------------------------------------

pub open spec fn lift(
    ss: Seq<SectionV>,
    i: int,
    out: Seq<SectionV>,
    qs: Seq<Seq<char>>,
    log: Seq<LogV>,
) -> (Seq<SectionV>, Seq<Seq<char>>, Seq<LogV>)
    decreases ss.len() - i,
{
    if i < 0 || i >= ss.len() {
        (out, qs, log)
    } else {
        let s = ss[i];
        match s.renders {
            Renders::Questions => lift(
                ss,
                i + 1,
                out.push(SectionV { body: prose_before_bullets(s.body), ..s }),
                qs + bullets(s.body),
                log,
            ),
            Renders::Log => lift(
                ss,
                i + 1,
                out.push(SectionV { body: prose_before_bullets(s.body), ..s }),
                qs,
                log + log_entries(s.body),
            ),
            _ => lift(ss, i + 1, out.push(s), qs, log),
        }
    }
}

pub open spec fn first_slice_section(sl: Seq<SliceV>, i: int) -> Option<Seq<char>>
    decreases sl.len() - i,
{
    if i < 0 || i >= sl.len() {
        None
    } else if sl[i].section is Some {
        sl[i].section
    } else {
        first_slice_section(sl, i + 1)
    }
}

pub open spec fn first_decision_section(ds: Seq<DecisionV>, i: int) -> Option<Seq<char>>
    decreases ds.len() - i,
{
    if i < 0 || i >= ds.len() {
        None
    } else if ds[i].section is Some {
        ds[i].section
    } else {
        first_decision_section(ds, i + 1)
    }
}

/// The first section that hosts one renders them in place, unless it already
/// renders something.
pub open spec fn mark(ss: Seq<SectionV>, host: Option<Seq<char>>, r: Renders) -> Seq<SectionV> {
    match host {
        Some(k) => match first_key_from(ss, k, 0) {
            Some(j) => if ss[j].renders == Renders::Body {
                ss.update(j, SectionV { renders: r, ..ss[j] })
            } else {
                ss
            },
            None => ss,
        },
        None => ss,
    }
}

fn lift_of(ss: Vec<ParsedSection>) -> (r: (Vec<ParsedSection>, Vec<String>, Vec<ParsedLog>))
    ensures
        (sviews(r.0@), r.1@.map_values(|q: String| q@), r.2@.map_values(
            |l: ParsedLog| l@,
        )) == lift(sviews(ss@), 0, Seq::empty(), Seq::empty(), Seq::empty()),
{
    let mut out: Vec<ParsedSection> = Vec::new();
    let mut qs: Vec<String> = Vec::new();
    let mut log: Vec<ParsedLog> = Vec::new();
    let ghost svs = sviews(ss@);
    assert(sviews(out@) =~= Seq::<SectionV>::empty());
    assert(qs@.map_values(|q: String| q@) =~= Seq::<Seq<char>>::empty());
    assert(log@.map_values(|l: ParsedLog| l@) =~= Seq::<LogV>::empty());
    let mut i: usize = 0;
    while i < ss.len()
        invariant
            i <= ss@.len(),
            svs == sviews(ss@),
            lift(
                svs,
                i as int,
                sviews(out@),
                qs@.map_values(|q: String| q@),
                log@.map_values(|l: ParsedLog| l@),
            ) == lift(svs, 0, Seq::empty(), Seq::empty(), Seq::empty()),
        decreases ss.len() - i,
    {
        let s = &ss[i];
        assert(svs[i as int] == s@);
        let body = chars_of(s.body.as_str());
        match s.renders {
            Renders::Questions => {
                let bs = bullets_of(&body);
                let prose = prose_before_bullets_of(&body);
                let ghost qbefore = qs@;
                let mut k: usize = 0;
                while k < bs.len()
                    invariant
                        k <= bs@.len(),
                        qs@.map_values(|q: String| q@) == qbefore.map_values(|q: String| q@) + views(
                            bs@,
                        ).take(k as int),
                    decreases bs.len() - k,
                {
                    let ghost qb = qs@;
                    let q = string_of(&bs[k]);
                    assert(q@ == views(bs@)[k as int]);
                    qs.push(q);
                    proof {
                        assert(qs@.map_values(|q: String| q@) =~= qb.map_values(|q: String| q@).push(
                            q@,
                        ));
                        assert(views(bs@).take(k + 1) =~= views(bs@).take(k as int).push(
                            views(bs@)[k as int],
                        ));
                        assert(qs@.map_values(|q: String| q@) =~= qbefore.map_values(
                            |q: String| q@,
                        ) + views(bs@).take(k + 1));
                    }
                    k += 1;
                }
                assert(views(bs@).take(bs@.len() as int) =~= views(bs@));
                let ghost before = out@;
                out.push(
                    ParsedSection {
                        key: s.key.clone(),
                        title: s.title.clone(),
                        body: string_of(&prose),
                        renders: s.renders,
                    },
                );
                assert(sviews(out@) =~= sviews(before).push(
                    SectionV { body: prose_before_bullets(s.body@), ..s@ },
                ));
            },
            Renders::Log => {
                let entries = log_entries_of(&body);
                let prose = prose_before_bullets_of(&body);
                let ghost lbefore = log@;
                let mut entries = entries;
                let ghost ev = entries@.map_values(|l: ParsedLog| l@);
                log.append(&mut entries);
                assert(log@.map_values(|l: ParsedLog| l@) =~= lbefore.map_values(|l: ParsedLog| l@)
                    + ev);
                let ghost before = out@;
                out.push(
                    ParsedSection {
                        key: s.key.clone(),
                        title: s.title.clone(),
                        body: string_of(&prose),
                        renders: s.renders,
                    },
                );
                assert(sviews(out@) =~= sviews(before).push(
                    SectionV { body: prose_before_bullets(s.body@), ..s@ },
                ));
            },
            _ => {
                let ghost before = out@;
                out.push(
                    ParsedSection {
                        key: s.key.clone(),
                        title: s.title.clone(),
                        body: s.body.clone(),
                        renders: s.renders,
                    },
                );
                assert(sviews(out@) =~= sviews(before).push(s@));
            },
        }
        i += 1;
    }
    (out, qs, log)
}

fn mark_of(ss: &mut Vec<ParsedSection>, host: &Option<String>, r: Renders)
    ensures
        sviews(final(ss)@) == mark(sviews(old(ss)@), opt_view(*host), r),
{
    let k = match host {
        Some(k) => chars_of(k.as_str()),
        None => return,
    };
    match first_key_of(ss, &k) {
        Some(j) => {
            if ss[j].renders == Renders::Body {
                let ghost before = ss@;
                let sec = ParsedSection {
                    key: ss[j].key.clone(),
                    title: ss[j].title.clone(),
                    body: ss[j].body.clone(),
                    renders: r,
                };
                ss.set(j, sec);
                assert(sviews(ss@) =~= mark(sviews(before), opt_view(*host), r));
            }
        },
        None => {},
    }
}

fn first_slice_section_of(sl: &Vec<ParsedSlice>) -> (r: Option<String>)
    ensures
        opt_view(r) == first_slice_section(slviews(sl@), 0),
{
    let mut i: usize = 0;
    while i < sl.len()
        invariant
            i <= sl@.len(),
            first_slice_section(slviews(sl@), 0) == first_slice_section(slviews(sl@), i as int),
        decreases sl.len() - i,
    {
        assert(slviews(sl@)[i as int] == sl@[i as int]@);
        match &sl[i].section {
            Some(s) => {
                return Some(s.clone());
            },
            None => {},
        }
        i += 1;
    }
    None
}

fn first_decision_section_of(ds: &Vec<ParsedDecision>) -> (r: Option<String>)
    ensures
        opt_view(r) == first_decision_section(dviews(ds@), 0),
{
    let mut i: usize = 0;
    while i < ds.len()
        invariant
            i <= ds@.len(),
            first_decision_section(dviews(ds@), 0) == first_decision_section(dviews(ds@), i as int),
        decreases ds.len() - i,
    {
        assert(dviews(ds@)[i as int] == ds@[i as int]@);
        match &ds[i].section {
            Some(s) => {
                return Some(s.clone());
            },
            None => {},
        }
        i += 1;
    }
    None
}


fn pre_scan_of(ls: &Vec<Vec<char>>) -> (r: (usize, Vec<char>, Vec<Vec<char>>))
    ensures
        r.0 <= ls@.len(),
        (r.0 as int, r.1@, views(r.2@)) == pre_scan(
            views(ls@),
            0,
            false,
            Seq::empty(),
            Seq::empty(),
        ),
{
    let mut i: usize = 0;
    let mut fenced = false;
    let mut title: Vec<char> = Vec::new();
    let mut pre: Vec<Vec<char>> = Vec::new();
    assert(views(pre@) =~= Seq::<Seq<char>>::empty());
    assert(title@ =~= Seq::<char>::empty());
    while i < ls.len()
        invariant
            i <= ls@.len(),
            pre_scan(views(ls@), i as int, fenced, title@, views(pre@)) == pre_scan(
                views(ls@),
                0,
                false,
                Seq::empty(),
                Seq::empty(),
            ),
        decreases ls.len() - i,
    {
        let line = &ls[i];
        assert(views(ls@)[i as int] == line@);
        if fence(line) {
            fenced = !fenced;
        }
        if !fenced {
            match heading(line) {
                Some((level, text)) => {
                    if level == 1 && title.len() == 0 {
                        title = strip_markup_of(&text);
                        i += 1;
                        continue;
                    }
                    return (i, title, pre);
                },
                None => {},
            }
        }
        let l = copy(line);
        proof {
            lemma_views_push(pre@, l);
        }
        pre.push(l);
        i += 1;
    }
    (i, title, pre)
}

/// What reading a plan gives: the preamble's fields, then the headed blocks sorted
/// into sections, decisions and slices, with the questions and the log lifted out of
/// the sections that host them and the container sections marked.
pub open spec fn parse(md: Seq<char>) -> PlanV {
    let ls = lines(md);
    let scan = pre_scan(ls, 0, false, Seq::empty(), Seq::empty());
    let head = preamble(scan.1, scan.2);
    let body = process(
        split_blocks(ls, scan.0),
        0,
        BodyV { sections: Seq::empty(), decisions: Seq::empty(), slices: Seq::empty(), current: None },
    );
    let lifted = lift(body.sections, 0, Seq::empty(), Seq::empty(), Seq::empty());
    let marked = mark(
        mark(lifted.0, first_slice_section(body.slices, 0), Renders::Slices),
        first_decision_section(body.decisions, 0),
        Renders::Decisions,
    );
    PlanV {
        title: scan.1,
        summary: head.0,
        ticket_key: head.1,
        ticket_url: head.2,
        base_branch: head.3,
        owner: head.4,
        sections: marked,
        decisions: body.decisions,
        slices: body.slices,
        questions: lifted.1,
        gotchas: Seq::empty(),
        log: lifted.2,
    }
}

/// Reads a plan as it is written. Nothing is refused: text that fits no field is kept
/// where it stands.
pub fn parse_plan(md: &str) -> (r: ParsedPlan)
    ensures
        r@ == parse(md@),
{
    let cs = chars_of(md);
    let ls = lines_of(&cs);
    let (start, title, pre) = pre_scan_of(&ls);
    let (summary, ticket_key, ticket_url, base_branch, owner) = preamble_of(&title, &pre);
    let blocks = split_blocks_of(&ls, start);
    let (sections, decisions, slices) = process_of(blocks);
    let host_s = first_slice_section_of(&slices);
    let host_d = first_decision_section_of(&decisions);
    let (mut sections, questions, log) = lift_of(sections);
    mark_of(&mut sections, &host_s, Renders::Slices);
    mark_of(&mut sections, &host_d, Renders::Decisions);
    let gotchas: Vec<(String, String)> = Vec::new();
    let plan = ParsedPlan {
        title: string_of(&title),
        summary,
        ticket_key,
        ticket_url,
        base_branch,
        owner,
        sections,
        decisions,
        slices,
        questions,
        gotchas,
        log,
    };
    assert(plan@.gotchas =~= Seq::<(Seq<char>, Seq<char>)>::empty());
    assert(plan@.sections =~= sviews(plan.sections@));
    assert(plan@.decisions =~= dviews(plan.decisions@));
    assert(plan@.slices =~= slviews(plan.slices@));
    plan
}


} // verus!
