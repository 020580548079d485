//! Finding a plan by what it says: the units both indexes are built from, the text
//! the model sees for each, and the full-text query a typed phrase becomes.
use vstd::prelude::*;

use crate::model::Status;
use crate::text::{
    byte_len, chars_of, eq_chars, index_at_byte, is_alnum, is_ascii_char, join, joined_str, lemma_views_push, lowercase,
    push_all, push_str, string_of, to_lowercase, trim, trimmed, views, words, words_of,
};

verus! {

#[derive(Debug, Clone)]
pub struct SearchOptions {
    /// Rank hits in this repo above the rest rather than excluding others.
    pub prefer_repo: Option<i64>,
    /// Only this repo.
    pub only_repo: Option<i64>,
    pub statuses: Vec<Status>,
    pub limit: usize,
    /// Skip the semantic leg even when embeddings exist.
    pub lexical_only: bool,
}

impl Default for SearchOptions {
    fn default() -> (r: SearchOptions)
        ensures
            r.prefer_repo is None,
            r.only_repo is None,
            r.statuses@.len() == 0,
            r.limit == 0,
            !r.lexical_only,
    {
        SearchOptions {
            prefer_repo: None,
            only_repo: None,
            statuses: Vec::new(),
            limit: 0,
            lexical_only: false,
        }
    }
}

/// One addressable piece of a plan. Both indexes are built from these, so the lexical
/// and semantic legs can never disagree about what text belongs to what.
#[derive(Debug, Clone)]
pub struct IndexUnit {
    pub plan_id: i64,
    pub kind: &'static str,
    pub reference: String,
    pub title: String,
    pub body: String,
}

/// What the model sees: the title first, because a heading is the most informative
/// sentence a section has, then the first 220 words of the body.
pub open spec fn embed_text_of(title: Seq<char>, body: Seq<char>) -> Seq<char> {
    let ws = words(body);
    let head = if ws.len() > 220 {
        ws.take(220)
    } else {
        ws
    };
    let b = join(head, " "@);
    if trim(title).len() == 0 {
        b
    } else {
        trim(title) + ". "@ + b
    }
}

impl IndexUnit {
    pub fn embed_text(&self) -> (r: String)
        ensures
            r@ == embed_text_of(self.title@, self.body@),
    {
        let bv = chars_of(self.body.as_str());
        let ws = words_of(&bv);
        let mut head: Vec<Vec<char>> = Vec::new();
        assert(views(head@) =~= Seq::<Seq<char>>::empty());
        let mut i: usize = 0;
        while i < ws.len() && i < 220
            invariant
                i <= ws@.len(),
                i <= 220,
                views(head@) == views(ws@).take(i as int),
            decreases ws.len() - i,
        {
            let w = crate::text::copy(&ws[i]);
            proof {
                lemma_views_push(head@, w);
            }
            head.push(w);
            assert(views(ws@).take(i + 1) =~= views(ws@).take(i as int).push(views(ws@)[i as int]));
            i += 1;
        }
        assert(views(ws@).take(ws@.len() as int) =~= views(ws@));
        proof {
            let wv = words(self.body@);
            assert(views(ws@) == wv);
            if wv.len() > 220 {
                assert(i == 220);
                assert(views(head@) == wv.take(220));
            } else {
                assert(i == wv.len());
                assert(views(head@) == wv);
            }
        }
        let body = joined_str(&head, " ");
        let tv = chars_of(self.title.as_str());
        let tt = trimmed(&tv);
        if tt.len() == 0 {
            string_of(&body)
        } else {
            let mut out = tt;
            push_str(&mut out, ". ");
            push_all(&mut out, &body);
            string_of(&out)
        }
    }
}

#[derive(Debug, Clone, Copy)]
pub struct EmbedStats {
    pub embedded: usize,
    pub unchanged: usize,
    pub removed: usize,
}

impl Default for EmbedStats {
    fn default() -> (r: EmbedStats)
        ensures
            r.embedded == 0 && r.unchanged == 0 && r.removed == 0,
    {
        EmbedStats { embedded: 0, unchanged: 0, removed: 0 }
    }
}

/// Runs of whitespace become single spaces; the ends go.
pub open spec fn tidied(s: Seq<char>) -> Seq<char> {
    join(words(s), " "@)
}

pub fn tidy(s: &str) -> (r: String)
    ensures
        r@ == tidied(s@),
{
    let v = chars_of(s);
    let ws = words_of(&v);
    let j = joined_str(&ws, " ");
    string_of(&j)
}

// ---------------------------------------------------------------------------
// The full-text query
// ---------------------------------------------------------------------------

/// What `char::is_alphanumeric` says of a character.
pub uninterp spec fn char_alphanumeric(c: char) -> bool;

/// `char::is_alphanumeric`: alphabetic or numeric in Unicode's sense. A function of
/// the character alone; for ASCII it is `[A-Za-z0-9]`.
#[verifier::external_body]
fn alphanumeric(c: char) -> (r: bool)
    ensures
        r == char_alphanumeric(c),
        is_ascii_char(c) ==> (r == is_alnum(c)),
{
    c.is_alphanumeric()
}

/// A character that can belong to a search term.
pub open spec fn is_term_char(c: char) -> bool {
    char_alphanumeric(c) || c == '_'
}

pub open spec fn terms_acc(s: Seq<char>, i: int, cur: Seq<char>, acc: Seq<Seq<char>>) -> Seq<
    Seq<char>,
>
    decreases s.len() - i,
{
    if i < 0 || i >= s.len() {
        acc.push(cur)
    } else if !is_term_char(s[i]) {
        terms_acc(s, i + 1, Seq::empty(), acc.push(cur))
    } else {
        terms_acc(s, i + 1, cur.push(s[i]), acc)
    }
}

/// The pieces between characters that cannot belong to a term, empty ones included.
pub open spec fn term_pieces(s: Seq<char>) -> Seq<Seq<char>> {
    terms_acc(s, 0, Seq::empty(), Seq::empty())
}

/// Each piece longer than one byte, as a lowercase prefix term.
pub open spec fn query_terms(ps: Seq<Seq<char>>) -> Seq<Seq<char>>
    decreases ps.len(),
{
    if ps.len() == 0 {
        Seq::empty()
    } else if byte_len(ps.last()) > 1 {
        query_terms(ps.drop_last()).push("\""@ + lowercase(ps.last()) + "\"*"@)
    } else {
        query_terms(ps.drop_last())
    }
}

/// Every term is a prefix match and the terms are OR-ed, so a partly remembered
/// phrase still finds the plan; punctuation is dropped rather than breaking the query.
pub open spec fn match_query(q: Seq<char>) -> Seq<char> {
    join(query_terms(term_pieces(q)), " OR "@)
}

fn pieces_of(s: &[char]) -> (out: Vec<Vec<char>>)
    ensures
        views(out@) == term_pieces(s@),
{
    let mut out: Vec<Vec<char>> = Vec::new();
    let mut cur: Vec<char> = Vec::new();
    let mut i: usize = 0;
    assert(views(out@) =~= Seq::<Seq<char>>::empty());
    while i < s.len()
        invariant
            i <= s@.len(),
            terms_acc(s@, i as int, cur@, views(out@)) == term_pieces(s@),
        decreases s.len() - i,
    {
        let c = s[i];
        if !(alphanumeric(c) || c == '_') {
            proof {
                lemma_views_push(out@, cur);
            }
            out.push(cur);
            cur = Vec::new();
        } else {
            cur.push(c);
        }
        i += 1;
    }
    proof {
        lemma_views_push(out@, cur);
    }
    out.push(cur);
    out
}

pub fn to_match_query(query: &str) -> (r: String)
    ensures
        r@ == match_query(query@),
{
    let q = chars_of(query);
    let ps = pieces_of(&q);
    let mut terms: Vec<Vec<char>> = Vec::new();
    assert(views(terms@) =~= Seq::<Seq<char>>::empty());
    let mut i: usize = 0;
    while i < ps.len()
        invariant
            i <= ps@.len(),
            views(terms@) == query_terms(views(ps@).take(i as int)),
        decreases ps.len() - i,
    {
        assert(views(ps@).take(i + 1).drop_last() =~= views(ps@).take(i as int));
        assert(views(ps@)[i as int] == ps@[i as int]@);
        let p = &ps[i];
        proof {
            crate::text::lemma_byte_len_le(p@);
        }
        let nb = crate::text::prefix_bytes(p, p.len());
        assert(p@.take(p@.len() as int) =~= p@);
        if nb > 1 {
            let mut t: Vec<char> = Vec::new();
            push_str(&mut t, "\"");
            let low = to_lowercase(p);
            push_all(&mut t, &low);
            push_str(&mut t, "\"*");
            proof {
                lemma_views_push(terms@, t);
            }
            terms.push(t);
        }
        i += 1;
    }
    assert(views(ps@).take(ps@.len() as int) =~= views(ps@));
    let j = joined_str(&terms, " OR ");
    string_of(&j)
}

// ---------------------------------------------------------------------------
// Keeping the vectors current
// ---------------------------------------------------------------------------

/// Which unit a stored vector answers for: its plan, its kind and its reference.
#[derive(Debug, Clone)]
pub struct UnitKey {
    pub plan_id: i64,
    pub kind: String,
    pub reference: String,
}

/// A vector already stored for the current model: its row, its unit, and the
/// fingerprint of the text it was built from.
#[derive(Debug, Clone)]
pub struct Stored {
    pub id: i64,
    pub key: UnitKey,
    pub sha: String,
}

/// A unit whose vector is missing or was built from other text: where it is in the
/// list, the text to embed, its fingerprint, and the snippet shown with a hit.
#[derive(Debug, Clone)]
pub struct StaleUnit {
    pub unit: usize,
    pub text: String,
    pub sha: String,
    pub snippet: String,
}

/// What a pass over the units finds: the vectors to build, how many are current, and
/// every unit that has text (the ones a vector may answer for).
pub struct EmbedWork {
    pub stale: Vec<StaleUnit>,
    pub unchanged: usize,
    pub live: Vec<UnitKey>,
}

pub open spec fn unit_text(u: IndexUnit) -> Seq<char> {
    embed_text_of(u.title@, u.body@)
}

/// The fingerprint of a text: the hex SHA-256 of its UTF-8 bytes.
pub open spec fn fingerprint(t: Seq<char>) -> Seq<char> {
    crate::import::hex_of(crate::import::sha256_of(vstd::utf8::encode_utf8(t)))
}

pub open spec fn has_text(u: IndexUnit) -> bool {
    trim(unit_text(u)).len() > 0
}

pub open spec fn unit_key(u: IndexUnit) -> (i64, Seq<char>, Seq<char>) {
    (u.plan_id, u.kind@, u.reference@)
}

pub open spec fn key_view(k: UnitKey) -> (i64, Seq<char>, Seq<char>) {
    (k.plan_id, k.kind@, k.reference@)
}

/// What the store holds for a unit; with two rows for one unit the later one, as a
/// map collected from the rows keeps it.
pub open spec fn stored_sha(ex: Seq<Stored>, k: (i64, Seq<char>, Seq<char>)) -> Option<Seq<char>>
    decreases ex.len(),
{
    if ex.len() == 0 {
        None
    } else if key_view(ex.last().key) == k {
        Some(ex.last().sha@)
    } else {
        stored_sha(ex.drop_last(), k)
    }
}

/// The first 28 words of a text, single-spaced: what a hit shows.
pub open spec fn snippet_of(t: Seq<char>) -> Seq<char> {
    join(
        if words(t).len() > 28 {
            words(t).take(28)
        } else {
            words(t)
        },
        " "@,
    )
}

pub open spec fn is_current(u: IndexUnit, ex: Seq<Stored>) -> bool {
    stored_sha(ex, unit_key(u)) == Some(fingerprint(unit_text(u)))
}

/// The units with text, by key, in order.
pub open spec fn live_keys(us: Seq<IndexUnit>) -> Seq<(i64, Seq<char>, Seq<char>)>
    decreases us.len(),
{
    if us.len() == 0 {
        Seq::empty()
    } else if has_text(us.last()) {
        live_keys(us.drop_last()).push(unit_key(us.last()))
    } else {
        live_keys(us.drop_last())
    }
}

/// How many units with text already have a vector built from that text.
pub open spec fn unchanged_count(us: Seq<IndexUnit>, ex: Seq<Stored>) -> nat
    decreases us.len(),
{
    if us.len() == 0 {
        0
    } else {
        unchanged_count(us.drop_last(), ex) + if has_text(us.last()) && is_current(us.last(), ex) {
            1nat
        } else {
            0nat
        }
    }
}

/// The units with text whose vector is missing or stale: position, text, fingerprint
/// and snippet.
pub open spec fn stale_units(us: Seq<IndexUnit>, ex: Seq<Stored>) -> Seq<
    (int, Seq<char>, Seq<char>, Seq<char>),
>
    decreases us.len(),
{
    if us.len() == 0 {
        Seq::empty()
    } else if has_text(us.last()) && !is_current(us.last(), ex) {
        stale_units(us.drop_last(), ex).push(
            (
                us.len() - 1,
                unit_text(us.last()),
                fingerprint(unit_text(us.last())),
                snippet_of(unit_text(us.last())),
            ),
        )
    } else {
        stale_units(us.drop_last(), ex)
    }
}

pub open spec fn stale_view(s: StaleUnit) -> (int, Seq<char>, Seq<char>, Seq<char>) {
    (s.unit as int, s.text@, s.sha@, s.snippet@)
}

fn key_eq(a: &UnitKey, plan_id: i64, kind: &str, reference: &str) -> (r: bool)
    ensures
        r == (key_view(*a) == (plan_id, kind@, reference@)),
{
    if a.plan_id != plan_id {
        return false;
    }
    let ak = chars_of(a.kind.as_str());
    let bk = chars_of(kind);
    let ar = chars_of(a.reference.as_str());
    let br = chars_of(reference);
    crate::text::eq_chars(&ak, &bk) && crate::text::eq_chars(&ar, &br)
}

fn lookup_sha(ex: &Vec<Stored>, plan_id: i64, kind: &str, reference: &str) -> (r: Option<String>)
    ensures
        match r {
            Some(s) => stored_sha(ex@, (plan_id, kind@, reference@)) == Some(s@),
            None => stored_sha(ex@, (plan_id, kind@, reference@)) is None,
        },
{
    let ghost k = (plan_id, kind@, reference@);
    let mut found: Option<String> = None;
    let mut i: usize = 0;
    while i < ex.len()
        invariant
            i <= ex@.len(),
            k == (plan_id, kind@, reference@),
            match found {
                Some(s) => stored_sha(ex@.take(i as int), k) == Some(s@),
                None => stored_sha(ex@.take(i as int), k) is None,
            },
        decreases ex.len() - i,
    {
        assert(ex@.take(i + 1).drop_last() =~= ex@.take(i as int));
        assert(ex@.take(i + 1).last() == ex@[i as int]);
        if key_eq(&ex[i].key, plan_id, kind, reference) {
            found = Some(ex[i].sha.clone());
        }
        i += 1;
    }
    assert(ex@.take(ex@.len() as int) =~= ex@);
    found
}

fn snippet(t: &str) -> (r: String)
    ensures
        r@ == snippet_of(t@),
{
    let v = chars_of(t);
    let ws = words_of(&v);
    let mut head: Vec<Vec<char>> = Vec::new();
    assert(views(head@) =~= Seq::<Seq<char>>::empty());
    let mut i: usize = 0;
    while i < ws.len() && i < 28
        invariant
            i <= ws@.len(),
            i <= 28,
            views(head@) == views(ws@).take(i as int),
        decreases ws.len() - i,
    {
        let w = crate::text::copy(&ws[i]);
        proof {
            lemma_views_push(head@, w);
        }
        head.push(w);
        assert(views(ws@).take(i + 1) =~= views(ws@).take(i as int).push(views(ws@)[i as int]));
        i += 1;
    }
    proof {
        let wv = words(t@);
        assert(views(ws@) == wv);
        if wv.len() > 28 {
            assert(views(head@) == wv.take(28));
        } else {
            assert(wv.take(wv.len() as int) =~= wv);
        }
    }
    let j = joined_str(&head, " ");
    string_of(&j)
}

pub open spec fn stale_views(ss: Seq<StaleUnit>) -> Seq<(int, Seq<char>, Seq<char>, Seq<char>)> {
    ss.map_values(|s: StaleUnit| stale_view(s))
}

pub open spec fn key_views(ks: Seq<UnitKey>) -> Seq<(i64, Seq<char>, Seq<char>)> {
    ks.map_values(|k: UnitKey| key_view(k))
}

/// One pass over the units against what the store holds for the current model: which
/// vectors to build, how many are current, and which units have text at all. A unit
/// with only whitespace to embed has no vector.
pub fn plan_embedding(units: &Vec<IndexUnit>, existing: &Vec<Stored>) -> (r: EmbedWork)
    ensures
        stale_views(r.stale@) == stale_units(units@, existing@),
        r.unchanged == unchanged_count(units@, existing@),
        key_views(r.live@) == live_keys(units@),
{
    let mut stale: Vec<StaleUnit> = Vec::new();
    let mut unchanged: usize = 0;
    let mut live: Vec<UnitKey> = Vec::new();
    let mut i: usize = 0;
    while i < units.len()
        invariant
            i <= units@.len(),
            stale_views(stale@) == stale_units(units@.take(i as int), existing@),
            unchanged == unchanged_count(units@.take(i as int), existing@),
            unchanged <= i,
            key_views(live@) == live_keys(units@.take(i as int)),
        decreases units.len() - i,
    {
        let ghost us = units@.take(i + 1);
        assert(us.drop_last() =~= units@.take(i as int));
        assert(us.last() == units@[i as int]);
        assert(us.len() - 1 == i);
        let u = &units[i];
        let text = u.embed_text();
        let tv = chars_of(text.as_str());
        if trimmed(&tv).len() > 0 {
            let sha = crate::import::sha256(text.as_str().as_bytes());
            let key = UnitKey { plan_id: u.plan_id, kind: u.kind.to_string(), reference: u.reference.clone() };
            let ghost before_live = key_views(live@);
            live.push(key);
            assert(key_views(live@) =~= before_live.push(unit_key(*u)));
            let current = match lookup_sha(existing, u.plan_id, u.kind, u.reference.as_str()) {
                Some(seen) => {
                    let a = chars_of(seen.as_str());
                    let b = chars_of(sha.as_str());
                    crate::text::eq_chars(&a, &b)
                },
                None => false,
            };
            if current {
                unchanged += 1;
            } else {
                let sn = snippet(text.as_str());
                let ghost before_stale = stale_views(stale@);
                stale.push(StaleUnit { unit: i, text, sha, snippet: sn });
                assert(stale_views(stale@) =~= before_stale.push(stale_view(stale@.last())));
            }
        }
        i += 1;
    }
    assert(units@.take(units@.len() as int) =~= units@);
    EmbedWork { stale, unchanged, live }
}

pub open spec fn is_live(live: Seq<(i64, Seq<char>, Seq<char>)>, k: (i64, Seq<char>, Seq<char>)) -> bool {
    live.contains(k)
}

/// The stored rows no unit answers for any more, by row id, in order.
pub open spec fn orphan_ids(rows: Seq<Stored>, live: Seq<(i64, Seq<char>, Seq<char>)>) -> Seq<i64>
    decreases rows.len(),
{
    if rows.len() == 0 {
        Seq::empty()
    } else if !is_live(live, key_view(rows.last().key)) {
        orphan_ids(rows.drop_last(), live).push(rows.last().id)
    } else {
        orphan_ids(rows.drop_last(), live)
    }
}

fn in_live(live: &Vec<UnitKey>, k: &UnitKey) -> (r: bool)
    ensures
        r == is_live(key_views(live@), key_view(*k)),
{
    let mut i: usize = 0;
    while i < live.len()
        invariant
            i <= live@.len(),
            forall|j: int| 0 <= j < i ==> key_view(#[trigger] live@[j]) != key_view(*k),
        decreases live.len() - i,
    {
        if key_eq(&live[i], k.plan_id, k.kind.as_str(), k.reference.as_str()) {
            assert(key_views(live@)[i as int] == key_view(*k));
            return true;
        }
        i += 1;
    }
    proof {
        if key_views(live@).contains(key_view(*k)) {
            let j = choose|j: int| 0 <= j < key_views(live@).len() && key_views(live@)[j] == key_view(*k);
            assert(key_view(live@[j]) == key_view(*k));
        }
    }
    false
}

/// Vectors for text that no longer exists: left in place, the index would answer with
/// sections that were deleted.
pub fn orphans(rows: &Vec<Stored>, live: &Vec<UnitKey>) -> (r: Vec<i64>)
    ensures
        r@ == orphan_ids(rows@, key_views(live@)),
{
    let mut out: Vec<i64> = Vec::new();
    let mut i: usize = 0;
    while i < rows.len()
        invariant
            i <= rows@.len(),
            out@ == orphan_ids(rows@.take(i as int), key_views(live@)),
        decreases rows.len() - i,
    {
        assert(rows@.take(i + 1).drop_last() =~= rows@.take(i as int));
        if !in_live(live, &rows[i].key) {
            out.push(rows[i].id);
        }
        i += 1;
    }
    assert(rows@.take(rows@.len() as int) =~= rows@);
    out
}

/// Every unit with text is accounted for exactly once by a pass: either its vector is
/// current or it is queued to be built.
pub proof fn law_every_unit_with_text_is_current_or_queued(us: Seq<IndexUnit>, ex: Seq<Stored>)
    ensures
        unchanged_count(us, ex) + stale_units(us, ex).len() == live_keys(us).len(),
    decreases us.len(),
{
    if us.len() > 0 {
        law_every_unit_with_text_is_current_or_queued(us.drop_last(), ex);
    }
}

/// The fingerprint a pass queues for key `k`, if it queues one.
pub open spec fn queued_sha(us: Seq<IndexUnit>, ex: Seq<Stored>, k: (i64, Seq<char>, Seq<char>)) -> Option<Seq<char>>
    decreases us.len(),
{
    if us.len() == 0 {
        None
    } else if has_text(us.last()) && !is_current(us.last(), ex) && unit_key(us.last()) == k {
        Some(fingerprint(unit_text(us.last())))
    } else {
        queued_sha(us.drop_last(), ex, k)
    }
}

/// `second` is `first` with the vectors a pass over `us` queued written in.
pub open spec fn written(us: Seq<IndexUnit>, first: Seq<Stored>, second: Seq<Stored>) -> bool {
    forall|k: (i64, Seq<char>, Seq<char>)|
        #[trigger] stored_sha(second, k) == match queued_sha(us, first, k) {
            Some(f) => Some(f),
            None => stored_sha(first, k),
        }
}

/// No two units with text share a key.
pub open spec fn distinct_live_keys(us: Seq<IndexUnit>) -> bool {
    forall|i: int, j: int|
        0 <= i < j < us.len() && has_text(us[i]) && has_text(us[j]) ==> unit_key(#[trigger] us[i])
            != unit_key(#[trigger] us[j])
}

proof fn lemma_nothing_queued(us: Seq<IndexUnit>, ex: Seq<Stored>, k: (i64, Seq<char>, Seq<char>))
    requires
        forall|j: int| 0 <= j < us.len() && has_text(us[j]) ==> unit_key(#[trigger] us[j]) != k,
    ensures
        queued_sha(us, ex, k) is None,
    decreases us.len(),
{
    if us.len() > 0 {
        let d = us.drop_last();
        assert forall|j: int| 0 <= j < d.len() && has_text(d[j]) implies unit_key(#[trigger] d[j]) != k by {
            assert(d[j] == us[j]);
        }
        lemma_nothing_queued(d, ex, k);
    }
}

proof fn lemma_queued_for(us: Seq<IndexUnit>, ex: Seq<Stored>, i: int)
    requires
        distinct_live_keys(us),
        0 <= i < us.len(),
        has_text(us[i]),
    ensures
        queued_sha(us, ex, unit_key(us[i])) == if is_current(us[i], ex) {
            None::<Seq<char>>
        } else {
            Some(fingerprint(unit_text(us[i])))
        },
    decreases us.len(),
{
    let d = us.drop_last();
    let k = unit_key(us[i]);
    if i == us.len() - 1 {
        assert forall|j: int| 0 <= j < d.len() && has_text(d[j]) implies unit_key(#[trigger] d[j]) != k by {
            assert(d[j] == us[j]);
        }
        lemma_nothing_queued(d, ex, k);
    } else {
        assert(d[i] == us[i]);
        assert(distinct_live_keys(d)) by {
            assert forall|a: int, b: int|
                0 <= a < b < d.len() && has_text(d[a]) && has_text(d[b]) implies unit_key(#[trigger] d[a])
                != unit_key(#[trigger] d[b]) by {
                assert(d[a] == us[a] && d[b] == us[b]);
            }
        }
        lemma_queued_for(d, ex, i);
        if has_text(us.last()) {
            assert(unit_key(us[i]) != unit_key(us[us.len() - 1]));
        }
    }
}

proof fn lemma_all_current(us: Seq<IndexUnit>, ex: Seq<Stored>)
    requires
        forall|i: int| 0 <= i < us.len() && has_text(us[i]) ==> is_current(#[trigger] us[i], ex),
    ensures
        stale_units(us, ex).len() == 0,
        unchanged_count(us, ex) == live_keys(us).len(),
    decreases us.len(),
{
    if us.len() > 0 {
        let d = us.drop_last();
        assert forall|i: int| 0 <= i < d.len() && has_text(d[i]) implies is_current(#[trigger] d[i], ex) by {
            assert(d[i] == us[i]);
        }
        lemma_all_current(d, ex);
        if has_text(us.last()) {
            assert(is_current(us[us.len() - 1], ex));
        }
    }
}

/// What a pass leaves in the store: each row is one of `first` that a unit with text
/// still answers for (the orphans are removed), or one written for a vector the pass
/// queued.
pub open spec fn pruned(us: Seq<IndexUnit>, first: Seq<Stored>, second: Seq<Stored>) -> bool {
    forall|i: int|
        0 <= i < second.len() ==> {
            ||| (first.contains(#[trigger] second[i]) && is_live(live_keys(us), key_view(second[i].key)))
            ||| queued_sha(us, first, key_view(second[i].key)) is Some
        }
}

proof fn lemma_queued_is_live(us: Seq<IndexUnit>, ex: Seq<Stored>, k: (i64, Seq<char>, Seq<char>))
    requires
        queued_sha(us, ex, k) is Some,
    ensures
        is_live(live_keys(us), k),
    decreases us.len(),
{
    let d = us.drop_last();
    if has_text(us.last()) && !is_current(us.last(), ex) && unit_key(us.last()) == k {
        assert(live_keys(us) == live_keys(d).push(k));
        assert(live_keys(us)[live_keys(d).len() as int] == k);
    } else {
        lemma_queued_is_live(d, ex, k);
        let j = choose|j: int| 0 <= j < live_keys(d).len() && live_keys(d)[j] == k;
        if has_text(us.last()) {
            assert(live_keys(us)[j] == live_keys(d)[j]);
        }
    }
}

proof fn lemma_no_orphans(rows: Seq<Stored>, live: Seq<(i64, Seq<char>, Seq<char>)>)
    requires
        forall|i: int| 0 <= i < rows.len() ==> is_live(live, key_view(#[trigger] rows[i].key)),
    ensures
        orphan_ids(rows, live).len() == 0,
    decreases rows.len(),
{
    if rows.len() > 0 {
        let d = rows.drop_last();
        assert forall|i: int| 0 <= i < d.len() implies is_live(live, key_view(#[trigger] d[i].key)) by {
            assert(d[i] == rows[i]);
        }
        lemma_no_orphans(d, live);
        assert(is_live(live, key_view(rows[rows.len() - 1].key)));
    }
}

/// A second pass finds everything current and nothing to remove: once a pass has
/// removed its orphans and its queued vectors are written, the next pass over the same
/// units queues nothing, counts every unit with text as current, and finds no orphan.
/// Units with text must not share a key (two notes on one day are two units, with two
/// keys).
pub proof fn law_a_second_pass_finds_everything_current(us: Seq<IndexUnit>, first: Seq<Stored>, second: Seq<Stored>)
    requires
        distinct_live_keys(us),
        written(us, first, second),
        pruned(us, first, second),
    ensures
        stale_units(us, second).len() == 0,
        unchanged_count(us, second) == live_keys(us).len(),
        orphan_ids(second, live_keys(us)).len() == 0,
{
    assert forall|i: int| 0 <= i < second.len() implies is_live(live_keys(us), key_view(#[trigger] second[i].key)) by {
        if !(first.contains(second[i]) && is_live(live_keys(us), key_view(second[i].key))) {
            lemma_queued_is_live(us, first, key_view(second[i].key));
        }
    }
    lemma_no_orphans(second, live_keys(us));
    assert forall|i: int| 0 <= i < us.len() && has_text(us[i]) implies is_current(#[trigger] us[i], second) by {
        lemma_queued_for(us, first, i);
        assert(stored_sha(second, unit_key(us[i])) == match queued_sha(us, first, unit_key(us[i])) {
            Some(f) => Some(f),
            None => stored_sha(first, unit_key(us[i])),
        });
    }
    lemma_all_current(us, second);
}

// ---------------------------------------------------------------------------
// Fusing the two legs
// ---------------------------------------------------------------------------

/// A row one of the two indexes answered with.
#[derive(Debug, Clone)]
pub struct Row {
    pub plan_id: i64,
    pub kind: String,
    pub reference: String,
    /// What to show for `reference` when the reference itself is an id.
    pub label: String,
    pub snippet: String,
}

/// A unit either leg found, with its position in each leg that found it.
#[derive(Debug, Clone)]
pub struct Candidate {
    pub row: Row,
    pub lexical_rank: Option<usize>,
    pub semantic_rank: Option<usize>,
}

pub open spec fn row_key(r: Row) -> (i64, Seq<char>, Seq<char>) {
    (r.plan_id, r.kind@, r.reference@)
}

pub open spec fn same_row(a: Row, b: Row) -> bool {
    a.plan_id == b.plan_id && a.kind@ == b.kind@ && a.reference@ == b.reference@ && a.label@
        == b.label@ && a.snippet@ == b.snippet@
}

/// Where a unit last appears in a leg's ranking.
pub open spec fn last_rank(rows: Seq<Row>, k: (i64, Seq<char>, Seq<char>)) -> Option<int>
    decreases rows.len(),
{
    if rows.len() == 0 {
        None
    } else if row_key(rows.last()) == k {
        Some(rows.len() - 1)
    } else {
        last_rank(rows.drop_last(), k)
    }
}

/// Where a unit first appears.
pub open spec fn first_rank(rows: Seq<Row>, k: (i64, Seq<char>, Seq<char>)) -> Option<int>
    decreases rows.len(),
{
    if rows.len() == 0 {
        None
    } else {
        match first_rank(rows.drop_last(), k) {
            Some(i) => Some(i),
            None => if row_key(rows.last()) == k {
                Some(rows.len() - 1)
            } else {
                None
            },
        }
    }
}

pub open spec fn opt_usize(o: Option<usize>) -> Option<int> {
    match o {
        Some(i) => Some(i as int),
        None => None,
    }
}

/// A candidate as the two rankings determine it: the first row either leg gave for
/// its unit (lexical first), and the unit's last position in each leg.
pub open spec fn candidate_for(c: Candidate, lexical: Seq<Row>, semantic: Seq<Row>) -> bool {
    let k = row_key(c.row);
    &&& match first_rank(lexical + semantic, k) {
        Some(i) => same_row(c.row, (lexical + semantic)[i]),
        None => false,
    }
    &&& opt_usize(c.lexical_rank) == last_rank(lexical, k)
    &&& opt_usize(c.semantic_rank) == last_rank(semantic, k)
}

proof fn lemma_first_rank_bounds(rows: Seq<Row>, k: (i64, Seq<char>, Seq<char>))
    ensures
        match first_rank(rows, k) {
            Some(i) => 0 <= i < rows.len() && row_key(rows[i]) == k,
            None => forall|j: int| 0 <= j < rows.len() ==> row_key(#[trigger] rows[j]) != k,
        },
    decreases rows.len(),
{
    if rows.len() > 0 {
        lemma_first_rank_bounds(rows.drop_last(), k);
        assert(forall|j: int| 0 <= j < rows.len() - 1 ==> rows.drop_last()[j] == rows[j]);
    }
}

proof fn lemma_first_rank_push(rows: Seq<Row>, r: Row, k: (i64, Seq<char>, Seq<char>))
    ensures
        first_rank(rows.push(r), k) == match first_rank(rows, k) {
            Some(i) => Some(i),
            None => if row_key(r) == k {
                Some(rows.len() as int)
            } else {
                None
            },
        },
{
    assert(rows.push(r).drop_last() =~= rows);
}

proof fn lemma_last_rank_push(rows: Seq<Row>, r: Row, k: (i64, Seq<char>, Seq<char>))
    ensures
        last_rank(rows.push(r), k) == if row_key(r) == k {
            Some(rows.len() as int)
        } else {
            last_rank(rows, k)
        },
{
    assert(rows.push(r).drop_last() =~= rows);
}

fn row_eq_key(a: &Row, b: &Row) -> (r: bool)
    ensures
        r == (row_key(*a) == row_key(*b)),
{
    if a.plan_id != b.plan_id {
        return false;
    }
    let ak = chars_of(a.kind.as_str());
    let bk = chars_of(b.kind.as_str());
    let ar = chars_of(a.reference.as_str());
    let br = chars_of(b.reference.as_str());
    crate::text::eq_chars(&ak, &bk) && crate::text::eq_chars(&ar, &br)
}

fn copy_row(r: &Row) -> (c: Row)
    ensures
        same_row(c, *r),
        row_key(c) == row_key(*r),
{
    Row {
        plan_id: r.plan_id,
        kind: r.kind.clone(),
        reference: r.reference.clone(),
        label: r.label.clone(),
        snippet: r.snippet.clone(),
    }
}

fn find_candidate(cs: &Vec<Candidate>, r: &Row) -> (j: Option<usize>)
    ensures
        match j {
            Some(j) => j < cs@.len() && row_key(cs@[j as int].row) == row_key(*r),
            None => forall|i: int| 0 <= i < cs@.len() ==> row_key(#[trigger] cs@[i].row) != row_key(*r),
        },
{
    let mut i: usize = 0;
    while i < cs.len()
        invariant
            i <= cs@.len(),
            forall|x: int| 0 <= x < i ==> row_key(#[trigger] cs@[x].row) != row_key(*r),
        decreases cs.len() - i,
    {
        if row_eq_key(&cs[i].row, r) {
            return Some(i);
        }
        i += 1;
    }
    None
}

pub open spec fn distinct_units(cs: Seq<Candidate>) -> bool {
    forall|a: int, b: int|
        0 <= a < cs.len() && 0 <= b < cs.len() && a != b ==> row_key(#[trigger] cs[a].row) != row_key(
            #[trigger] cs[b].row,
        )
}

pub open spec fn has_unit(cs: Seq<Candidate>, k: (i64, Seq<char>, Seq<char>)) -> bool {
    exists|j: int| 0 <= j < cs.len() && row_key(#[trigger] cs[j].row) == k
}

/// Every unit a leg returned has its candidate.
pub open spec fn covers(cs: Seq<Candidate>, rows: Seq<Row>) -> bool {
    forall|i: int| 0 <= i < rows.len() ==> has_unit(cs, row_key(#[trigger] rows[i]))
}

/// What the candidates are after reading `lexical` and then `semantic`.
pub open spec fn fused(cs: Seq<Candidate>, lexical: Seq<Row>, semantic: Seq<Row>) -> bool {
    &&& distinct_units(cs)
    &&& covers(cs, lexical + semantic)
    &&& forall|j: int| 0 <= j < cs.len() ==> candidate_for(#[trigger] cs[j], lexical, semantic)
}

proof fn lemma_last_rank_bounds(rows: Seq<Row>, k: (i64, Seq<char>, Seq<char>))
    ensures
        match last_rank(rows, k) {
            Some(i) => 0 <= i < rows.len() && row_key(rows[i]) == k,
            None => forall|j: int| 0 <= j < rows.len() ==> row_key(#[trigger] rows[j]) != k,
        },
    decreases rows.len(),
{
    if rows.len() > 0 {
        lemma_last_rank_bounds(rows.drop_last(), k);
        assert(forall|j: int| 0 <= j < rows.len() - 1 ==> rows.drop_last()[j] == rows[j]);
    }
}

/// Reads one more row from a leg: `r` at `rank`, from the lexical leg when `lexical`
/// is set (which comes entirely first), else from the semantic one.
fn absorb(
    cs: &mut Vec<Candidate>,
    Ghost(lex): Ghost<Seq<Row>>,
    Ghost(sem): Ghost<Seq<Row>>,
    r: &Row,
    rank: usize,
    from_lexical: bool,
)
    requires
        fused(old(cs)@, lex, sem),
        from_lexical ==> sem.len() == 0 && rank == lex.len(),
        !from_lexical ==> rank == sem.len(),
    ensures
        from_lexical ==> fused(final(cs)@, lex.push(*r), sem),
        !from_lexical ==> fused(final(cs)@, lex, sem.push(*r)),
{
    let ghost all = lex + sem;
    let ghost lex2 = if from_lexical {
        lex.push(*r)
    } else {
        lex
    };
    let ghost sem2 = if from_lexical {
        sem
    } else {
        sem.push(*r)
    };
    let ghost k = row_key(*r);
    assert(lex2 + sem2 =~= all.push(*r));
    proof {
        assert forall|q: (i64, Seq<char>, Seq<char>)| true implies {
            &&& first_rank(all.push(*r), q) == match first_rank(all, q) {
                Some(x) => Some(x),
                None => if k == q {
                    Some(all.len() as int)
                } else {
                    None
                },
            }
            &&& last_rank(lex2, q) == if from_lexical && k == q {
                Some(lex.len() as int)
            } else {
                last_rank(lex, q)
            }
            &&& last_rank(sem2, q) == if !from_lexical && k == q {
                Some(sem.len() as int)
            } else {
                last_rank(sem, q)
            }
        } by {
            lemma_first_rank_push(all, *r, q);
            lemma_last_rank_push(lex, *r, q);
            lemma_last_rank_push(sem, *r, q);
        }
    }
    let ghost before = cs@;
    match find_candidate(cs, r) {
        Some(j) => {
            let old_c = &cs[j];
            let c = if from_lexical {
                Candidate { row: copy_row(&old_c.row), lexical_rank: Some(rank), semantic_rank: old_c.semantic_rank }
            } else {
                Candidate { row: copy_row(&old_c.row), lexical_rank: old_c.lexical_rank, semantic_rank: Some(rank) }
            };
            cs.set(j, c);
            proof {
                assert forall|x: int| 0 <= x < cs@.len() implies candidate_for(#[trigger] cs@[x], lex2, sem2) by {
                    let b = before[x];
                    assert(candidate_for(b, lex, sem));
                    let q = row_key(b.row);
                    lemma_first_rank_bounds(all, q);
                    match first_rank(all, q) {
                        Some(y) => {
                            assert(all.push(*r)[y] == all[y]);
                            assert((lex2 + sem2)[y] == all[y]);
                        },
                        None => {},
                    }
                }
                assert forall|x: int| 0 <= x < (lex2 + sem2).len() implies has_unit(cs@, row_key(#[trigger] (lex2 + sem2)[x])) by {
                    if x < all.len() {
                        assert((lex2 + sem2)[x] == all[x]);
                        assert(has_unit(before, row_key(all[x])));
                        let w = choose|w: int| 0 <= w < before.len() && row_key(#[trigger] before[w].row) == row_key(all[x]);
                        assert(row_key(cs@[w].row) == row_key(all[x]));
                    } else {
                        assert((lex2 + sem2)[x] == *r);
                        assert(row_key(cs@[j as int].row) == k);
                    }
                }
            }
        },
        None => {
            let c = if from_lexical {
                Candidate { row: copy_row(r), lexical_rank: Some(rank), semantic_rank: None }
            } else {
                Candidate { row: copy_row(r), lexical_rank: None, semantic_rank: Some(rank) }
            };
            proof {
                lemma_first_rank_bounds(all, k);
                lemma_last_rank_bounds(lex, k);
                lemma_last_rank_bounds(sem, k);
                assert forall|y: int| 0 <= y < all.len() implies row_key(#[trigger] all[y]) != k by {
                    assert(has_unit(before, row_key(all[y])));
                }
                assert forall|y: int| 0 <= y < lex.len() implies row_key(#[trigger] lex[y]) != k by {
                    assert(all[y] == lex[y]);
                }
                assert forall|y: int| 0 <= y < sem.len() implies row_key(#[trigger] sem[y]) != k by {
                    assert(all[lex.len() + y] == sem[y]);
                }
            }
            cs.push(c);
            proof {
                assert(cs@[before.len() as int] == c);
                assert((lex2 + sem2)[all.len() as int] == *r);
                assert forall|x: int| 0 <= x < cs@.len() implies candidate_for(#[trigger] cs@[x], lex2, sem2) by {
                    if x < before.len() {
                        let b = before[x];
                        assert(cs@[x] == b);
                        assert(candidate_for(b, lex, sem));
                        let q = row_key(b.row);
                        lemma_first_rank_bounds(all, q);
                        match first_rank(all, q) {
                            Some(y) => {
                                assert((lex2 + sem2)[y] == all[y]);
                            },
                            None => {},
                        }
                    }
                }
                assert forall|x: int| 0 <= x < (lex2 + sem2).len() implies has_unit(cs@, row_key(#[trigger] (lex2 + sem2)[x])) by {
                    if x < all.len() {
                        assert((lex2 + sem2)[x] == all[x]);
                        assert(has_unit(before, row_key(all[x])));
                        let w = choose|w: int| 0 <= w < before.len() && row_key(#[trigger] before[w].row) == row_key(all[x]);
                        assert(cs@[w] == before[w]);
                    } else {
                        assert(row_key(cs@[before.len() as int].row) == k);
                    }
                }
            }
        },
    }
}

/// Reciprocal rank fusion needs both positions of each unit: one candidate per unit
/// either leg found, carrying the first row given for it (lexical first) and its last
/// position in each leg. The order of the candidates is not part of the result.
pub fn fuse(lexical: &Vec<Row>, semantic: &Vec<Row>) -> (r: Vec<Candidate>)
    ensures
        fused(r@, lexical@, semantic@),
        forall|j: int| 0 <= j < r@.len() ==> first_rank(lexical@ + semantic@, row_key(#[trigger] r@[j].row)) is Some,
{
    let mut cs: Vec<Candidate> = Vec::new();
    let mut i: usize = 0;
    assert(lexical@.take(0) + Seq::<Row>::empty() =~= Seq::<Row>::empty());
    while i < lexical.len()
        invariant
            i <= lexical@.len(),
            fused(cs@, lexical@.take(i as int), Seq::<Row>::empty()),
        decreases lexical.len() - i,
    {
        absorb(&mut cs, Ghost(lexical@.take(i as int)), Ghost(Seq::<Row>::empty()), &lexical[i], i, true);
        assert(lexical@.take(i as int).push(lexical@[i as int]) =~= lexical@.take(i + 1));
        i += 1;
    }
    assert(lexical@.take(lexical@.len() as int) =~= lexical@);
    let mut k: usize = 0;
    while k < semantic.len()
        invariant
            k <= semantic@.len(),
            fused(cs@, lexical@, semantic@.take(k as int)),
        decreases semantic.len() - k,
    {
        absorb(&mut cs, Ghost(lexical@), Ghost(semantic@.take(k as int)), &semantic[k], k, false);
        assert(semantic@.take(k as int).push(semantic@[k as int]) =~= semantic@.take(k + 1));
        k += 1;
    }
    assert(semantic@.take(semantic@.len() as int) =~= semantic@);
    cs
}

// ---------------------------------------------------------------------------
// From candidates to hits
// ---------------------------------------------------------------------------

/// Whether the semantic leg runs: not when only the lexical one was asked for, not
/// without an embedder, not while no index holds rows, and never against an index a
/// different model built, because two vector spaces are not comparable.
pub open spec fn semantic_runs(lexical_only: bool, embedder: Option<Seq<char>>, state: Option<(Seq<char>, i64)>) -> bool {
    &&& !lexical_only
    &&& embedder is Some
    &&& state matches Some((model, rows)) && rows > 0 && model == embedder->0
}

/// `state` is the index's model and row count, when there is one; `embedder` is the
/// identity of the model at hand.
pub fn semantic_leg(lexical_only: bool, embedder: Option<&str>, state: &Option<(String, i64)>) -> (r: bool)
    ensures
        r == semantic_runs(
            lexical_only,
            match embedder {
                Some(e) => Some(e@),
                None => None,
            },
            match state {
                Some((m, n)) => Some((m@, *n)),
                None => None,
            },
        ),
{
    if lexical_only {
        return false;
    }
    let id = match embedder {
        Some(e) => e,
        None => return false,
    };
    match state {
        Some((model, rows)) => {
            if *rows <= 0 {
                return false;
            }
            let a = chars_of(model.as_str());
            let b = chars_of(id);
            eq_chars(&a, &b)
        },
        None => false,
    }
}

/// How many hits a search returns: what was asked for, or 20 when nothing was.
pub fn result_limit(limit: usize) -> (r: usize)
    ensures
        r == if limit == 0 {
            20
        } else {
            limit
        },
{
    if limit == 0 {
        20
    } else {
        limit
    }
}

/// A hit survives the filters when its plan is in the one repo asked for (if one
/// was) and has one of the statuses asked for (if any were).
pub open spec fn passes(repo_id: i64, status: Status, only_repo: Option<i64>, statuses: Seq<Status>) -> bool {
    (match only_repo {
        Some(only) => repo_id == only,
        None => true,
    }) && (statuses.len() == 0 || statuses.contains(status))
}

pub fn passes_filters(repo_id: i64, status: Status, opts: &SearchOptions) -> (r: bool)
    ensures
        r == passes(repo_id, status, opts.only_repo, opts.statuses@),
{
    match opts.only_repo {
        Some(only) => {
            if repo_id != only {
                return false;
            }
        },
        None => {},
    }
    if opts.statuses.len() == 0 {
        return true;
    }
    let mut i: usize = 0;
    while i < opts.statuses.len()
        invariant
            i <= opts.statuses@.len(),
            match opts.only_repo {
                Some(only) => repo_id == only,
                None => true,
            },
            forall|j: int| 0 <= j < i ==> opts.statuses@[j] != status,
        decreases opts.statuses.len() - i,
    {
        if opts.statuses[i] == status {
            assert(opts.statuses@[i as int] == status);
            assert(opts.statuses@.contains(status));
            return true;
        }
        i += 1;
    }
    false
}

/// Where in the plan a hit is, in the plan's own terms: a log note or a question is
/// named by its label (a date, the question) when it has one rather than by its id.
pub open spec fn shown_reference(kind: Seq<char>, label: Seq<char>, reference: Seq<char>) -> Seq<char> {
    if (kind == "log"@ || kind == "question"@) && trim(label).len() > 0 {
        label
    } else {
        reference
    }
}

pub fn hit_reference(row: &Row) -> (r: String)
    ensures
        r@ == shown_reference(row.kind@, row.label@, row.reference@),
{
    let kv = chars_of(row.kind.as_str());
    let lv = chars_of(row.label.as_str());
    let w = |x: &str| -> (r: bool)
        ensures
            r == (kv@ == x@),
        {
            let xv = chars_of(x);
            crate::text::eq_chars(&kv, &xv)
        };
    if (w("log") || w("question")) && trimmed(&lv).len() > 0 {
        row.label.clone()
    } else {
        row.reference.clone()
    }
}

/// Which legs found a hit.
pub open spec fn matched_name(lexical: Option<usize>, semantic: Option<usize>) -> Seq<char> {
    match (lexical, semantic) {
        (Some(_), Some(_)) => "both"@,
        (Some(_), None) => "lexical"@,
        _ => "semantic"@,
    }
}

pub fn matched_by(c: &Candidate) -> (r: &'static str)
    ensures
        r@ == matched_name(c.lexical_rank, c.semantic_rank),
{
    match (c.lexical_rank, c.semantic_rank) {
        (Some(_), Some(_)) => "both",
        (Some(_), None) => "lexical",
        _ => "semantic",
    }
}

/// How a plan's status moves its hits, in quarter points: work in flight up, finished
/// or parked work down.
pub open spec fn status_quarters(s: Status) -> int {
    if s == Status::Active || s == Status::InReview {
        1
    } else if crate::model::status_terminal(s) {
        -1
    } else {
        0
    }
}

pub fn status_nudge(s: Status) -> (r: i8)
    ensures
        r == status_quarters(s),
{
    if s == Status::Active || s == Status::InReview {
        1
    } else if s.is_terminal() {
        -1
    } else {
        0
    }
}

/// `s[..n]` for a byte offset `n`: the characters whose encoding ends by then.
pub open spec fn bytes_prefix(s: Seq<char>, n: int) -> Seq<char> {
    s.take(index_at_byte(s, n)->0)
}

pub open spec fn date_part_of(updated_at: Seq<char>) -> Seq<char> {
    bytes_prefix(updated_at, if byte_len(updated_at) < 10 { byte_len(updated_at) as int } else { 10 })
}

pub open spec fn month_part_of(a: Seq<char>) -> Seq<char> {
    bytes_prefix(a, if byte_len(a) < 7 { byte_len(a) as int } else { 7 })
}

/// How recently a plan changed, against today's date: 2 for the same day, 1 for the
/// same month, 0 otherwise. Both are compared on their first ten and seven bytes.
pub open spec fn recency_tier(updated_at: Seq<char>, today: Seq<char>) -> u8 {
    let a = date_part_of(updated_at);
    let b = bytes_prefix(today, 10);
    if a == b {
        2
    } else if month_part_of(a) == bytes_prefix(b, 7) {
        1
    } else {
        0
    }
}

/// Every byte cut `recency` makes lands on a character boundary, and today's date is
/// at least ten bytes long.
pub open spec fn recency_cuts(updated_at: Seq<char>, today: Seq<char>) -> bool {
    let a = date_part_of(updated_at);
    let b = bytes_prefix(today, 10);
    &&& index_at_byte(updated_at, if byte_len(updated_at) < 10 { byte_len(updated_at) as int } else { 10 }) is Some
    &&& byte_len(today) >= 10
    &&& index_at_byte(today, 10) is Some
    &&& index_at_byte(a, if byte_len(a) < 7 { byte_len(a) as int } else { 7 }) is Some
    &&& index_at_byte(b, 7) is Some
}

fn bytes_of(v: &[char]) -> (r: u128)
    ensures
        r == byte_len(v@),
{
    proof {
        crate::text::lemma_byte_len_le(v@);
    }
    let r = crate::text::prefix_bytes(v, v.len());
    assert(v@.take(v@.len() as int) =~= v@);
    r
}

fn prefix_at_byte(v: &[char], n: u128) -> (r: Vec<char>)
    requires
        index_at_byte(v@, n as int) is Some,
    ensures
        r@ == bytes_prefix(v@, n as int),
{
    proof {
        crate::text::lemma_index_at_byte_bounds(v@, n as int, 0);
    }
    match crate::text::index_at_byte_of(v, n) {
        Some(k) => crate::text::slice_of(v, 0, k),
        None => Vec::new(),
    }
}

/// Timestamps as the store writes them; the cuts are in bytes, as `str` slicing is.
pub fn recency(updated_at: &str, today: &str) -> (r: u8)
    requires
        recency_cuts(updated_at@, today@),
    ensures
        r == recency_tier(updated_at@, today@),
{
    let u = chars_of(updated_at);
    let t = chars_of(today);
    let ub = bytes_of(&u);
    let n: u128 = if ub < 10 {
        ub
    } else {
        10
    };
    let a = prefix_at_byte(&u, n);
    let b = prefix_at_byte(&t, 10);
    if crate::text::eq_chars(&a, &b) {
        return 2;
    }
    let ab = bytes_of(&a);
    let m: u128 = if ab < 7 {
        ab
    } else {
        7
    };
    let a7 = prefix_at_byte(&a, m);
    let b7 = prefix_at_byte(&b, 7);
    if crate::text::eq_chars(&a7, &b7) {
        1
    } else {
        0
    }
}

/// The plan with this id, the first that has it.
pub open spec fn plan_by_id(plans: Seq<crate::model::Plan>, id: i64) -> Option<crate::model::Plan>
    decreases plans.len(),
{
    if plans.len() == 0 {
        None
    } else {
        match plan_by_id(plans.drop_last(), id) {
            Some(p) => Some(p),
            None => if plans.last().id == id {
                Some(plans.last())
            } else {
                None
            },
        }
    }
}

/// Everything a hit shows but its score: the plan, what was hit and how it is named,
/// the snippet, and which legs found it.
#[derive(Debug, Clone)]
pub struct HitPart {
    pub plan: crate::model::Plan,
    pub kind: String,
    pub reference: String,
    pub snippet: String,
    pub lexical_rank: Option<usize>,
    pub semantic_rank: Option<usize>,
    pub matched: &'static str,
}

pub open spec fn part_view(h: HitPart) -> (crate::model::Plan, Seq<char>, Seq<char>, Seq<char>, Option<usize>, Option<usize>, Seq<char>) {
    (h.plan, h.kind@, h.reference@, h.snippet@, h.lexical_rank, h.semantic_rank, h.matched@)
}

/// The candidates that become hits, in order: a candidate whose plan is gone is
/// dropped, and so is one the repo and status filters leave out.
pub open spec fn hit_parts_of(
    cs: Seq<Candidate>,
    plans: Seq<crate::model::Plan>,
    only_repo: Option<i64>,
    statuses: Seq<Status>,
) -> Seq<(crate::model::Plan, Seq<char>, Seq<char>, Seq<char>, Option<usize>, Option<usize>, Seq<char>)>
    decreases cs.len(),
{
    if cs.len() == 0 {
        Seq::empty()
    } else {
        let before = hit_parts_of(cs.drop_last(), plans, only_repo, statuses);
        let c = cs.last();
        match plan_by_id(plans, c.row.plan_id) {
            Some(p) => if passes(p.repo_id, p.status, only_repo, statuses) {
                before.push(
                    (
                        p,
                        c.row.kind@,
                        shown_reference(c.row.kind@, c.row.label@, c.row.reference@),
                        c.row.snippet@,
                        c.lexical_rank,
                        c.semantic_rank,
                        matched_name(c.lexical_rank, c.semantic_rank),
                    ),
                )
            } else {
                before
            },
            None => before,
        }
    }
}

fn find_plan_by_id(plans: &Vec<crate::model::Plan>, id: i64) -> (r: Option<crate::model::Plan>)
    ensures
        r == plan_by_id(plans@, id),
{
    let mut i: usize = 0;
    while i < plans.len()
        invariant
            i <= plans@.len(),
            plan_by_id(plans@.take(i as int), id) is None,
        decreases plans.len() - i,
    {
        assert(plans@.take(i + 1).drop_last() =~= plans@.take(i as int));
        if plans[i].id == id {
            proof {
                lemma_plan_by_id_prefix(plans@, id, i + 1);
            }
            return Some(plans[i].copied());
        }
        i += 1;
    }
    assert(plans@.take(plans@.len() as int) =~= plans@);
    None
}

proof fn lemma_plan_by_id_prefix(plans: Seq<crate::model::Plan>, id: i64, n: int)
    requires
        0 < n <= plans.len(),
        plan_by_id(plans.take(n), id) is Some,
    ensures
        plan_by_id(plans, id) == plan_by_id(plans.take(n), id),
    decreases plans.len() - n,
{
    if n < plans.len() {
        assert(plans.take(n + 1).drop_last() =~= plans.take(n));
        lemma_plan_by_id_prefix(plans, id, n + 1);
    } else {
        assert(plans.take(n) =~= plans);
    }
}

/// The non-numeric part of a search: each candidate joined to its plan, filtered by
/// repo and status, named as a hit is named, and told which legs found it. The score,
/// a float, and the order it gives are the caller's.
pub fn hit_parts(cs: &Vec<Candidate>, plans: &Vec<crate::model::Plan>, opts: &SearchOptions) -> (r: Vec<HitPart>)
    ensures
        r@.map_values(|h: HitPart| part_view(h)) == hit_parts_of(cs@, plans@, opts.only_repo, opts.statuses@),
{
    let mut out: Vec<HitPart> = Vec::new();
    let mut i: usize = 0;
    while i < cs.len()
        invariant
            i <= cs@.len(),
            out@.map_values(|h: HitPart| part_view(h)) == hit_parts_of(
                cs@.take(i as int),
                plans@,
                opts.only_repo,
                opts.statuses@,
            ),
        decreases cs.len() - i,
    {
        assert(cs@.take(i + 1).drop_last() =~= cs@.take(i as int));
        let c = &cs[i];
        if let Some(p) = find_plan_by_id(plans, c.row.plan_id) {
            if passes_filters(p.repo_id, p.status, opts) {
                let part = HitPart {
                    plan: p,
                    kind: c.row.kind.clone(),
                    reference: hit_reference(&c.row),
                    snippet: c.row.snippet.clone(),
                    lexical_rank: c.lexical_rank,
                    semantic_rank: c.semantic_rank,
                    matched: matched_by(c),
                };
                let ghost before = out@;
                out.push(part);
                assert(out@.map_values(|h: HitPart| part_view(h)) =~= before.map_values(
                    |h: HitPart| part_view(h),
                ).push(part_view(part)));
            }
        }
        i += 1;
    }
    assert(cs@.take(cs@.len() as int) =~= cs@);
    out
}

/// The positions that are the first hit for their plan and kind.
pub open spec fn firsts(keys: Seq<(i64, Seq<char>)>) -> Seq<int>
    decreases keys.len(),
{
    if keys.len() == 0 {
        Seq::empty()
    } else if keys.drop_last().contains(keys.last()) {
        firsts(keys.drop_last())
    } else {
        firsts(keys.drop_last()).push(keys.len() - 1)
    }
}

pub open spec fn plan_kind_views(keys: Seq<(i64, String)>) -> Seq<(i64, Seq<char>)> {
    keys.map_values(|k: (i64, String)| (k.0, k.1@))
}

/// One line per plan per kind is enough to judge a hit: of hits in ranked order, by
/// plan and kind, the positions of the first of each, at most `limit` of them.
pub fn first_per_plan_kind(keys: &Vec<(i64, String)>, limit: usize) -> (r: Vec<usize>)
    ensures
        r@.len() == if firsts(plan_kind_views(keys@)).len() < limit {
            firsts(plan_kind_views(keys@)).len() as int
        } else {
            limit as int
        },
        forall|i: int| 0 <= i < r@.len() ==> r@[i] as int == firsts(plan_kind_views(keys@))[i],
{
    let ghost kv = plan_kind_views(keys@);
    let mut out: Vec<usize> = Vec::new();
    let mut i: usize = 0;
    while i < keys.len()
        invariant
            i <= keys@.len(),
            kv == plan_kind_views(keys@),
            out@.len() == firsts(kv.take(i as int)).len(),
            forall|x: int| 0 <= x < out@.len() ==> out@[x] as int == firsts(kv.take(i as int))[x],
            forall|x: int| 0 <= x < firsts(kv.take(i as int)).len() ==> firsts(kv.take(i as int))[x] < i,
        decreases keys.len() - i,
    {
        let ghost pre = kv.take(i as int);
        assert(kv.take(i + 1).drop_last() =~= pre);
        assert(kv.take(i + 1).last() == kv[i as int]);
        let mut seen = false;
        let mut j: usize = 0;
        while j < i
            invariant
                j <= i,
                i < keys@.len(),
                kv == plan_kind_views(keys@),
                pre == kv.take(i as int),
                seen == exists|x: int| 0 <= x < j && pre[x] == kv[i as int],
            decreases i - j,
        {
            let same = keys[j].0 == keys[i].0 && {
                let a = chars_of(keys[j].1.as_str());
                let b = chars_of(keys[i].1.as_str());
                crate::text::eq_chars(&a, &b)
            };
            assert(pre[j as int] == kv[j as int]);
            if same {
                seen = true;
            }
            proof {
                if same {
                    assert(pre[j as int] == kv[i as int]);
                }
                if !same && seen {
                    let x = choose|x: int| 0 <= x < j && pre[x] == kv[i as int];
                    assert(0 <= x < j + 1 && pre[x] == kv[i as int]);
                }
                if !same && !seen {
                    assert forall|x: int| 0 <= x < j + 1 implies pre[x] != kv[i as int] by {
                        if x == j {
                            assert(pre[x] == kv[j as int]);
                        }
                    }
                }
            }
            j += 1;
        }
        proof {
            if seen {
                let x = choose|x: int| 0 <= x < i && pre[x] == kv[i as int];
                assert(pre.contains(kv[i as int]));
            } else {
                assert(!pre.contains(kv[i as int]));
            }
        }
        if !seen {
            out.push(i);
        }
        i += 1;
    }
    assert(kv.take(keys@.len() as int) =~= kv);
    let ghost all = firsts(kv);
    let mut res: Vec<usize> = Vec::new();
    let mut k: usize = 0;
    while k < out.len() && k < limit
        invariant
            k <= out@.len(),
            k <= limit,
            out@.len() == all.len(),
            forall|x: int| 0 <= x < out@.len() ==> out@[x] as int == all[x],
            res@.len() == k,
            forall|x: int| 0 <= x < k ==> res@[x] as int == all[x],
        decreases out.len() - k,
    {
        res.push(out[k]);
        k += 1;
    }
    res
}

proof fn lemma_firsts_bounds(keys: Seq<(i64, Seq<char>)>)
    ensures
        forall|x: int| 0 <= x < firsts(keys).len() ==> 0 <= #[trigger] firsts(keys)[x] < keys.len(),
    decreases keys.len(),
{
    if keys.len() > 0 {
        let d = keys.drop_last();
        lemma_firsts_bounds(d);
        if !d.contains(keys.last()) {
            assert forall|x: int| 0 <= x < firsts(keys).len() implies 0 <= #[trigger] firsts(keys)[x] < keys.len() by {
                if x < firsts(d).len() {
                    assert(firsts(keys)[x] == firsts(d)[x]);
                }
            }
        }
    }
}

/// Each hit's plan and kind.
pub open spec fn part_keys(hs: Seq<HitPart>) -> Seq<(i64, Seq<char>)> {
    hs.map_values(|h: HitPart| (h.plan.id, h.kind@))
}

pub open spec fn part_views(hs: Seq<HitPart>) -> Seq<
    (crate::model::Plan, Seq<char>, Seq<char>, Seq<char>, Option<usize>, Option<usize>, Seq<char>),
> {
    hs.map_values(|h: HitPart| part_view(h))
}

/// The hits a search answers with, from hits in ranked order: the first for each plan
/// and kind, at most the search's limit of them (20 when none was asked for).
pub open spec fn picked(hs: Seq<HitPart>, limit: usize) -> Seq<
    (crate::model::Plan, Seq<char>, Seq<char>, Seq<char>, Option<usize>, Option<usize>, Seq<char>),
> {
    let fs = firsts(part_keys(hs));
    let lim: int = if limit == 0 { 20 } else { limit as int };
    let n: int = if fs.len() < lim { fs.len() as int } else { lim };
    fs.take(n).map_values(|i: int| part_view(hs[i]))
}

fn copy_part(h: &HitPart) -> (r: HitPart)
    ensures
        part_view(r) == part_view(*h),
{
    HitPart {
        plan: h.plan.copied(),
        kind: h.kind.clone(),
        reference: h.reference.clone(),
        snippet: h.snippet.clone(),
        lexical_rank: h.lexical_rank,
        semantic_rank: h.semantic_rank,
        matched: h.matched,
    }
}

/// The last step of a search, once the hits are ranked: one hit per plan and kind,
/// the best of them, and no more than the limit.
pub fn pick_hits(ranked: &Vec<HitPart>, limit: usize) -> (r: Vec<HitPart>)
    ensures
        part_views(r@) == picked(ranked@, limit),
{
    let ghost pk = part_keys(ranked@);
    let mut keys: Vec<(i64, String)> = Vec::new();
    let mut i: usize = 0;
    while i < ranked.len()
        invariant
            i <= ranked@.len(),
            pk == part_keys(ranked@),
            plan_kind_views(keys@) == pk.take(i as int),
        decreases ranked.len() - i,
    {
        let ghost before = keys@;
        keys.push((ranked[i].plan.id, ranked[i].kind.clone()));
        assert(plan_kind_views(keys@) =~= plan_kind_views(before).push(pk[i as int]));
        assert(pk.take(i + 1) =~= pk.take(i as int).push(pk[i as int]));
        i += 1;
    }
    assert(pk.take(ranked@.len() as int) =~= pk);
    let lim = result_limit(limit);
    let idx = first_per_plan_kind(&keys, lim);
    proof {
        lemma_firsts_bounds(pk);
    }
    let ghost fs = firsts(pk);
    let mut out: Vec<HitPart> = Vec::new();
    let mut k: usize = 0;
    while k < idx.len()
        invariant
            k <= idx@.len(),
            fs == firsts(pk),
            pk == part_keys(ranked@),
            pk.len() == ranked@.len(),
            idx@.len() <= fs.len(),
            forall|x: int| 0 <= x < idx@.len() ==> idx@[x] as int == fs[x],
            forall|x: int| 0 <= x < fs.len() ==> 0 <= #[trigger] fs[x] < pk.len(),
            part_views(out@) == fs.take(k as int).map_values(|j: int| part_view(ranked@[j])),
        decreases idx.len() - k,
    {
        let j = idx[k];
        assert(fs[k as int] == j as int);
        let h = copy_part(&ranked[j]);
        let ghost before = out@;
        out.push(h);
        assert(part_views(out@) =~= part_views(before).push(part_view(h)));
        assert(fs.take(k + 1).map_values(|j: int| part_view(ranked@[j])) =~= fs.take(k as int).map_values(
            |j: int| part_view(ranked@[j]),
        ).push(part_view(ranked@[j as int])));
        k += 1;
    }
    out
}

// ---------------------------------------------------------------------------
// The units, from the rows
// ---------------------------------------------------------------------------

/// A unit as values: plan, kind, reference, title, body.
pub open spec fn unit_view(u: IndexUnit) -> (i64, Seq<char>, Seq<char>, Seq<char>, Seq<char>) {
    (u.plan_id, u.kind@, u.reference@, u.title@, u.body@)
}

pub open spec fn opt_or_empty(o: Option<String>) -> Seq<char> {
    match o {
        Some(s) => s@,
        None => Seq::empty(),
    }
}

/// A plan is found by its summary, its slug and its ticket.
pub open spec fn plan_unit(p: crate::model::Plan) -> (i64, Seq<char>, Seq<char>, Seq<char>, Seq<char>) {
    (p.id, "plan"@, p.slug@, p.title@, opt_or_empty(p.summary) + " "@ + p.slug@ + " "@ + opt_or_empty(p.ticket_key))
}

/// SQL's `TRIM`: spaces only.
pub open spec fn has_words(body: Seq<char>) -> bool {
    crate::text::trim_in(body, seq![' ']).len() > 0
}

pub open spec fn section_unit(s: crate::model::Section) -> (i64, Seq<char>, Seq<char>, Seq<char>, Seq<char>) {
    (s.plan_id, "section"@, s.title@, s.title@, s.body@)
}

/// A slice is found by its scope, its demo and its branch.
pub open spec fn slice_unit(s: crate::model::Slice) -> (i64, Seq<char>, Seq<char>, Seq<char>, Seq<char>) {
    (s.plan_id, "slice"@, s.key@, s.title@, s.scope_md@ + " "@ + opt_or_empty(s.demo_md) + " "@ + opt_or_empty(s.branch))
}

pub open spec fn decision_unit(d: crate::model::Decision) -> (i64, Seq<char>, Seq<char>, Seq<char>, Seq<char>) {
    (d.plan_id, "decision"@, d.key@, d.title@, d.body@)
}

pub open spec fn gotcha_unit(g: crate::model::Gotcha) -> (i64, Seq<char>, Seq<char>, Seq<char>, Seq<char>) {
    (g.plan_id, "gotcha"@, g.title@, g.title@, g.body@)
}

/// A question has no title; it is keyed by its id.
pub open spec fn question_unit(q: crate::model::Question) -> (i64, Seq<char>, Seq<char>, Seq<char>, Seq<char>) {
    (q.plan_id, "question"@, crate::text::dec_int(q.id as int), Seq::empty(), q.body@)
}

/// A log note is keyed by its id, not by its date: several notes land on one day, and
/// a colliding key makes them overwrite each other's vector on every rebuild. Its
/// title is the date.
pub open spec fn log_unit(e: crate::model::LogEntry) -> (i64, Seq<char>, Seq<char>, Seq<char>, Seq<char>) {
    (
        e.plan_id,
        "log"@,
        crate::text::dec_int(e.id as int),
        e.at@.take(if e.at@.len() < 10 {
            e.at@.len() as int
        } else {
            10
        }),
        e.body@,
    )
}

/// The notes worth finding: progress, verification, blockers and handoffs.
pub open spec fn indexed_kind(k: crate::model::LogKind) -> bool {
    k == crate::model::LogKind::Progress || k == crate::model::LogKind::Verification || k
        == crate::model::LogKind::Blocker || k == crate::model::LogKind::Handoff
}

pub open spec fn sections_units(ss: Seq<crate::model::Section>) -> Seq<(i64, Seq<char>, Seq<char>, Seq<char>, Seq<char>)>
    decreases ss.len(),
{
    if ss.len() == 0 {
        Seq::empty()
    } else if has_words(ss.last().body@) {
        sections_units(ss.drop_last()).push(section_unit(ss.last()))
    } else {
        sections_units(ss.drop_last())
    }
}

pub open spec fn log_units(es: Seq<crate::model::LogEntry>) -> Seq<(i64, Seq<char>, Seq<char>, Seq<char>, Seq<char>)>
    decreases es.len(),
{
    if es.len() == 0 {
        Seq::empty()
    } else if indexed_kind(es.last().kind) {
        log_units(es.drop_last()).push(log_unit(es.last()))
    } else {
        log_units(es.drop_last())
    }
}

/// Everything both indexes are built from, table by table: plans, sections with text,
/// slices, decisions, gotchas, questions, and the notes worth finding.
pub open spec fn all_units(
    plans: Seq<crate::model::Plan>,
    sections: Seq<crate::model::Section>,
    slices: Seq<crate::model::Slice>,
    decisions: Seq<crate::model::Decision>,
    gotchas: Seq<crate::model::Gotcha>,
    questions: Seq<crate::model::Question>,
    log: Seq<crate::model::LogEntry>,
) -> Seq<(i64, Seq<char>, Seq<char>, Seq<char>, Seq<char>)> {
    plans.map_values(|p: crate::model::Plan| plan_unit(p)) + sections_units(sections) + slices.map_values(
        |s: crate::model::Slice| slice_unit(s),
    ) + decisions.map_values(|d: crate::model::Decision| decision_unit(d)) + gotchas.map_values(
        |g: crate::model::Gotcha| gotcha_unit(g),
    ) + questions.map_values(|q: crate::model::Question| question_unit(q)) + log_units(log)
}

pub open spec fn unit_views(us: Seq<IndexUnit>) -> Seq<(i64, Seq<char>, Seq<char>, Seq<char>, Seq<char>)> {
    us.map_values(|u: IndexUnit| unit_view(u))
}

fn push_unit(out: &mut Vec<IndexUnit>, u: IndexUnit)
    ensures
        unit_views(final(out)@) == unit_views(old(out)@).push(unit_view(u)),
{
    out.push(u);
    assert(unit_views(out@) =~= unit_views(old(out)@).push(unit_view(u)));
}

fn text_or_empty(o: &Option<String>) -> (r: String)
    ensures
        r@ == opt_or_empty(*o),
{
    match o {
        Some(s) => s.clone(),
        None => String::new(),
    }
}

fn joined3(a: &str, b: &str, c: &str) -> (r: String)
    ensures
        r@ == a@ + " "@ + b@ + " "@ + c@,
{
    let mut out = chars_of(a);
    push_str(&mut out, " ");
    push_str(&mut out, b);
    push_str(&mut out, " ");
    push_str(&mut out, c);
    string_of(&out)
}

fn id_text(id: i64) -> (r: String)
    ensures
        r@ == crate::text::dec_int(id as int),
{
    let mut out: Vec<char> = Vec::new();
    crate::text::push_int(&mut out, id);
    string_of(&out)
}

/// The units of every table, in the order the tables are read.
pub fn index_units(
    plans: &Vec<crate::model::Plan>,
    sections: &Vec<crate::model::Section>,
    slices: &Vec<crate::model::Slice>,
    decisions: &Vec<crate::model::Decision>,
    gotchas: &Vec<crate::model::Gotcha>,
    questions: &Vec<crate::model::Question>,
    log: &Vec<crate::model::LogEntry>,
) -> (r: Vec<IndexUnit>)
    ensures
        unit_views(r@) == all_units(plans@, sections@, slices@, decisions@, gotchas@, questions@, log@),
{
    let mut out: Vec<IndexUnit> = Vec::new();
    assert(unit_views(out@) =~= Seq::empty());
    let ghost base = unit_views(out@);
    let mut i: usize = 0;
    while i < plans.len()
        invariant
            i <= plans@.len(),
            unit_views(out@) == plans@.take(i as int).map_values(|p: crate::model::Plan| plan_unit(p)),
        decreases plans.len() - i,
    {
        let p = &plans[i];
        let summary = text_or_empty(&p.summary);
        let ticket = text_or_empty(&p.ticket_key);
        let body = joined3(summary.as_str(), p.slug.as_str(), ticket.as_str());
        push_unit(&mut out, IndexUnit { plan_id: p.id, kind: "plan", reference: p.slug.clone(), title: p.title.clone(), body });
        assert(plans@.take(i + 1).map_values(|p: crate::model::Plan| plan_unit(p)) =~= plans@.take(i as int).map_values(
            |p: crate::model::Plan| plan_unit(p),
        ).push(plan_unit(plans@[i as int])));
        i += 1;
    }
    assert(plans@.take(plans@.len() as int) =~= plans@);
    let ghost a = unit_views(out@);
    let mut i: usize = 0;
    while i < sections.len()
        invariant
            i <= sections@.len(),
            unit_views(out@) == a + sections_units(sections@.take(i as int)),
        decreases sections.len() - i,
    {
        assert(sections@.take(i + 1).drop_last() =~= sections@.take(i as int));
        let s = &sections[i];
        let bv = chars_of(s.body.as_str());
        let sp = [' '];
        assert(sp@ =~= seq![' ']);
        if crate::text::trimmed_in(&bv, &sp).len() > 0 {
            push_unit(&mut out, IndexUnit { plan_id: s.plan_id, kind: "section", reference: s.title.clone(), title: s.title.clone(), body: s.body.clone() });
        }
        assert(unit_views(out@) =~= a + sections_units(sections@.take(i + 1)));
        i += 1;
    }
    assert(sections@.take(sections@.len() as int) =~= sections@);
    let ghost b = unit_views(out@);
    let mut i: usize = 0;
    while i < slices.len()
        invariant
            i <= slices@.len(),
            unit_views(out@) == b + slices@.take(i as int).map_values(|s: crate::model::Slice| slice_unit(s)),
        decreases slices.len() - i,
    {
        let s = &slices[i];
        let demo = text_or_empty(&s.demo_md);
        let branch = text_or_empty(&s.branch);
        let body = joined3(s.scope_md.as_str(), demo.as_str(), branch.as_str());
        push_unit(&mut out, IndexUnit { plan_id: s.plan_id, kind: "slice", reference: s.key.clone(), title: s.title.clone(), body });
        assert(slices@.take(i + 1).map_values(|s: crate::model::Slice| slice_unit(s)) =~= slices@.take(i as int).map_values(
            |s: crate::model::Slice| slice_unit(s),
        ).push(slice_unit(slices@[i as int])));
        i += 1;
    }
    assert(slices@.take(slices@.len() as int) =~= slices@);
    let ghost c = unit_views(out@);
    let mut i: usize = 0;
    while i < decisions.len()
        invariant
            i <= decisions@.len(),
            unit_views(out@) == c + decisions@.take(i as int).map_values(|d: crate::model::Decision| decision_unit(d)),
        decreases decisions.len() - i,
    {
        let d = &decisions[i];
        push_unit(&mut out, IndexUnit { plan_id: d.plan_id, kind: "decision", reference: d.key.clone(), title: d.title.clone(), body: d.body.clone() });
        assert(decisions@.take(i + 1).map_values(|d: crate::model::Decision| decision_unit(d)) =~= decisions@.take(i as int).map_values(
            |d: crate::model::Decision| decision_unit(d),
        ).push(decision_unit(decisions@[i as int])));
        i += 1;
    }
    assert(decisions@.take(decisions@.len() as int) =~= decisions@);
    let ghost e = unit_views(out@);
    let mut i: usize = 0;
    while i < gotchas.len()
        invariant
            i <= gotchas@.len(),
            unit_views(out@) == e + gotchas@.take(i as int).map_values(|g: crate::model::Gotcha| gotcha_unit(g)),
        decreases gotchas.len() - i,
    {
        let g = &gotchas[i];
        push_unit(&mut out, IndexUnit { plan_id: g.plan_id, kind: "gotcha", reference: g.title.clone(), title: g.title.clone(), body: g.body.clone() });
        assert(gotchas@.take(i + 1).map_values(|g: crate::model::Gotcha| gotcha_unit(g)) =~= gotchas@.take(i as int).map_values(
            |g: crate::model::Gotcha| gotcha_unit(g),
        ).push(gotcha_unit(gotchas@[i as int])));
        i += 1;
    }
    assert(gotchas@.take(gotchas@.len() as int) =~= gotchas@);
    let ghost f = unit_views(out@);
    let mut i: usize = 0;
    while i < questions.len()
        invariant
            i <= questions@.len(),
            unit_views(out@) == f + questions@.take(i as int).map_values(|q: crate::model::Question| question_unit(q)),
        decreases questions.len() - i,
    {
        let q = &questions[i];
        push_unit(&mut out, IndexUnit { plan_id: q.plan_id, kind: "question", reference: id_text(q.id), title: String::new(), body: q.body.clone() });
        assert(questions@.take(i + 1).map_values(|q: crate::model::Question| question_unit(q)) =~= questions@.take(i as int).map_values(
            |q: crate::model::Question| question_unit(q),
        ).push(question_unit(questions@[i as int])));
        i += 1;
    }
    assert(questions@.take(questions@.len() as int) =~= questions@);
    let ghost g = unit_views(out@);
    let mut i: usize = 0;
    while i < log.len()
        invariant
            i <= log@.len(),
            unit_views(out@) == g + log_units(log@.take(i as int)),
        decreases log.len() - i,
    {
        assert(log@.take(i + 1).drop_last() =~= log@.take(i as int));
        let en = &log[i];
        let k = en.kind;
        if k == crate::model::LogKind::Progress || k == crate::model::LogKind::Verification || k
            == crate::model::LogKind::Blocker || k == crate::model::LogKind::Handoff {
            let av = chars_of(en.at.as_str());
            let n: usize = if av.len() < 10 {
                av.len()
            } else {
                10
            };
            let date = crate::text::slice_of(&av, 0, n);
            assert(date@ =~= en.at@.take(n as int));
            push_unit(&mut out, IndexUnit { plan_id: en.plan_id, kind: "log", reference: id_text(en.id), title: string_of(&date), body: en.body.clone() });
        }
        assert(unit_views(out@) =~= g + log_units(log@.take(i + 1)));
        i += 1;
    }
    assert(log@.take(log@.len() as int) =~= log@);
    out
}

} // verus!
