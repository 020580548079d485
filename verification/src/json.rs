//! JSON documents as values.
use vstd::prelude::*;

use crate::text::{chars_of, contains, eq_chars};

verus! {

pub struct Member {
    pub key: String,
    pub value: Json,
}

pub enum Json {
    Null,
    Bool(bool),
    Number(String),
    Str(String),
    Array(Vec<Json>),
    Object(Vec<Member>),
}

pub enum JsonV {
    Null,
    Bool(bool),
    Number(Seq<char>),
    Str(Seq<char>),
    Array(Seq<JsonV>),
    Object(Seq<(Seq<char>, JsonV)>),
}

pub open spec fn jv(j: Json) -> JsonV
    decreases j,
{
    match j {
        Json::Null => JsonV::Null,
        Json::Bool(b) => JsonV::Bool(b),
        Json::Number(n) => JsonV::Number(n@),
        Json::Str(s) => JsonV::Str(s@),
        Json::Array(items) => JsonV::Array(
            Seq::new(
                items@.len(),
                |i: int|
                    if 0 <= i < items@.len() {
                        jv(items@[i])
                    } else {
                        JsonV::Null
                    },
            ),
        ),
        Json::Object(ms) => JsonV::Object(
            Seq::new(
                ms@.len(),
                |i: int|
                    if 0 <= i < ms@.len() {
                        (ms@[i].key@, jv(ms@[i].value))
                    } else {
                        (Seq::empty(), JsonV::Null)
                    },
            ),
        ),
    }
}

impl Json {
    pub fn copied(&self) -> (r: Json)
        ensures
            jv(r) == jv(*self),
        decreases *self,
    {
        match self {
            Json::Null => Json::Null,
            Json::Bool(b) => Json::Bool(*b),
            Json::Number(n) => Json::Number(n.clone()),
            Json::Str(s) => Json::Str(s.clone()),
            Json::Array(items) => {
                let mut out: Vec<Json> = Vec::new();
                let mut i: usize = 0;
                proof {
                    assert forall|k: int| 0 <= k < items@.len() implies decreases_to!(*self => #[trigger] items@[k]) by {
                        assert(decreases_to!(*self => *items));
                        assert(decreases_to!(*items => items@));
                        assert(decreases_to!(items@ => items@[k]));
                    }
                }
                while i < items.len()
                    invariant
                        i <= items@.len(),
                        forall|k: int| 0 <= k < items@.len() ==> decreases_to!(*self => #[trigger] items@[k]),
                        out@.len() == i,
                        forall|k: int| 0 <= k < i ==> jv(#[trigger] out@[k]) == jv(items@[k]),
                    decreases items.len() - i,
                {
                    let c = items[i].copied();
                    out.push(c);
                    i += 1;
                }
                let r = Json::Array(out);
                assert(jv(r) =~= jv(*self)) by {
                    if let JsonV::Array(a) = jv(r) {
                        if let JsonV::Array(b) = jv(*self) {
                            assert(a =~= b);
                        }
                    }
                }
                r
            },
            Json::Object(ms) => {
                let mut out: Vec<Member> = Vec::new();
                let mut i: usize = 0;
                proof {
                    assert forall|k: int| 0 <= k < ms@.len() implies decreases_to!(*self => #[trigger] ms@[k].value) by {
                        assert(decreases_to!(*self => *ms));
                        assert(decreases_to!(*ms => ms@));
                        assert(decreases_to!(ms@ => ms@[k]));
                        assert(decreases_to!(ms@[k] => ms@[k].value));
                    }
                }
                while i < ms.len()
                    invariant
                        i <= ms@.len(),
                        forall|k: int| 0 <= k < ms@.len() ==> decreases_to!(*self => #[trigger] ms@[k].value),
                        out@.len() == i,
                        forall|k: int| 0 <= k < i ==> (#[trigger] out@[k]).key@ == ms@[k].key@ && jv(out@[k].value) == jv(ms@[k].value),
                    decreases ms.len() - i,
                {
                    let v = ms[i].value.copied();
                    out.push(Member { key: ms[i].key.clone(), value: v });
                    i += 1;
                }
                let r = Json::Object(out);
                assert(jv(r) =~= jv(*self)) by {
                    if let JsonV::Object(a) = jv(r) {
                        if let JsonV::Object(b) = jv(*self) {
                            assert(a =~= b);
                        }
                    }
                }
                r
            },
        }
    }
}

pub open spec fn items_v(items: Seq<Json>) -> Seq<JsonV> {
    Seq::new(items.len(), |i: int| jv(items[i]))
}

pub open spec fn members_v(ms: Seq<Member>) -> Seq<(Seq<char>, JsonV)> {
    Seq::new(ms.len(), |i: int| (ms[i].key@, jv(ms[i].value)))
}

pub proof fn lemma_jv_array(items: Vec<Json>)
    ensures
        jv(Json::Array(items)) == JsonV::Array(items_v(items@)),
{
    let j = Json::Array(items);
    if let JsonV::Array(a) = jv(j) {
        assert(a.len() == items@.len());
        assert forall|i: int| 0 <= i < a.len() implies a[i] == items_v(items@)[i] by {}
        assert(a =~= items_v(items@));
    }
    assert(jv(j) is Array);
    assert(items_v(items@) =~= Seq::new(
        items@.len(),
        |i: int|
            if 0 <= i < items@.len() {
                jv(items@[i])
            } else {
                JsonV::Null
            },
    ));
}

pub proof fn lemma_jv_object(ms: Vec<Member>)
    ensures
        jv(Json::Object(ms)) == JsonV::Object(members_v(ms@)),
{
    let j = Json::Object(ms);
    if let JsonV::Object(a) = jv(j) {
        assert(a.len() == ms@.len());
        assert forall|i: int| 0 <= i < a.len() implies a[i] == members_v(ms@)[i] by {}
        assert(a =~= members_v(ms@));
    }
    assert(jv(j) is Object);
    assert(members_v(ms@) =~= Seq::new(
        ms@.len(),
        |i: int|
            if 0 <= i < ms@.len() {
                (ms@[i].key@, jv(ms@[i].value))
            } else {
                (Seq::<char>::empty(), JsonV::Null)
            },
    ));
}

/// Where `key` first occurs among an object's members.
pub open spec fn first_key(ms: Seq<(Seq<char>, JsonV)>, key: Seq<char>) -> Option<int>
    decreases ms.len(),
{
    if ms.len() == 0 {
        None
    } else {
        match first_key(ms.drop_last(), key) {
            Some(i) => Some(i),
            None => if ms.last().0 == key {
                Some(ms.len() - 1)
            } else {
                None
            },
        }
    }
}

pub proof fn lemma_first_key(ms: Seq<(Seq<char>, JsonV)>, key: Seq<char>)
    ensures
        match first_key(ms, key) {
            Some(i) => 0 <= i < ms.len() && ms[i].0 == key && forall|j: int|
                0 <= j < i ==> (#[trigger] ms[j]).0 != key,
            None => forall|j: int| 0 <= j < ms.len() ==> (#[trigger] ms[j]).0 != key,
        },
    decreases ms.len(),
{
    if ms.len() > 0 {
        lemma_first_key(ms.drop_last(), key);
        assert(forall|j: int| 0 <= j < ms.len() - 1 ==> ms.drop_last()[j] == ms[j]);
    }
}

pub proof fn lemma_first_key_unique(ms: Seq<(Seq<char>, JsonV)>, key: Seq<char>, i: int)
    requires
        0 <= i < ms.len(),
        ms[i].0 == key,
        forall|j: int| 0 <= j < i ==> (#[trigger] ms[j]).0 != key,
    ensures
        first_key(ms, key) == Some(i),
{
    lemma_first_key(ms, key);
}

/// The member `key` of an object, as `serde_json`'s `get` reads it.
pub open spec fn get(ms: Seq<(Seq<char>, JsonV)>, key: Seq<char>) -> Option<JsonV> {
    match first_key(ms, key) {
        Some(i) => Some(ms[i].1),
        None => None,
    }
}

/// The object with `key` set to `v`: in place when present, appended when not.
pub open spec fn put(ms: Seq<(Seq<char>, JsonV)>, key: Seq<char>, v: JsonV) -> Seq<(Seq<char>, JsonV)> {
    match first_key(ms, key) {
        Some(i) => ms.update(i, (key, v)),
        None => ms.push((key, v)),
    }
}

pub proof fn lemma_put_get(ms: Seq<(Seq<char>, JsonV)>, key: Seq<char>, v: JsonV, other: Seq<char>)
    ensures
        get(put(ms, key, v), key) == Some(v),
        other != key ==> get(put(ms, key, v), other) == get(ms, other),
        get(ms, key) == Some(v) ==> put(ms, key, v) == ms,
{
    lemma_first_key(ms, key);
    lemma_first_key(ms, other);
    let p = put(ms, key, v);
    lemma_first_key(p, key);
    lemma_first_key(p, other);
    match first_key(ms, key) {
        Some(i) => {
            assert(p[i].0 == key);
            lemma_first_key_unique(p, key, i);
            if other != key {
                match first_key(ms, other) {
                    Some(j) => {
                        assert(p[j] == ms[j]);
                        lemma_first_key_unique(p, other, j);
                    },
                    None => {
                        assert forall|j: int| 0 <= j < p.len() implies (#[trigger] p[j]).0 != other by {
                            if j != i {
                                assert(p[j] == ms[j]);
                            }
                        }
                    },
                }
            }
            if get(ms, key) == Some(v) {
                assert(p =~= ms);
            }
        },
        None => {
            assert(p[ms.len() as int].0 == key);
            lemma_first_key_unique(p, key, ms.len() as int);
            if other != key {
                match first_key(ms, other) {
                    Some(j) => {
                        assert(p[j] == ms[j]);
                        lemma_first_key_unique(p, other, j);
                    },
                    None => {},
                }
            }
        },
    }
}

pub(crate) fn find_key(ms: &Vec<Member>, key: &str) -> (r: Option<usize>)
    ensures
        match r {
            Some(i) => first_key(members_v(ms@), key@) == Some(i as int),
            None => first_key(members_v(ms@), key@) is None,
        },
{
    let kv = chars_of(key);
    let ghost mv = members_v(ms@);
    let mut i: usize = 0;
    while i < ms.len()
        invariant
            i <= ms@.len(),
            mv == members_v(ms@),
            kv@ == key@,
            forall|j: int| 0 <= j < i ==> (#[trigger] mv[j]).0 != key@,
        decreases ms.len() - i,
    {
        let mk = chars_of(ms[i].key.as_str());
        if eq_chars(&mk, &kv) {
            proof {
                lemma_first_key_unique(mv, key@, i as int);
            }
            return Some(i);
        }
        i += 1;
    }
    proof {
        lemma_first_key(mv, key@);
    }
    None
}

pub(crate) fn put_member(ms: Vec<Member>, key: &str, v: Json) -> (r: Vec<Member>)
    ensures
        members_v(r@) == put(members_v(ms@), key@, jv(v)),
{
    let ghost before = members_v(ms@);
    let mut ms = ms;
    proof {
        lemma_first_key(before, key@);
    }
    match find_key(&ms, key) {
        Some(i) => {
            ms.set(i, Member { key: key.to_string(), value: v });
            assert(members_v(ms@) =~= before.update(i as int, (key@, jv(v))));
        },
        None => {
            ms.push(Member { key: key.to_string(), value: v });
            assert(members_v(ms@) =~= before.push((key@, jv(v))));
        },
    }
    ms
}

// ---------------------------------------------------------------------------
// Harness hooks
// ---------------------------------------------------------------------------

/// The command a hook entry runs: the script and the event's argument.
pub open spec fn command_for(script: Seq<char>, arg: Seq<char>) -> Seq<char> {
    script + " "@ + arg
}

/// One hook entry: an object whose `command` mentions the script is ours, and is
/// pointed at `cmd`.
pub open spec fn refresh_hook(h: JsonV, script: Seq<char>, cmd: Seq<char>) -> (JsonV, bool) {
    match h {
        JsonV::Object(ms) => match get(ms, "command"@) {
            Some(JsonV::Str(c)) => if contains(c, script) {
                (JsonV::Object(put(ms, "command"@, JsonV::Str(cmd))), true)
            } else {
                (h, false)
            },
            _ => (h, false),
        },
        _ => (h, false),
    }
}

pub open spec fn refresh_hooks(l: Seq<JsonV>, script: Seq<char>, cmd: Seq<char>) -> (Seq<JsonV>, bool)
    decreases l.len(),
{
    if l.len() == 0 {
        (Seq::empty(), false)
    } else {
        let (p, r) = refresh_hooks(l.drop_last(), script, cmd);
        let (h, rh) = refresh_hook(l.last(), script, cmd);
        (p.push(h), r || rh)
    }
}

/// A group of hooks: its `hooks` list, when it has one, with ours refreshed.
pub open spec fn refresh_group(g: JsonV, script: Seq<char>, cmd: Seq<char>) -> (JsonV, bool) {
    match g {
        JsonV::Object(ms) => match get(ms, "hooks"@) {
            Some(JsonV::Array(l)) => {
                let (l2, r) = refresh_hooks(l, script, cmd);
                (JsonV::Object(put(ms, "hooks"@, JsonV::Array(l2))), r)
            },
            _ => (g, false),
        },
        _ => (g, false),
    }
}

pub open spec fn refresh_groups(gs: Seq<JsonV>, script: Seq<char>, cmd: Seq<char>) -> (Seq<JsonV>, bool)
    decreases gs.len(),
{
    if gs.len() == 0 {
        (Seq::empty(), false)
    } else {
        let (p, r) = refresh_groups(gs.drop_last(), script, cmd);
        let (g, rg) = refresh_group(gs.last(), script, cmd);
        (p.push(g), r || rg)
    }
}

/// A fresh group holding one command hook.
pub open spec fn new_group(cmd: Seq<char>) -> JsonV {
    JsonV::Object(
        seq![
            (
                "hooks"@,
                JsonV::Array(
                    seq![
                        JsonV::Object(
                            seq![("type"@, JsonV::Str("command"@)), ("command"@, JsonV::Str(cmd))],
                        ),
                    ],
                ),
            ),
        ],
    )
}

/// One event of the settings' `hooks` object: its groups (a value that is not a list
/// becomes an empty list), ours refreshed, and a new group when none was ours. The
/// flag says a group was added.
pub open spec fn merge_event(hs: Seq<(Seq<char>, JsonV)>, event: Seq<char>, arg: Seq<char>, script: Seq<char>) -> (
    Seq<(Seq<char>, JsonV)>,
    bool,
) {
    let cmd = command_for(script, arg);
    let gs = match get(hs, event) {
        Some(JsonV::Array(a)) => a,
        _ => Seq::empty(),
    };
    let (gs2, refreshed) = refresh_groups(gs, script, cmd);
    let gs3 = if refreshed {
        gs2
    } else {
        gs2.push(new_group(cmd))
    };
    (put(hs, event, JsonV::Array(gs3)), !refreshed)
}

/// The harness settings with our three hooks merged in, and the events that gained
/// one. A document that is not an object becomes one, and so does a `hooks` member
/// that is not; everything else is left as it was.
pub open spec fn merged(settings: JsonV, script: Seq<char>) -> (JsonV, Seq<Seq<char>>) {
    let sms = match settings {
        JsonV::Object(ms) => ms,
        _ => Seq::empty(),
    };
    let h0 = match get(sms, "hooks"@) {
        Some(JsonV::Object(h)) => h,
        _ => Seq::empty(),
    };
    let (h1, a1) = merge_event(h0, "SessionStart"@, "session-start"@, script);
    let (h2, a2) = merge_event(h1, "UserPromptSubmit"@, "user-prompt-submit"@, script);
    let (h3, a3) = merge_event(h2, "Stop"@, "stop"@, script);
    let added = (if a1 {
        seq!["SessionStart"@]
    } else {
        Seq::empty()
    }) + (if a2 {
        seq!["UserPromptSubmit"@]
    } else {
        Seq::empty()
    }) + (if a3 {
        seq!["Stop"@]
    } else {
        Seq::empty()
    });
    (JsonV::Object(put(sms, "hooks"@, JsonV::Object(h3))), added)
}

proof fn lemma_hook_settles(h: JsonV, script: Seq<char>, cmd: Seq<char>)
    requires
        contains(cmd, script),
    ensures
        refresh_hook(refresh_hook(h, script, cmd).0, script, cmd) == refresh_hook(h, script, cmd),
{
    match h {
        JsonV::Object(ms) => match get(ms, "command"@) {
            Some(JsonV::Str(c)) => if contains(c, script) {
                let p = put(ms, "command"@, JsonV::Str(cmd));
                lemma_put_get(ms, "command"@, JsonV::Str(cmd), "command"@);
                lemma_put_get(p, "command"@, JsonV::Str(cmd), "command"@);
            },
            _ => {},
        },
        _ => {},
    }
}

proof fn lemma_hooks_settle(l: Seq<JsonV>, script: Seq<char>, cmd: Seq<char>)
    requires
        contains(cmd, script),
    ensures
        refresh_hooks(refresh_hooks(l, script, cmd).0, script, cmd) == refresh_hooks(l, script, cmd),
    decreases l.len(),
{
    if l.len() > 0 {
        lemma_hooks_settle(l.drop_last(), script, cmd);
        lemma_hook_settles(l.last(), script, cmd);
        let (p, r) = refresh_hooks(l.drop_last(), script, cmd);
        let (h, rh) = refresh_hook(l.last(), script, cmd);
        let l1 = p.push(h);
        assert(l1.drop_last() =~= p);
        assert(l1.last() == h);
    }
}

proof fn lemma_group_settles(g: JsonV, script: Seq<char>, cmd: Seq<char>)
    requires
        contains(cmd, script),
    ensures
        refresh_group(refresh_group(g, script, cmd).0, script, cmd) == refresh_group(g, script, cmd),
{
    match g {
        JsonV::Object(ms) => match get(ms, "hooks"@) {
            Some(JsonV::Array(l)) => {
                let (l2, r) = refresh_hooks(l, script, cmd);
                let p = put(ms, "hooks"@, JsonV::Array(l2));
                lemma_put_get(ms, "hooks"@, JsonV::Array(l2), "hooks"@);
                lemma_hooks_settle(l, script, cmd);
                lemma_put_get(p, "hooks"@, JsonV::Array(l2), "hooks"@);
            },
            _ => {},
        },
        _ => {},
    }
}

proof fn lemma_groups_settle(gs: Seq<JsonV>, script: Seq<char>, cmd: Seq<char>)
    requires
        contains(cmd, script),
    ensures
        refresh_groups(refresh_groups(gs, script, cmd).0, script, cmd) == refresh_groups(gs, script, cmd),
    decreases gs.len(),
{
    if gs.len() > 0 {
        lemma_groups_settle(gs.drop_last(), script, cmd);
        lemma_group_settles(gs.last(), script, cmd);
        let (p, r) = refresh_groups(gs.drop_last(), script, cmd);
        let (g, rg) = refresh_group(gs.last(), script, cmd);
        let gs1 = p.push(g);
        assert(gs1.drop_last() =~= p);
        assert(gs1.last() == g);
    }
}

proof fn lemma_new_group_is_ours(script: Seq<char>, cmd: Seq<char>)
    requires
        contains(cmd, script),
    ensures
        refresh_group(new_group(cmd), script, cmd) == (new_group(cmd), true),
{
    reveal_strlit("hooks");
    reveal_strlit("type");
    reveal_strlit("command");
    let hook_ms = seq![("type"@, JsonV::Str("command"@)), ("command"@, JsonV::Str(cmd))];
    assert(hook_ms.drop_last() =~= seq![("type"@, JsonV::Str("command"@))]);
    assert(seq![("type"@, JsonV::Str("command"@))].drop_last() =~= Seq::<(Seq<char>, JsonV)>::empty());
    assert("type"@.len() != "command"@.len());
    assert(hook_ms[0].0 != "command"@);
    lemma_first_key_unique(hook_ms, "command"@, 1);
    let hook = JsonV::Object(hook_ms);
    lemma_put_get(hook_ms, "command"@, JsonV::Str(cmd), "command"@);
    assert(refresh_hook(hook, script, cmd) == (hook, true));
    let l = seq![hook];
    assert(l.drop_last() =~= Seq::<JsonV>::empty());
    assert(l.last() == hook);
    assert(refresh_hooks(l.drop_last(), script, cmd) == (Seq::<JsonV>::empty(), false));
    assert(Seq::<JsonV>::empty().push(hook) =~= l);
    assert(refresh_hooks(l, script, cmd) == (l, true));
    let g_ms = seq![("hooks"@, JsonV::Array(l))];
    assert(g_ms.drop_last() =~= Seq::<(Seq<char>, JsonV)>::empty());
    lemma_first_key_unique(g_ms, "hooks"@, 0);
    lemma_put_get(g_ms, "hooks"@, JsonV::Array(l), "hooks"@);
}

proof fn lemma_merge_event_touches_one(
    hs: Seq<(Seq<char>, JsonV)>,
    event: Seq<char>,
    arg: Seq<char>,
    script: Seq<char>,
    other: Seq<char>,
)
    requires
        other != event,
    ensures
        get(merge_event(hs, event, arg, script).0, other) == get(hs, other),
{
    let cmd = command_for(script, arg);
    let gs = match get(hs, event) {
        Some(JsonV::Array(a)) => a,
        _ => Seq::<JsonV>::empty(),
    };
    let (gs2, refreshed) = refresh_groups(gs, script, cmd);
    let gs3 = if refreshed {
        gs2
    } else {
        gs2.push(new_group(cmd))
    };
    lemma_put_get(hs, event, JsonV::Array(gs3), other);
}

/// The groups of an event once settled: refreshing them changes nothing and finds
/// ours.
pub open spec fn settled(gs: Seq<JsonV>, script: Seq<char>, cmd: Seq<char>) -> bool {
    refresh_groups(gs, script, cmd) == (gs, true)
}

proof fn lemma_event_settles(hs: Seq<(Seq<char>, JsonV)>, event: Seq<char>, arg: Seq<char>, script: Seq<char>)
    ensures
        get(merge_event(hs, event, arg, script).0, event) matches Some(JsonV::Array(gs)) && settled(
            gs,
            script,
            command_for(script, arg),
        ),
{
    let cmd = command_for(script, arg);
    assert(contains(cmd, script)) by {
        crate::text::lemma_contains_prefix(script, " "@ + arg);
        assert(script + (" "@ + arg) =~= cmd);
    }
    let gs = match get(hs, event) {
        Some(JsonV::Array(a)) => a,
        _ => Seq::<JsonV>::empty(),
    };
    let (gs2, refreshed) = refresh_groups(gs, script, cmd);
    let gs3 = if refreshed {
        gs2
    } else {
        gs2.push(new_group(cmd))
    };
    lemma_put_get(hs, event, JsonV::Array(gs3), event);
    lemma_groups_settle(gs, script, cmd);
    if !refreshed {
        lemma_new_group_is_ours(script, cmd);
        assert(gs3.drop_last() =~= gs2);
        assert(gs3.last() == new_group(cmd));
    }
}

proof fn lemma_settled_event_is_left_alone(
    hs: Seq<(Seq<char>, JsonV)>,
    event: Seq<char>,
    arg: Seq<char>,
    script: Seq<char>,
    gs: Seq<JsonV>,
)
    requires
        get(hs, event) == Some(JsonV::Array(gs)),
        settled(gs, script, command_for(script, arg)),
    ensures
        merge_event(hs, event, arg, script) == (hs, false),
{
    lemma_put_get(hs, event, JsonV::Array(gs), event);
}

/// Merging keeps every earlier setting: in a settings object, every member other than
/// `hooks` reads as before, and in its `hooks` object every event other than the three
/// that get our hook reads as before.
pub proof fn law_merging_hooks_keeps_every_other_setting(
    ms: Seq<(Seq<char>, JsonV)>,
    script: Seq<char>,
    key: Seq<char>,
    event: Seq<char>,
)
    requires
        key != "hooks"@,
        event != "SessionStart"@ && event != "UserPromptSubmit"@ && event != "Stop"@,
    ensures
        merged(JsonV::Object(ms), script).0 matches JsonV::Object(out) && get(out, key) == get(ms, key) && (get(
            out,
            "hooks"@,
        ) matches Some(JsonV::Object(h)) && (get(ms, "hooks"@) matches Some(JsonV::Object(h0)) ==> get(h, event)
            == get(h0, event))),
{
    let h0 = match get(ms, "hooks"@) {
        Some(JsonV::Object(h)) => h,
        _ => Seq::empty(),
    };
    let h1 = merge_event(h0, "SessionStart"@, "session-start"@, script).0;
    let h2 = merge_event(h1, "UserPromptSubmit"@, "user-prompt-submit"@, script).0;
    let h3 = merge_event(h2, "Stop"@, "stop"@, script).0;
    lemma_put_get(ms, "hooks"@, JsonV::Object(h3), key);
    let c1 = command_for(script, "session-start"@);
    let c2 = command_for(script, "user-prompt-submit"@);
    let c3 = command_for(script, "stop"@);
    let gs1 = match get(h0, "SessionStart"@) { Some(JsonV::Array(a)) => a, _ => Seq::empty() };
    let (x1, r1) = refresh_groups(gs1, script, c1);
    lemma_put_get(h0, "SessionStart"@, JsonV::Array(if r1 { x1 } else { x1.push(new_group(c1)) }), event);
    let gs2 = match get(h1, "UserPromptSubmit"@) { Some(JsonV::Array(a)) => a, _ => Seq::empty() };
    let (x2, r2) = refresh_groups(gs2, script, c2);
    lemma_put_get(h1, "UserPromptSubmit"@, JsonV::Array(if r2 { x2 } else { x2.push(new_group(c2)) }), event);
    let gs3 = match get(h2, "Stop"@) { Some(JsonV::Array(a)) => a, _ => Seq::empty() };
    let (x3, r3) = refresh_groups(gs3, script, c3);
    lemma_put_get(h2, "Stop"@, JsonV::Array(if r3 { x3 } else { x3.push(new_group(c3)) }), event);
}

/// Merging our hooks a second time changes nothing and adds nothing: the first merge
/// left every event with a group that is ours and pointed at the right command.
pub proof fn law_merging_hooks_twice_changes_nothing(settings: JsonV, script: Seq<char>)
    ensures
        merged(merged(settings, script).0, script) == (merged(settings, script).0, Seq::<Seq<char>>::empty()),
{
    reveal_strlit("SessionStart");
    reveal_strlit("UserPromptSubmit");
    reveal_strlit("Stop");
    reveal_strlit("hooks");
    let e1 = "SessionStart"@;
    let e2 = "UserPromptSubmit"@;
    let e3 = "Stop"@;
    assert(e1 != e2 && e1 != e3 && e2 != e3) by {
        assert(e1.len() != e2.len() && e1.len() != e3.len() && e2.len() != e3.len());
    }
    let sms = match settings {
        JsonV::Object(ms) => ms,
        _ => Seq::empty(),
    };
    let h0 = match get(sms, "hooks"@) {
        Some(JsonV::Object(h)) => h,
        _ => Seq::empty(),
    };
    let (h1, a1) = merge_event(h0, e1, "session-start"@, script);
    let (h2, a2) = merge_event(h1, e2, "user-prompt-submit"@, script);
    let (h3, a3) = merge_event(h2, e3, "stop"@, script);
    lemma_event_settles(h0, e1, "session-start"@, script);
    lemma_event_settles(h1, e2, "user-prompt-submit"@, script);
    lemma_event_settles(h2, e3, "stop"@, script);
    let g1 = get(h1, e1);
    let g2 = get(h2, e2);
    let g3 = get(h3, e3);
    // Later events write other members, so each event's groups survive to the end.
    lemma_merge_event_touches_one(h1, e2, "user-prompt-submit"@, script, e1);
    lemma_merge_event_touches_one(h2, e3, "stop"@, script, e1);
    lemma_merge_event_touches_one(h2, e3, "stop"@, script, e2);
    let s1 = put(sms, "hooks"@, JsonV::Object(h3));
    lemma_put_get(sms, "hooks"@, JsonV::Object(h3), "hooks"@);
    lemma_settled_event_is_left_alone(h3, e1, "session-start"@, script, g1->0->Array_0);
    lemma_settled_event_is_left_alone(h3, e2, "user-prompt-submit"@, script, g2->0->Array_0);
    lemma_settled_event_is_left_alone(h3, e3, "stop"@, script, g3->0->Array_0);
    lemma_put_get(s1, "hooks"@, JsonV::Object(h3), "hooks"@);
    assert(Seq::<Seq<char>>::empty() + Seq::<Seq<char>>::empty() + Seq::<Seq<char>>::empty() =~= Seq::<
        Seq<char>,
    >::empty());
}

// ---------------------------------------------------------------------------
// The merge, run
// ---------------------------------------------------------------------------

pub(crate) fn copy_members(ms: &Vec<Member>) -> (r: Vec<Member>)
    ensures
        members_v(r@) == members_v(ms@),
{
    let mut out: Vec<Member> = Vec::new();
    let mut i: usize = 0;
    while i < ms.len()
        invariant
            i <= ms@.len(),
            out@.len() == i,
            forall|k: int| 0 <= k < i ==> (#[trigger] out@[k]).key@ == ms@[k].key@ && jv(out@[k].value) == jv(ms@[k].value),
        decreases ms.len() - i,
    {
        let v = ms[i].value.copied();
        out.push(Member { key: ms[i].key.clone(), value: v });
        i += 1;
    }
    assert(members_v(out@) =~= members_v(ms@));
    out
}

fn refresh_hook_x(h: &Json, script: &str, cmd: &str) -> (r: (Json, bool))
    ensures
        (jv(r.0), r.1) == refresh_hook(jv(*h), script@, cmd@),
{
    match h {
        Json::Object(ms) => {
            proof {
                lemma_jv_object(*ms);
                lemma_first_key(members_v(ms@), "command"@);
            }
            match find_key(ms, "command") {
                Some(i) => match &ms[i].value {
                    Json::Str(c) => {
                        let cv = chars_of(c.as_str());
                        if crate::text::has_str(&cv, script) {
                            let c2 = copy_members(ms);
                            let p = put_member(c2, "command", Json::Str(cmd.to_string()));
                            proof {
                                lemma_jv_object(p);
                            }
                            (Json::Object(p), true)
                        } else {
                            (h.copied(), false)
                        }
                    },
                    _ => (h.copied(), false),
                },
                None => (h.copied(), false),
            }
        },
        _ => (h.copied(), false),
    }
}

fn refresh_hooks_x(l: &Vec<Json>, script: &str, cmd: &str) -> (r: (Vec<Json>, bool))
    ensures
        (items_v(r.0@), r.1) == refresh_hooks(items_v(l@), script@, cmd@),
{
    let ghost lv = items_v(l@);
    let mut out: Vec<Json> = Vec::new();
    let mut any = false;
    let mut i: usize = 0;
    assert(items_v(out@) =~= Seq::<JsonV>::empty());
    assert(lv.take(0) =~= Seq::<JsonV>::empty());
    while i < l.len()
        invariant
            i <= l@.len(),
            lv == items_v(l@),
            (items_v(out@), any) == refresh_hooks(lv.take(i as int), script@, cmd@),
        decreases l.len() - i,
    {
        assert(lv.take(i + 1).drop_last() =~= lv.take(i as int));
        assert(lv.take(i + 1).last() == jv(l@[i as int]));
        let (h, rh) = refresh_hook_x(&l[i], script, cmd);
        let ghost before = items_v(out@);
        out.push(h);
        assert(items_v(out@) =~= before.push(jv(h)));
        any = any || rh;
        i += 1;
    }
    assert(lv.take(l@.len() as int) =~= lv);
    (out, any)
}

fn refresh_group_x(g: &Json, script: &str, cmd: &str) -> (r: (Json, bool))
    ensures
        (jv(r.0), r.1) == refresh_group(jv(*g), script@, cmd@),
{
    match g {
        Json::Object(ms) => {
            proof {
                lemma_jv_object(*ms);
                lemma_first_key(members_v(ms@), "hooks"@);
            }
            match find_key(ms, "hooks") {
                Some(i) => match &ms[i].value {
                    Json::Array(l) => {
                        proof {
                            lemma_jv_array(*l);
                        }
                        let (l2, any) = refresh_hooks_x(l, script, cmd);
                        let c2 = copy_members(ms);
                        let p = put_member(c2, "hooks", Json::Array(l2));
                        proof {
                            lemma_jv_object(p);
                            lemma_jv_array(l2);
                        }
                        (Json::Object(p), any)
                    },
                    _ => (g.copied(), false),
                },
                None => (g.copied(), false),
            }
        },
        _ => (g.copied(), false),
    }
}

fn refresh_groups_x(gs: &Vec<Json>, script: &str, cmd: &str) -> (r: (Vec<Json>, bool))
    ensures
        (items_v(r.0@), r.1) == refresh_groups(items_v(gs@), script@, cmd@),
{
    let ghost gv = items_v(gs@);
    let mut out: Vec<Json> = Vec::new();
    let mut any = false;
    let mut i: usize = 0;
    assert(items_v(out@) =~= Seq::<JsonV>::empty());
    assert(gv.take(0) =~= Seq::<JsonV>::empty());
    while i < gs.len()
        invariant
            i <= gs@.len(),
            gv == items_v(gs@),
            (items_v(out@), any) == refresh_groups(gv.take(i as int), script@, cmd@),
        decreases gs.len() - i,
    {
        assert(gv.take(i + 1).drop_last() =~= gv.take(i as int));
        assert(gv.take(i + 1).last() == jv(gs@[i as int]));
        let (g, rg) = refresh_group_x(&gs[i], script, cmd);
        let ghost before = items_v(out@);
        out.push(g);
        assert(items_v(out@) =~= before.push(jv(g)));
        any = any || rg;
        i += 1;
    }
    assert(gv.take(gs@.len() as int) =~= gv);
    (out, any)
}

fn new_group_x(cmd: &str) -> (r: Json)
    ensures
        jv(r) == new_group(cmd@),
{
    let hook_ms = vec![
        Member { key: "type".to_string(), value: Json::Str("command".to_string()) },
        Member { key: "command".to_string(), value: Json::Str(cmd.to_string()) },
    ];
    proof {
        lemma_jv_object(hook_ms);
        assert(jv(hook_ms@[0].value) == JsonV::Str("command"@));
        assert(jv(hook_ms@[1].value) == JsonV::Str(cmd@));
        assert(members_v(hook_ms@) =~= seq![("type"@, JsonV::Str("command"@)), ("command"@, JsonV::Str(cmd@))]);
    }
    let hook = Json::Object(hook_ms);
    let list = vec![hook];
    proof {
        lemma_jv_array(list);
        assert(items_v(list@) =~= seq![jv(hook)]);
    }
    let arr = Json::Array(list);
    let g_ms = vec![Member { key: "hooks".to_string(), value: arr }];
    proof {
        lemma_jv_object(g_ms);
        assert(members_v(g_ms@) =~= seq![("hooks"@, jv(arr))]);
    }
    Json::Object(g_ms)
}

/// One event of the merge, run: see `merge_event`.
pub(crate) fn merge_event_x(hs: Vec<Member>, event: &str, arg: &str, script: &str) -> (r: (Vec<Member>, bool))
    ensures
        (members_v(r.0@), r.1) == merge_event(members_v(hs@), event@, arg@, script@),
{
    let mut cv: Vec<char> = chars_of(script);
    crate::text::push_str(&mut cv, " ");
    crate::text::push_str(&mut cv, arg);
    let cmd = crate::text::string_of(&cv);
    proof {
        lemma_first_key(members_v(hs@), event@);
    }
    let (gs2, refreshed) = match find_key(&hs, event) {
        Some(i) => match &hs[i].value {
            Json::Array(a) => {
                proof {
                    lemma_jv_array(*a);
                }
                refresh_groups_x(a, script, cmd.as_str())
            },
            _ => {
                let e: Vec<Json> = Vec::new();
                assert(items_v(e@) =~= Seq::<JsonV>::empty());
                refresh_groups_x(&e, script, cmd.as_str())
            },
        },
        None => {
            let e: Vec<Json> = Vec::new();
            assert(items_v(e@) =~= Seq::<JsonV>::empty());
            refresh_groups_x(&e, script, cmd.as_str())
        },
    };
    let mut gs3 = gs2;
    if !refreshed {
        let ghost before = items_v(gs3@);
        let ng = new_group_x(cmd.as_str());
        gs3.push(ng);
        assert(items_v(gs3@) =~= before.push(new_group(cmd@)));
    }
    proof {
        lemma_jv_array(gs3);
    }
    let out = put_member(hs, event, Json::Array(gs3));
    (out, !refreshed)
}

// ---------------------------------------------------------------------------
// Text in and out, through serde_json
// ---------------------------------------------------------------------------

#[verifier::external_type_specification]
#[verifier::external_body]
pub struct ExValue(serde_json::Value);

pub open spec fn opt_jv(o: Option<Json>) -> Option<JsonV> {
    match o {
        Some(j) => Some(jv(j)),
        None => None,
    }
}

/// What `serde_json::from_str::<serde_json::Value>` makes of a text, as a document, or
/// `None` where it refuses the text.
pub uninterp spec fn json_text(raw: Seq<char>) -> Option<JsonV>;

/// What `serde_json::to_string_pretty` writes for a document.
pub uninterp spec fn pretty_json(j: JsonV) -> Seq<char>;

/// A `serde_json::Value` as the library's document, member for member and item for
/// item; a number keeps the text serde_json gives it.
#[verifier::external_body]
fn json_of_value(v: &serde_json::Value) -> Json {
    match v {
        serde_json::Value::Null => Json::Null,
        serde_json::Value::Bool(b) => Json::Bool(*b),
        serde_json::Value::Number(n) => Json::Number(n.to_string()),
        serde_json::Value::String(s) => Json::Str(s.clone()),
        serde_json::Value::Array(items) => Json::Array(items.iter().map(json_of_value).collect()),
        serde_json::Value::Object(map) => Json::Object(
            map.iter().map(|(k, x)| Member { key: k.clone(), value: json_of_value(x) }).collect(),
        ),
    }
}

/// The library's document as a `serde_json::Value`; a number whose text serde_json
/// does not read as one becomes `null`.
#[verifier::external_body]
fn value_of_json(j: &Json) -> serde_json::Value {
    match j {
        Json::Null => serde_json::Value::Null,
        Json::Bool(b) => serde_json::Value::Bool(*b),
        Json::Number(n) => n.parse::<serde_json::Number>().map(serde_json::Value::Number).unwrap_or(serde_json::Value::Null),
        Json::Str(s) => serde_json::Value::String(s.clone()),
        Json::Array(items) => serde_json::Value::Array(items.iter().map(value_of_json).collect()),
        Json::Object(ms) => serde_json::Value::Object(
            ms.iter().map(|m| (m.key.clone(), value_of_json(&m.value))).collect(),
        ),
    }
}

/// Reads a text with `serde_json::from_str` into a `serde_json::Value`. The contract
/// claims only that the result is the named `json_text` of the text: serde_json's
/// grammar is not restated.
#[verifier::external_body]
pub(crate) fn parse_json_text(raw: &str) -> (r: Option<Json>)
    ensures
        opt_jv(r) == json_text(raw@),
{
    match serde_json::from_str::<serde_json::Value>(raw) {
        Ok(v) => Some(json_of_value(&v)),
        Err(_) => None,
    }
}

/// Writes a document with `serde_json::to_string_pretty`. The contract claims only
/// that the text is the named `pretty_json` of the document.
#[verifier::external_body]
pub(crate) fn pretty_json_text(j: &Json) -> (r: String)
    ensures
        r@ == pretty_json(jv(*j)),
{
    serde_json::to_string_pretty(&value_of_json(j)).unwrap_or_default()
}

} // verus!
