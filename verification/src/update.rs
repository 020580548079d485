//! Reading back how the binary was installed, so a rebuild reproduces it: the
//! source and the feature list come from cargo's own records rather than a guess,
//! because a rebuild that drops a feature breaks it with no error.
use vstd::prelude::*;

use crate::json::{jv, lemma_first_key, lemma_jv_object, members_v, Json, Member};
use crate::parse::opt_view;
use crate::text::{
    chars_of, find, find_in, join, joined_str,
    lemma_find_from_bounds, lemma_views_push, lines, lines_of, push_all, push_str, slice_of,
    split_once, split_once_of, starts_with, strip_prefix, strip_prefix_of, string_of, trim,
    trim_in, trimmed, trimmed_in, views,
};

verus! {

pub const SKILL_NAME: &'static str = "ai-planner";

/// The events the hook script serves, with the argument each passes.
pub const HOOK_EVENTS: [(&'static str, &'static str); 3] = [
    ("SessionStart", "session-start"),
    ("UserPromptSubmit", "user-prompt-submit"),
    ("Stop", "stop"),
];

/// Where cargo installed this from.
#[derive(Debug, Clone, PartialEq, Eq)]
pub enum Source {
    /// A local clone. Updating means rebuilding whatever is in that directory now.
    Path(String),
    /// A git remote, pinned to the commit that was built.
    Git { url: String, sha: Option<String> },
    /// crates.io.
    Registry,
}

#[derive(Debug, Clone, PartialEq, Eq)]
pub struct Install {
    pub version: String,
    pub source: Source,
    pub features: Vec<String>,
    pub all_features: bool,
    pub no_default_features: bool,
}

pub open spec fn strs(v: Seq<String>) -> Seq<Seq<char>> {
    v.map_values(|s: String| s@)
}

/// The `cargo install` arguments that reproduce an install: its source, `--force`
/// (the version does not change between commits), `--locked`, and its features.
pub open spec fn install_args(i: Install) -> Seq<Seq<char>> {
    let a0 = seq!["install"@];
    let a1 = match i.source {
        Source::Path(p) => a0 + seq!["--path"@, p@],
        Source::Git { url, .. } => a0 + seq!["--git"@, url@, "ai-planner"@],
        Source::Registry => a0.push("ai-planner"@),
    };
    let a2 = a1 + seq!["--force"@, "--locked"@];
    let a3 = if i.all_features {
        a2.push("--all-features"@)
    } else if i.features@.len() > 0 {
        a2 + seq!["--features"@, join(strs(i.features@), ","@)]
    } else {
        a2
    };
    if i.no_default_features {
        a3.push("--no-default-features"@)
    } else {
        a3
    }
}

fn push_arg(args: &mut Vec<String>, a: String)
    ensures
        strs(final(args)@) == strs(old(args)@).push(a@),
{
    args.push(a);
    assert(strs(args@) =~= strs(old(args)@).push(a@));
}

pub(crate) fn copy_strings(v: &Vec<String>) -> (r: Vec<Vec<char>>)
    ensures
        views(r@) == strs(v@),
{
    let mut out: Vec<Vec<char>> = Vec::new();
    let mut i: usize = 0;
    while i < v.len()
        invariant
            i <= v@.len(),
            views(out@) == strs(v@).take(i as int),
        decreases v.len() - i,
    {
        let c = chars_of(v[i].as_str());
        proof {
            lemma_views_push(out@, c);
        }
        out.push(c);
        assert(views(out@) =~= strs(v@).take(i + 1));
        i += 1;
    }
    assert(strs(v@).take(v@.len() as int) =~= strs(v@));
    out
}

/// How many characters from `i` on fit in what is left of ten bytes.
pub open spec fn fit_from(h: Seq<char>, i: int, used: int) -> int
    decreases h.len() - i,
{
    if i < 0 || i >= h.len() || used + crate::text::utf8_len(h[i]) > 10 {
        i
    } else {
        fit_from(h, i + 1, used + crate::text::utf8_len(h[i]))
    }
}

/// A commit id as it is shown: its first ten bytes, or all of it when shorter, cut back
/// to a whole character (a hex id is always cut at ten characters).
pub open spec fn short_commit(h: Seq<char>) -> Seq<char> {
    h.take(fit_from(h, 0, 0))
}

/// How the source reads, with a git commit shortened.
pub open spec fn where_text(s: Source) -> Seq<char> {
    match s {
        Source::Path(p) => "local clone "@ + p@,
        Source::Git { url, sha } => match sha {
            Some(h) => url@ + " @ "@ + short_commit(h@),
            None => url@,
        },
        Source::Registry => "crates.io"@,
    }
}

pub open spec fn description(i: Install) -> Seq<char> {
    if i.features@.len() == 0 {
        where_text(i.source)
    } else {
        where_text(i.source) + " (features: "@ + join(strs(i.features@), ", "@) + ")"@
    }
}

impl Install {
    /// The `cargo install` invocation that reproduces this install.
    pub fn cargo_args(&self) -> (r: Vec<String>)
        ensures
            strs(r@) == install_args(*self),
    {
        let mut args: Vec<String> = Vec::new();
        assert(strs(args@) =~= Seq::<Seq<char>>::empty());
        push_arg(&mut args, "install".to_string());
        match &self.source {
            Source::Path(p) => {
                push_arg(&mut args, "--path".to_string());
                push_arg(&mut args, p.clone());
            },
            Source::Git { url, .. } => {
                push_arg(&mut args, "--git".to_string());
                push_arg(&mut args, url.clone());
                push_arg(&mut args, "ai-planner".to_string());
            },
            Source::Registry => push_arg(&mut args, "ai-planner".to_string()),
        }
        push_arg(&mut args, "--force".to_string());
        push_arg(&mut args, "--locked".to_string());
        if self.all_features {
            push_arg(&mut args, "--all-features".to_string());
        } else if self.features.len() > 0 {
            push_arg(&mut args, "--features".to_string());
            let fs = copy_strings(&self.features);
            let j = joined_str(&fs, ",");
            push_arg(&mut args, string_of(&j));
        }
        if self.no_default_features {
            push_arg(&mut args, "--no-default-features".to_string());
        }
        assert(strs(args@) =~= install_args(*self));
        args
    }

    /// Where it was installed from, and with which features.
    pub fn describe(&self) -> (r: String)
        ensures
            r@ == description(*self),
    {
        let mut out: Vec<char> = Vec::new();
        match &self.source {
            Source::Path(p) => {
                push_str(&mut out, "local clone ");
                push_str(&mut out, p.as_str());
            },
            Source::Git { url, sha } => {
                push_str(&mut out, url.as_str());
                match sha {
                    Some(h) => {
                        push_str(&mut out, " @ ");
                        let head = cut_commit(h.as_str());
                        push_all(&mut out, &head);
                    },
                    None => {},
                }
            },
            Source::Registry => push_str(&mut out, "crates.io"),
        }
        assert(out@ =~= where_text(self.source));
        if self.features.len() > 0 {
            push_str(&mut out, " (features: ");
            let fs = copy_strings(&self.features);
            let j = joined_str(&fs, ", ");
            push_all(&mut out, &j);
            push_str(&mut out, ")");
        }
        string_of(&out)
    }
}

// ---------------------------------------------------------------------------
// Cargo's records
// ---------------------------------------------------------------------------

pub enum SourceV {
    Path(Seq<char>),
    Git(Seq<char>, Option<Seq<char>>),
    Registry,
}

pub open spec fn source_view(s: Source) -> SourceV {
    match s {
        Source::Path(p) => SourceV::Path(p@),
        Source::Git { url, sha } => SourceV::Git(url@, opt_view(sha)),
        Source::Registry => SourceV::Registry,
    }
}

/// What the parenthesised origin of a cargo key says: a local path, a git URL with
/// the commit after `#`, or the registry.
pub open spec fn origin_source(inner: Seq<char>) -> Option<SourceV> {
    match strip_prefix(inner, "path+file://"@) {
        Some(rest) => Some(SourceV::Path(rest)),
        None => match strip_prefix(inner, "git+"@) {
            Some(rest) => match split_once(rest, "#"@) {
                Some((url, sha)) => Some(SourceV::Git(url, Some(sha))),
                None => Some(SourceV::Git(rest, None)),
            },
            None => if starts_with(inner, "registry+"@) {
                Some(SourceV::Registry)
            } else {
                None
            },
        },
    }
}

/// `ai-planner 0.1.0 (git+https://github.com/...#930e0bf)`: name, version, source.
pub open spec fn key_parts(key: Seq<char>) -> Option<(Seq<char>, Seq<char>, SourceV)> {
    match split_once(key, " "@) {
        Some((name, r1)) => match split_once(r1, " "@) {
            Some((version, r2)) => match strip_prefix(trim(r2), "("@) {
                Some(o1) => match crate::text::strip_suffix(o1, ")"@) {
                    Some(inner) => match origin_source(inner) {
                        Some(src) => Some((name, version, src)),
                        None => None,
                    },
                    None => None,
                },
                None => None,
            },
            None => None,
        },
        None => None,
    }
}

fn origin_source_of(inner: &[char]) -> (r: Option<Source>)
    ensures
        match r {
            Some(x) => origin_source(inner@) == Some(source_view(x)),
            None => origin_source(inner@) is None,
        },
{
    if let Some(rest) = strip_prefix_of(inner, "path+file://") {
        return Some(Source::Path(string_of(&rest)));
    }
    if let Some(rest) = strip_prefix_of(inner, "git+") {
        return match split_once_of(&rest, "#") {
            Some((url, sha)) => Some(Source::Git { url: string_of(&url), sha: Some(string_of(&sha)) }),
            None => Some(Source::Git { url: string_of(&rest), sha: None }),
        };
    }
    if crate::text::starts_str(inner, "registry+") {
        Some(Source::Registry)
    } else {
        None
    }
}

/// Name, version and source out of one key of cargo's `.crates.toml`.
pub fn parse_key(key: &str) -> (r: Option<(String, String, Source)>)
    ensures
        match r {
            Some((n, v, src)) => key_parts(key@) == Some((n@, v@, source_view(src))),
            None => key_parts(key@) is None,
        },
{
    let k = chars_of(key);
    let (name, r1) = match split_once_of(&k, " ") {
        Some(p) => p,
        None => return None,
    };
    let (version, r2) = match split_once_of(&r1, " ") {
        Some(p) => p,
        None => return None,
    };
    let origin = trimmed(&r2);
    let o1 = match strip_prefix_of(&origin, "(") {
        Some(o) => o,
        None => return None,
    };
    let inner = match crate::text::strip_suffix_of(&o1, ")") {
        Some(i) => i,
        None => return None,
    };
    match origin_source_of(&inner) {
        Some(src) => Some((string_of(&name), string_of(&version), src)),
        None => None,
    }
}

/// A line of `.crates.toml` names an install: its key, quoted, before ` = `.
pub open spec fn line_key(line: Seq<char>) -> Option<Seq<char>> {
    match split_once(line, " = "@) {
        Some((k, _)) => Some(trim_in(trim(k), seq!['"'])),
        None => None,
    }
}

/// The first install of `package` in `.crates.toml`: its key, version and source.
pub open spec fn entry_from(ls: Seq<Seq<char>>, package: Seq<char>, i: int) -> Option<(Seq<char>, Seq<char>, SourceV)>
    decreases ls.len() - i,
{
    if i < 0 || i >= ls.len() {
        None
    } else {
        match line_key(ls[i]) {
            Some(k) => match key_parts(k) {
                Some((name, version, src)) => if name == package {
                    Some((k, version, src))
                } else {
                    entry_from(ls, package, i + 1)
                },
                None => entry_from(ls, package, i + 1),
            },
            None => entry_from(ls, package, i + 1),
        }
    }
}

pub fn install_entry(crates_toml: &str, package: &str) -> (r: Option<(String, String, Source)>)
    ensures
        match r {
            Some((k, v, src)) => entry_from(lines(crates_toml@), package@, 0) == Some(
                (k@, v@, source_view(src)),
            ),
            None => entry_from(lines(crates_toml@), package@, 0) is None,
        },
{
    let cs = chars_of(crates_toml);
    let ls = lines_of(&cs);
    let pk = chars_of(package);
    let quote = ['"'];
    assert(quote@ =~= seq!['"']);
    let mut i: usize = 0;
    while i < ls.len()
        invariant
            i <= ls@.len(),
            views(ls@) == lines(crates_toml@),
            pk@ == package@,
            quote@ == seq!['"'],
            entry_from(lines(crates_toml@), package@, 0) == entry_from(
                lines(crates_toml@),
                package@,
                i as int,
            ),
        decreases ls.len() - i,
    {
        assert(views(ls@)[i as int] == ls@[i as int]@);
        if let Some((k, _)) = split_once_of(&ls[i], " = ") {
            let kt = trimmed(&k);
            let key = trimmed_in(&kt, &quote);
            let ks = string_of(&key);
            if let Some((name, version, src)) = parse_key(ks.as_str()) {
                let nv = chars_of(name.as_str());
                if crate::text::eq_chars(&nv, &pk) {
                    return Some((ks, version, src));
                }
            }
        }
        i += 1;
    }
    None
}

/// A relative path under a directory, joined as `Path::join` joins them: with a
/// separator between unless the directory is empty or already ends in one.
pub open spec fn under(dir: Seq<char>, rest: Seq<char>) -> Seq<char> {
    if dir.len() == 0 || dir.last() == '/' {
        dir + rest
    } else {
        dir + "/"@ + rest
    }
}

fn join_under(dir: &str, rest: &str) -> (r: String)
    ensures
        r@ == under(dir@, rest@),
{
    let mut out = chars_of(dir);
    if out.len() > 0 && out[out.len() - 1] != '/' {
        out.push('/');
    }
    let ghost mid = out@;
    push_str(&mut out, rest);
    proof {
        reveal_strlit("/");
        if dir@.len() > 0 && dir@.last() != '/' {
            assert(mid == dir@ + "/"@);
        } else {
            assert(mid == dir@);
        }
    }
    string_of(&out)
}

/// Where the hook script goes: the project's `.agents/hooks`, or the user's.
pub open spec fn hook_dir_of(project: bool, home: Seq<char>) -> Seq<char> {
    if project {
        ".agents/hooks"@
    } else {
        under(home, ".ai-planner/hooks"@)
    }
}

pub fn hook_dir(project: bool, home: &str) -> (r: String)
    ensures
        r@ == hook_dir_of(project, home@),
{
    if project {
        ".agents/hooks".to_string()
    } else {
        join_under(home, ".ai-planner/hooks")
    }
}

/// The directory a path starts from: the project's (the working directory) or the
/// user's home.
pub open spec fn scope_root(project: bool, home: Seq<char>) -> Seq<char> {
    if project {
        Seq::empty()
    } else {
        home
    }
}

/// Where the skill goes: both conventions, because the harnesses disagree. `harness`
/// is the harness's own configuration directory, such as `.codex`; the other is the
/// shared `.agents`.
pub open spec fn skill_targets_of(project: bool, home: Seq<char>, harness: Seq<char>) -> Seq<Seq<char>> {
    seq![
        under(scope_root(project, home), harness + "/skills/ai-planner"@),
        under(scope_root(project, home), ".agents/skills/ai-planner"@),
    ]
}

pub fn skill_targets(project: bool, home: &str, harness: &str) -> (r: Vec<String>)
    ensures
        strs(r@) == skill_targets_of(project, home@, harness@),
{
    let root = if project { "" } else { home };
    proof {
        reveal_strlit("");
        assert(root@ == scope_root(project, home@));
    }
    let mut own = chars_of(harness);
    push_str(&mut own, "/skills/ai-planner");
    let own_s = string_of(&own);
    let a = join_under(root, own_s.as_str());
    let b = join_under(root, ".agents/skills/ai-planner");
    let r = vec![a, b];
    assert(strs(r@) =~= skill_targets_of(project, home@, harness@));
    r
}

/// The harness's settings file, in the project or in the user's home.
pub open spec fn settings_path_of(project: bool, home: Seq<char>, harness: Seq<char>) -> Seq<char> {
    under(scope_root(project, home), harness + "/settings.json"@)
}

pub fn settings_path(project: bool, home: &str, harness: &str) -> (r: String)
    ensures
        r@ == settings_path_of(project, home@, harness@),
{
    let root = if project { "" } else { home };
    proof {
        reveal_strlit("");
        assert(root@ == scope_root(project, home@));
    }
    let mut own = chars_of(harness);
    push_str(&mut own, "/settings.json");
    let own_s = string_of(&own);
    join_under(root, own_s.as_str())
}

/// A rebuild keeps what the install had: with features chosen (and not all of them),
/// the arguments name exactly those features, comma-separated, after `--features`.
pub proof fn law_a_rebuild_keeps_the_features(i: Install)
    requires
        !i.all_features,
        i.features@.len() > 0,
    ensures
        exists|k: int|
            0 <= k < install_args(i).len() - 1 && #[trigger] install_args(i)[k] == "--features"@ && install_args(i)[k + 1]
                == join(strs(i.features@), ","@),
{
    let a = install_args(i);
    let a2 = match i.source {
        Source::Path(p) => seq!["install"@] + seq!["--path"@, p@],
        Source::Git { url, .. } => seq!["install"@] + seq!["--git"@, url@, "ai-planner"@],
        Source::Registry => seq!["install"@].push("ai-planner"@),
    } + seq!["--force"@, "--locked"@];
    let k = a2.len() as int;
    assert(a[k] == "--features"@);
    assert(a[k + 1] == join(strs(i.features@), ","@));
}

// ---------------------------------------------------------------------------
// `aip update`
// ---------------------------------------------------------------------------

fn cut_commit(h: &str) -> (r: Vec<char>)
    ensures
        r@ == short_commit(h@),
{
    let hv = chars_of(h);
    let mut i: usize = 0;
    let mut used: usize = 0;
    while i < hv.len() && used + crate::text::char_utf8_len(hv[i]) <= 10
        invariant
            i <= hv@.len(),
            used <= 10,
            fit_from(hv@, i as int, used as int) == fit_from(hv@, 0, 0),
        decreases hv.len() - i,
    {
        used = used + crate::text::char_utf8_len(hv[i]);
        i += 1;
    }
    assert(fit_from(hv@, i as int, used as int) == i);
    slice_of(&hv, 0, i)
}

/// Whether there is anything to update to, and what to say about it: for a git
/// install, whether the remote's head is the commit that was built; for a local
/// clone, that only the clone's owner knows (and an error when the clone is gone);
/// for crates.io, always.
pub open spec fn availability_of(src: Source, head: Option<Seq<char>>, path_exists: bool, repository: Seq<char>) -> Result<
    (bool, Option<Seq<char>>),
    Seq<char>,
> {
    match src {
        Source::Git { sha, .. } => match head {
            Some(h) => if (match sha {
                Some(b) => h == b@,
                None => false,
            }) {
                Ok((false, Some("  already on the remote's latest commit"@)))
            } else {
                Ok((true, Some("  remote is at "@ + short_commit(h))))
            },
            None => Ok((true, Some("  could not reach the remote - will rebuild anyway"@))),
        },
        Source::Path(p) => if !path_exists {
            Err(
                "the clone it was installed from is gone: "@ + p@ + "\n  Re-install with: cargo install --git "@
                    + repository + " ai-planner --locked"@,
            )
        } else {
            Ok((true, Some("  installed from a local clone - `git pull` there first to get new commits"@)))
        },
        Source::Registry => Ok((true, None)),
    }
}

pub open spec fn availability_view(r: Result<(bool, Option<String>), String>) -> Result<
    (bool, Option<Seq<char>>),
    Seq<char>,
> {
    match r {
        Ok((b, n)) => Ok((b, opt_view(n))),
        Err(e) => Err(e@),
    }
}

pub open spec fn opt_str_view(o: Option<&str>) -> Option<Seq<char>> {
    match o {
        Some(s) => Some(s@),
        None => None,
    }
}

/// `head` is what `git ls-remote` said the remote's HEAD is, when it could be
/// reached; `path_exists` whether a local clone's directory is still there.
pub fn availability(src: &Source, head: Option<&str>, path_exists: bool, repository: &str) -> (r: Result<
    (bool, Option<String>),
    String,
>)
    ensures
        availability_view(r) == availability_of(*src, opt_str_view(head), path_exists, repository@),
{
    match src {
        Source::Git { sha, .. } => match head {
            Some(h) => {
                let same = match sha {
                    Some(b) => {
                        let hv = chars_of(h);
                        let bv = chars_of(b.as_str());
                        crate::text::eq_chars(&hv, &bv)
                    },
                    None => false,
                };
                if same {
                    Ok((false, Some("  already on the remote's latest commit".to_string())))
                } else {
                    let mut out: Vec<char> = Vec::new();
                    push_str(&mut out, "  remote is at ");
                    let c = cut_commit(h);
                    push_all(&mut out, &c);
                    Ok((true, Some(string_of(&out))))
                }
            },
            None => Ok((true, Some("  could not reach the remote - will rebuild anyway".to_string()))),
        },
        Source::Path(p) => {
            if !path_exists {
                let mut out: Vec<char> = Vec::new();
                push_str(&mut out, "the clone it was installed from is gone: ");
                push_str(&mut out, p.as_str());
                push_str(&mut out, "\n  Re-install with: cargo install --git ");
                push_str(&mut out, repository);
                push_str(&mut out, " ai-planner --locked");
                Err(string_of(&out))
            } else {
                Ok(
                    (
                        true,
                        Some(
                            "  installed from a local clone - `git pull` there first to get new commits".to_string(),
                        ),
                    ),
                )
            }
        },
        Source::Registry => Ok((true, None)),
    }
}

/// What `aip update` does once it knows whether there is anything new.
#[derive(Debug, Clone, Copy, PartialEq, Eq, Structural)]
pub enum Next {
    /// `--check`: say what is available and stop.
    Stop,
    /// Nothing new and no `--force`.
    NothingToDo,
    /// Back up the database, reinstall and refresh the setup.
    Rebuild,
}

pub fn next_step(check: bool, available: bool, force: bool) -> (r: Next)
    ensures
        r == if check {
            Next::Stop
        } else if !available && !force {
            Next::NothingToDo
        } else {
            Next::Rebuild
        },
{
    if check {
        Next::Stop
    } else if !available && !force {
        Next::NothingToDo
    } else {
        Next::Rebuild
    }
}

/// A timestamp with its `:`, `-` and `Z` taken out, for a file name.
pub open spec fn stamp_of(now: Seq<char>) -> Seq<char>
    decreases now.len(),
{
    if now.len() == 0 {
        Seq::empty()
    } else {
        stamp_of(now.drop_last()) + if now.last() == ':' || now.last() == '-' || now.last() == 'Z' {
            Seq::empty()
        } else {
            seq![now.last()]
        }
    }
}

/// The copy taken before an update: the database's own name (or `planner.db`), the
/// stamp, and `.pre-update.bak`, beside the database.
pub open spec fn backup_name_of(db_name: Option<Seq<char>>, now: Seq<char>) -> Seq<char> {
    let name = match db_name {
        Some(n) => n,
        None => "planner.db"@,
    };
    name + "."@ + stamp_of(now) + ".pre-update.bak"@
}

pub fn backup_file_name(db_name: Option<&str>, now: &str) -> (r: String)
    ensures
        r@ == backup_name_of(opt_str_view(db_name), now@),
{
    let mut out: Vec<char> = Vec::new();
    match db_name {
        Some(n) => push_str(&mut out, n),
        None => push_str(&mut out, "planner.db"),
    }
    push_str(&mut out, ".");
    let ghost head = out@;
    let v = chars_of(now);
    let mut i: usize = 0;
    while i < v.len()
        invariant
            i <= v@.len(),
            v@ == now@,
            out@ == head + stamp_of(now@.take(i as int)),
        decreases v.len() - i,
    {
        assert(now@.take(i + 1).drop_last() =~= now@.take(i as int));
        let c = v[i];
        if !(c == ':' || c == '-' || c == 'Z') {
            out.push(c);
        }
        assert(out@ =~= head + stamp_of(now@.take(i + 1)));
        i += 1;
    }
    assert(now@.take(now@.len() as int) =~= now@);
    push_str(&mut out, ".pre-update.bak");
    string_of(&out)
}

// ---------------------------------------------------------------------------
// Harness settings
// ---------------------------------------------------------------------------

/// Merge our three hook entries into a harness settings document, leaving every other
/// hook alone. Matching is on the script path rather than the whole command, so an
/// install from before the extra events existed is upgraded in place instead of being
/// left behind as a duplicate. Returns the events that gained an entry.
pub fn merge_hooks(settings: &mut Json, script: &str) -> (r: Vec<String>)
    ensures
        crate::json::jv(*final(settings)) == crate::json::merged(crate::json::jv(*old(settings)), script@).0,
        strs(r@) == crate::json::merged(crate::json::jv(*old(settings)), script@).1,
{
    let ghost before = jv(*settings);
    let sms: Vec<Member> = match &*settings {
        Json::Object(ms) => {
            proof {
                lemma_jv_object(*ms);
            }
            crate::json::copy_members(ms)
        },
        _ => {
            let e: Vec<Member> = Vec::new();
            assert(members_v(e@) =~= Seq::<(Seq<char>, crate::json::JsonV)>::empty());
            e
        },
    };
    proof {
        lemma_first_key(members_v(sms@), "hooks"@);
    }
    let h0: Vec<Member> = match crate::json::find_key(&sms, "hooks") {
        Some(i) => match &sms[i].value {
            Json::Object(h) => {
                proof {
                    lemma_jv_object(*h);
                }
                crate::json::copy_members(h)
            },
            _ => {
                let e: Vec<Member> = Vec::new();
                assert(members_v(e@) =~= Seq::<(Seq<char>, crate::json::JsonV)>::empty());
                e
            },
        },
        None => {
            let e: Vec<Member> = Vec::new();
            assert(members_v(e@) =~= Seq::<(Seq<char>, crate::json::JsonV)>::empty());
            e
        },
    };
    let (h1, a1) = crate::json::merge_event_x(h0, "SessionStart", "session-start", script);
    let (h2, a2) = crate::json::merge_event_x(h1, "UserPromptSubmit", "user-prompt-submit", script);
    let (h3, a3) = crate::json::merge_event_x(h2, "Stop", "stop", script);
    let mut added: Vec<String> = Vec::new();
    assert(strs(added@) =~= Seq::<Seq<char>>::empty());
    if a1 {
        push_arg(&mut added, "SessionStart".to_string());
    }
    if a2 {
        push_arg(&mut added, "UserPromptSubmit".to_string());
    }
    if a3 {
        push_arg(&mut added, "Stop".to_string());
    }
    proof {
        lemma_jv_object(h3);
    }
    let out = crate::json::put_member(sms, "hooks", Json::Object(h3));
    proof {
        lemma_jv_object(out);
    }
    *settings = Json::Object(out);
    assert(strs(added@) =~= crate::json::merged(before, script@).1);
    added
}

// ---------------------------------------------------------------------------
// Cargo's feature record
// ---------------------------------------------------------------------------

/// A member of an object; nothing for any other value (`Value::get`).
pub open spec fn member_of(v: crate::json::JsonV, key: Seq<char>) -> Option<crate::json::JsonV> {
    match v {
        crate::json::JsonV::Object(ms) => crate::json::get(ms, key),
        _ => None,
    }
}

/// The strings of a list, in order, other values skipped.
pub open spec fn strings_in(l: Seq<crate::json::JsonV>) -> Seq<Seq<char>>
    decreases l.len(),
{
    if l.len() == 0 {
        Seq::empty()
    } else {
        strings_in(l.drop_last()) + match l.last() {
            crate::json::JsonV::Str(s) => seq![s],
            _ => Seq::empty(),
        }
    }
}

pub open spec fn flag_in(entry: crate::json::JsonV, key: Seq<char>) -> bool {
    match member_of(entry, key) {
        Some(crate::json::JsonV::Bool(b)) => b,
        _ => false,
    }
}

/// What `.crates2.json` records of an install, by its key under `installs`: the
/// features chosen (the strings of `features`), `all_features` and
/// `no_default_features`; none and false where it says nothing.
pub open spec fn recorded_options(doc: crate::json::JsonV, key: Seq<char>) -> (Seq<Seq<char>>, bool, bool) {
    match member_of(doc, "installs"@) {
        Some(installs) => match member_of(installs, key) {
            Some(entry) => (
                match member_of(entry, "features"@) {
                    Some(crate::json::JsonV::Array(l)) => strings_in(l),
                    _ => Seq::empty(),
                },
                flag_in(entry, "all_features"@),
                flag_in(entry, "no_default_features"@),
            ),
            None => (Seq::empty(), false, false),
        },
        None => (Seq::empty(), false, false),
    }
}

fn member_x<'a>(v: &'a Json, key: &str) -> (r: Option<&'a Json>)
    ensures
        match r {
            Some(m) => member_of(jv(*v), key@) == Some(jv(*m)),
            None => member_of(jv(*v), key@) is None,
        },
{
    match v {
        Json::Object(ms) => {
            proof {
                lemma_jv_object(*ms);
                lemma_first_key(members_v(ms@), key@);
            }
            match crate::json::find_key(ms, key) {
                Some(i) => Some(&ms[i].value),
                None => None,
            }
        },
        _ => None,
    }
}

fn flag_x(entry: &Json, key: &str) -> (r: bool)
    ensures
        r == flag_in(jv(*entry), key@),
{
    match member_x(entry, key) {
        Some(Json::Bool(b)) => *b,
        _ => false,
    }
}

fn strings_x(l: &Vec<Json>) -> (r: Vec<String>)
    ensures
        strs(r@) == strings_in(crate::json::items_v(l@)),
{
    let ghost lv = crate::json::items_v(l@);
    let mut out: Vec<String> = Vec::new();
    assert(strs(out@) =~= Seq::<Seq<char>>::empty());
    assert(lv.take(0) =~= Seq::<crate::json::JsonV>::empty());
    let mut i: usize = 0;
    while i < l.len()
        invariant
            i <= l@.len(),
            lv == crate::json::items_v(l@),
            strs(out@) == strings_in(lv.take(i as int)),
        decreases l.len() - i,
    {
        assert(lv.take(i + 1).drop_last() =~= lv.take(i as int));
        assert(lv.take(i + 1).last() == jv(l@[i as int]));
        match &l[i] {
            Json::Str(s) => {
                push_arg(&mut out, s.clone());
            },
            _ => {},
        }
        assert(strs(out@) =~= strings_in(lv.take(i + 1)));
        i += 1;
    }
    assert(lv.take(l@.len() as int) =~= lv);
    out
}

/// The features, `all_features` and `no_default_features` recorded for `key`.
pub fn install_options(doc: &Json, key: &str) -> (r: (Vec<String>, bool, bool))
    ensures
        (strs(r.0@), r.1, r.2) == recorded_options(jv(*doc), key@),
{
    match member_x(doc, "installs") {
        Some(installs) => match member_x(installs, key) {
            Some(entry) => {
                let features = match member_x(entry, "features") {
                    Some(Json::Array(l)) => {
                        proof {
                            crate::json::lemma_jv_array(*l);
                        }
                        strings_x(l)
                    },
                    _ => {
                        let e: Vec<String> = Vec::new();
                        assert(strs(e@) =~= Seq::<Seq<char>>::empty());
                        e
                    },
                };
                (features, flag_x(entry, "all_features"), flag_x(entry, "no_default_features"))
            },
            None => {
                let e: Vec<String> = Vec::new();
                assert(strs(e@) =~= Seq::<Seq<char>>::empty());
                (e, false, false)
            },
        },
        None => {
            let e: Vec<String> = Vec::new();
            assert(strs(e@) =~= Seq::<Seq<char>>::empty());
            (e, false, false)
        },
    }
}

/// The feature record, when its text could be read and serde_json reads it.
pub open spec fn crates2_doc(crates2: Option<&str>) -> Option<crate::json::JsonV> {
    match crates2 {
        Some(t) => crate::json::json_text(t@),
        None => None,
    }
}

/// How a package was installed, from cargo's two records: `.crates.toml` names the
/// install (none when cargo has no record of it) and the text of `.crates2.json`, when
/// it could be read and is JSON, adds the features it was built with.
pub fn installed(crates_toml: &str, crates2: Option<&str>, package: &str) -> (r: Option<Install>)
    ensures
        match entry_from(lines(crates_toml@), package@, 0) {
            None => r is None,
            Some((k, v, src)) => r matches Some(i) && i.version@ == v && source_view(i.source) == src
                && match crates2_doc(crates2) {
                Some(doc) => (strs(i.features@), i.all_features, i.no_default_features)
                    == recorded_options(doc, k),
                None => i.features@.len() == 0 && !i.all_features && !i.no_default_features,
            },
        },
{
    let (key, version, source) = match install_entry(crates_toml, package) {
        Some(e) => e,
        None => return None,
    };
    let doc = match crates2 {
        Some(t) => crate::json::parse_json_text(t),
        None => None,
    };
    match doc {
        Some(d) => {
            let (features, all_features, no_default_features) = install_options(&d, key.as_str());
            Some(Install { version, source, features, all_features, no_default_features })
        },
        None => Some(Install { version, source, features: Vec::new(), all_features: false, no_default_features: false }),
    }
}

/// What installing the hooks writes back to a settings file read as `raw`: our hook
/// entries merged in, printed as serde_json prints it with a final line break, and the
/// events that gained an entry. `None` when the text is not JSON, so it is left
/// untouched.
pub open spec fn hooked_text(raw: Seq<char>, script: Seq<char>) -> Option<(Seq<char>, Seq<Seq<char>>)> {
    match crate::json::json_text(raw) {
        Some(j) => Some(
            (
                crate::json::pretty_json(crate::json::merged(j, script).0) + "\n"@,
                crate::json::merged(j, script).1,
            ),
        ),
        None => None,
    }
}

/// Merge our hooks into the text of a settings file: the new text to write and the
/// events that gained an entry, or `None` when the text is not JSON.
pub fn hooked_settings(raw: &str, script: &str) -> (r: Option<(String, Vec<String>)>)
    ensures
        match r {
            Some((out, added)) => hooked_text(raw@, script@) == Some((out@, strs(added@))),
            None => hooked_text(raw@, script@) is None,
        },
{
    let mut doc = match crate::json::parse_json_text(raw) {
        Some(d) => d,
        None => return None,
    };
    let added = merge_hooks(&mut doc, script);
    let text = crate::json::pretty_json_text(&doc);
    let mut out = chars_of(text.as_str());
    push_str(&mut out, "\n");
    Some((string_of(&out), added))
}

} // verus!
