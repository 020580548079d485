//! Where a command runs, from git's point of view: every worktree of a repo shares
//! the repo key, the name and the main checkout, and differs in its own checkout and
//! branch, which is exactly the split the planner needs.
use vstd::prelude::*;

use std::path::Path;

use crate::error::Error;
use crate::parse::opt_view;
use crate::text::{chars_of, slice_of, string_of, trim, trimmed};
use crate::util::{remote_key, segments};

verus! {

#[derive(Debug, Clone)]
pub struct GitContext {
    /// Stable repo key: `github.com/acme/widget`, or the main checkout's absolute path
    /// when there is no remote.
    pub repo_key: String,
    /// Last path segment of the key: `widget`.
    pub repo_name: String,
    pub remote_url: Option<String>,
    /// The main checkout, i.e. the parent of the common git directory.
    pub main_path: String,
    /// This checkout. Differs per worktree.
    pub worktree: String,
    /// `None` on a detached HEAD.
    pub branch: Option<String>,
    pub head_sha: Option<String>,
}

/// What `Path::parent` gives for a path written as text.
pub uninterp spec fn path_parent(p: Seq<char>) -> Option<Seq<char>>;

/// Whether two paths written as text are equal as `Path`s (component by component).
pub uninterp spec fn paths_equal(a: Seq<char>, b: Seq<char>) -> bool;

/// `Path::parent`, read back as text: a function of the path alone.
#[verifier::external_body]
fn parent_of(p: &str) -> (r: Option<String>)
    ensures
        opt_view(r) == path_parent(p@),
{
    Path::new(p).parent().map(|q| q.to_string_lossy().to_string())
}

/// `==` on `Path`s: a function of the two paths alone, and (`Path` is `Eq`) true of a
/// path and itself.
#[verifier::external_body]
fn same_path(a: &str, b: &str) -> (r: bool)
    ensures
        r == paths_equal(a@, b@),
        a@ == b@ ==> r,
{
    Path::new(a) == Path::new(b)
}

/// The last non-empty `/`-separated piece of a key, or the key itself.
pub open spec fn last_segment(key: Seq<char>) -> Seq<char> {
    let segs = segments(key);
    if segs.len() > 0 {
        segs.last()
    } else {
        key
    }
}

/// The context as `detect` works it out from what git reported: the repo key from the
/// remote (or the main checkout when there is none), the name from the key, the main
/// checkout as the parent of the common git directory.
pub open spec fn context_of(
    toplevel: Seq<char>,
    common_dir: Seq<char>,
    remote_url: Option<Seq<char>>,
) -> (Seq<char>, Seq<char>, Seq<char>) {
    let main = match path_parent(common_dir) {
        Some(p) => p,
        None => toplevel,
    };
    let key = match remote_url {
        Some(u) => remote_key(u),
        None => main,
    };
    (key, last_segment(key), main)
}

/// Two checkouts of one repo (the main one and a linked worktree share git's common
/// directory, and with it the remote) get the same key, name and main path; only the
/// worktree, which is each one's own top level, tells them apart.
pub proof fn law_checkouts_of_one_repo_share_its_identity(
    main_top: Seq<char>,
    linked_top: Seq<char>,
    common_dir: Seq<char>,
    remote_url: Option<Seq<char>>,
)
    requires
        path_parent(common_dir) is Some,
    ensures
        context_of(main_top, common_dir, remote_url) == context_of(linked_top, common_dir, remote_url),
{
}

impl GitContext {
    /// Works the context out from what git reported from `from`: the checkout's top
    /// level, the common git directory, the remote's URL, the current branch and the
    /// short head. With no top level or common directory, `from` is not in a repo.
    pub fn detect(
        from: &str,
        toplevel: Option<String>,
        common_dir: Option<String>,
        remote_url: Option<String>,
        branch: Option<String>,
        head_sha: Option<String>,
    ) -> (r: Result<GitContext, Error>)
        ensures
            match r {
                Err(e) => (toplevel is None || common_dir is None) && (e matches Error::NotAGitRepo(
                    p,
                ) && p@ == from@),
                Ok(g) => toplevel matches Some(t) && common_dir matches Some(c) && {
                    let (key, name, main) = context_of(t@, c@, opt_view(remote_url));
                    &&& g.repo_key@ == key
                    &&& g.repo_name@ == name
                    &&& g.main_path@ == main
                    &&& g.worktree@ == t@
                    &&& opt_view(g.remote_url) == opt_view(remote_url)
                    &&& opt_view(g.branch) == match branch {
                        Some(b) => if b@.len() > 0 {
                            Some(b@)
                        } else {
                            None
                        },
                        None => None,
                    }
                    &&& opt_view(g.head_sha) == opt_view(head_sha)
                },
            },
    {
        let top = match toplevel {
            Some(t) => t,
            None => return Err(Error::NotAGitRepo(from.to_string())),
        };
        let common = match common_dir {
            Some(c) => c,
            None => return Err(Error::NotAGitRepo(from.to_string())),
        };
        let main = match parent_of(common.as_str()) {
            Some(p) => p,
            None => top.clone(),
        };
        let key = match &remote_url {
            Some(u) => crate::util::normalise_remote(u.as_str()),
            None => main.clone(),
        };
        let kv = chars_of(key.as_str());
        let segs = crate::util::segments_of(&kv);
        let name = if segs.len() > 0 {
            assert(crate::text::views(segs@)[segs@.len() - 1] == segs@[segs@.len() - 1]@);
            string_of(&segs[segs.len() - 1])
        } else {
            key.clone()
        };
        let branch = match branch {
            Some(b) => {
                let bv = chars_of(b.as_str());
                if bv.len() > 0 {
                    Some(b)
                } else {
                    None
                }
            },
            None => None,
        };
        Ok(
            GitContext {
                repo_key: key,
                repo_name: name,
                remote_url,
                main_path: main,
                worktree: top,
                branch,
                head_sha,
            },
        )
    }

    pub fn worktree_str(&self) -> (r: String)
        ensures
            r@ == self.worktree@,
    {
        self.worktree.clone()
    }

    /// True when this checkout is not the main one, i.e. a linked worktree.
    pub fn is_linked_worktree(&self) -> (r: bool)
        ensures
            r == !paths_equal(self.worktree@, self.main_path@),
            self.worktree@ == self.main_path@ ==> !r,
    {
        !same_path(self.worktree.as_str(), self.main_path.as_str())
    }

    /// Whether `git status --porcelain` reported anything: uncommitted work.
    pub fn dirty(porcelain: &Option<String>) -> (r: bool)
        ensures
            r == (porcelain matches Some(s) && trim(s@).len() > 0),
    {
        match porcelain {
            Some(s) => {
                let v = chars_of(s.as_str());
                let t = trimmed(&v);
                t.len() > 0
            },
            None => false,
        }
    }
}

} // verus!
