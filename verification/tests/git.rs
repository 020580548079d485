use ai_planner::error::Error;
use ai_planner::git::GitContext;

#[test]
fn a_worktree_reports_the_main_checkout_and_the_same_repo_key() {
    let g = GitContext::detect(
        "/src/widget-wt1",
        Some("/src/widget-wt1".into()),
        Some("/src/widget/.git".into()),
        Some("git@github.com:acme/widget.git".into()),
        Some("feat/x".into()),
        Some("abc1234".into()),
    )
    .unwrap();
    assert_eq!(g.repo_key, "github.com/acme/widget");
    assert_eq!(g.repo_name, "widget");
    assert_eq!(g.main_path, "/src/widget");
    assert_eq!(g.worktree_str(), "/src/widget-wt1");
    assert_eq!(g.branch.as_deref(), Some("feat/x"));
    assert!(g.is_linked_worktree());
}

#[test]
fn a_remoteless_repo_is_keyed_by_its_main_checkout() {
    let g = GitContext::detect(
        "/src/solo",
        Some("/src/solo".into()),
        Some("/src/solo/.git".into()),
        None,
        Some("".into()),
        None,
    )
    .unwrap();
    assert_eq!(g.repo_key, "/src/solo");
    assert_eq!(g.repo_name, "solo");
    assert_eq!(g.branch, None);
    assert!(!g.is_linked_worktree());
}

#[test]
fn paths_compare_as_paths_not_as_text() {
    let g = GitContext {
        repo_key: "k".into(),
        repo_name: "k".into(),
        remote_url: None,
        main_path: "/src/widget/".into(),
        worktree: "/src/widget".into(),
        branch: None,
        head_sha: None,
    };
    assert!(!g.is_linked_worktree());
}

#[test]
fn outside_a_repo_is_an_error_not_a_guess() {
    let err = GitContext::detect("/tmp", None, None, None, None, None);
    assert!(matches!(err, Err(Error::NotAGitRepo(p)) if p == "/tmp"));
}

#[test]
fn dirty_means_porcelain_said_something() {
    assert!(GitContext::dirty(&Some(" M src/lib.rs\n".into())));
    assert!(!GitContext::dirty(&Some("  \n".into())));
    assert!(!GitContext::dirty(&None));
}
