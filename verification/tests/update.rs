use ai_planner::update::{
    availability, backup_file_name, hook_dir, install_entry, next_step, parse_key, Install, Next,
    Source,
};

#[test]
fn a_path_install_key_is_read_back() {
    let toml = "[v1]\n\"ai-planner 0.1.0 (path+file:///Users/me/src/ai-planner/crates/ai-planner)\" = [\"aip\"]\n\
                \"other 1.0.0 (registry+https://github.com/rust-lang/crates.io-index)\" = [\"other\"]\n";
    let (key, version, source) = install_entry(toml, "ai-planner").unwrap();
    assert_eq!(
        key,
        "ai-planner 0.1.0 (path+file:///Users/me/src/ai-planner/crates/ai-planner)"
    );
    assert_eq!(version, "0.1.0");
    assert_eq!(
        source,
        Source::Path("/Users/me/src/ai-planner/crates/ai-planner".to_string())
    );

    // The rebuild must carry the features over, or semantic search silently stops
    // working with no error to explain it.
    let install = Install {
        version,
        source,
        features: vec!["model-embeddings".to_string()],
        all_features: false,
        no_default_features: false,
    };
    assert_eq!(
        install.cargo_args(),
        vec![
            "install",
            "--path",
            "/Users/me/src/ai-planner/crates/ai-planner",
            "--force",
            "--locked",
            "--features",
            "model-embeddings",
        ]
    );
    assert_eq!(
        install.describe(),
        "local clone /Users/me/src/ai-planner/crates/ai-planner (features: model-embeddings)"
    );
}

#[test]
fn a_git_install_keeps_its_url_and_the_commit_it_was_built_from() {
    let toml = "[v1]\n\"ai-planner 0.1.0 (git+https://github.com/zottiben/ai-planner#930e0bfe9efd4d25b5d7abf6d4aedd6d876c6ea4)\" = [\"aip\"]\n";
    let (_, version, source) = install_entry(toml, "ai-planner").unwrap();
    match &source {
        Source::Git { url, sha } => {
            assert_eq!(url, "https://github.com/zottiben/ai-planner");
            assert_eq!(sha.as_deref().unwrap().len(), 40);
        }
        other => panic!("expected a git source, got {other:?}"),
    }
    let install = Install {
        version,
        source,
        features: vec![],
        all_features: false,
        no_default_features: false,
    };
    assert_eq!(
        install.cargo_args(),
        vec![
            "install",
            "--git",
            "https://github.com/zottiben/ai-planner",
            "ai-planner",
            "--force",
            "--locked",
        ]
    );
    assert_eq!(
        install.describe(),
        "https://github.com/zottiben/ai-planner @ 930e0bfe9e"
    );
}

#[test]
fn a_binary_cargo_never_installed_is_not_found() {
    assert!(install_entry("[v1]\n", "ai-planner").is_none());
    assert!(install_entry("", "ai-planner").is_none());
    let toml = "[v1]\n\"other 1.0.0 (registry+https://github.com/rust-lang/crates.io-index)\" = [\"other\"]\n";
    assert!(install_entry(toml, "ai-planner").is_none());
}

#[test]
fn a_registry_install_rebuilds_by_name_with_every_flag() {
    let (name, version, source) =
        parse_key("ai-planner 0.2.0 (registry+https://github.com/rust-lang/crates.io-index)").unwrap();
    assert_eq!(name, "ai-planner");
    assert_eq!(version, "0.2.0");
    assert_eq!(source, Source::Registry);
    let install = Install {
        version,
        source,
        features: vec![],
        all_features: true,
        no_default_features: true,
    };
    assert_eq!(
        install.cargo_args(),
        vec![
            "install",
            "ai-planner",
            "--force",
            "--locked",
            "--all-features",
            "--no-default-features",
        ]
    );
    assert_eq!(install.describe(), "crates.io");
}

#[test]
fn a_key_that_is_not_cargos_shape_is_refused() {
    assert!(parse_key("ai-planner").is_none());
    assert!(parse_key("ai-planner 0.1.0 path+file:///x").is_none());
    assert!(parse_key("ai-planner 0.1.0 (svn+http://x)").is_none());
}

#[test]
fn hooks_go_to_the_project_or_the_home_directory() {
    assert_eq!(hook_dir(true, "/home/me"), ".agents/hooks");
    assert_eq!(hook_dir(false, "/home/me"), "/home/me/.ai-planner/hooks");
}

#[test]
fn a_git_install_knows_whether_the_remote_moved() {
    let src = Source::Git {
        url: "https://github.com/zottiben/ai-planner".into(),
        sha: Some("930e0bfe9efd4d25b5d7abf6d4aedd6d876c6ea4".into()),
    };
    assert_eq!(
        availability(&src, Some("930e0bfe9efd4d25b5d7abf6d4aedd6d876c6ea4"), true, "x"),
        Ok((false, Some("  already on the remote's latest commit".to_string())))
    );
    assert_eq!(
        availability(&src, Some("1111111111222222"), true, "x"),
        Ok((true, Some("  remote is at 1111111111".to_string())))
    );
    assert_eq!(
        availability(&src, None, true, "x"),
        Ok((true, Some("  could not reach the remote - will rebuild anyway".to_string())))
    );
}

#[test]
fn a_vanished_clone_is_an_error_with_the_way_back() {
    let src = Source::Path("/gone".into());
    assert_eq!(
        availability(&src, None, false, "https://github.com/zottiben/ai-planner"),
        Err("the clone it was installed from is gone: /gone\n  Re-install with: cargo install --git https://github.com/zottiben/ai-planner ai-planner --locked".to_string())
    );
    assert_eq!(availability(&Source::Registry, None, true, "x"), Ok((true, None)));
}

#[test]
fn nothing_new_means_nothing_to_do_unless_forced() {
    assert_eq!(next_step(true, true, false), Next::Stop);
    assert_eq!(next_step(false, false, false), Next::NothingToDo);
    assert_eq!(next_step(false, false, true), Next::Rebuild);
    assert_eq!(next_step(false, true, false), Next::Rebuild);
}

#[test]
fn the_backup_is_named_for_the_moment_it_was_taken() {
    assert_eq!(
        backup_file_name(Some("planner.db"), "2026-03-01T10:20:30Z"),
        "planner.db.20260301T102030.pre-update.bak"
    );
    assert_eq!(backup_file_name(None, "Z"), "planner.db..pre-update.bak");
}

#[test]
fn a_commit_id_is_cut_to_ten_bytes_and_never_inside_a_character() {
    let remote = |h: &str| match availability(&Source::Git { url: "u".into(), sha: None }, Some(h), true, "r") {
        Ok((true, Some(note))) => note,
        other => panic!("{other:?}"),
    };
    assert_eq!(remote("0123456789abcdef"), "  remote is at 0123456789");
    assert_eq!(remote("abc"), "  remote is at abc");
    assert_eq!(remote("012345678é"), "  remote is at 012345678");
    assert_eq!(remote("01234567é9"), "  remote is at 01234567é");
}
