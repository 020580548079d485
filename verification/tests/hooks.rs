use ai_planner::json::{Json, Member};
use ai_planner::update::{hook_dir, install_options, installed, merge_hooks, settings_path, skill_targets, Source};

fn obj(members: Vec<(&str, Json)>) -> Json {
    Json::Object(
        members
            .into_iter()
            .map(|(k, v)| Member { key: k.to_string(), value: v })
            .collect(),
    )
}

fn s(text: &str) -> Json {
    Json::Str(text.to_string())
}

fn get<'a>(v: &'a Json, key: &str) -> &'a Json {
    match v {
        Json::Object(ms) => &ms.iter().find(|m| m.key == key).expect("member").value,
        _ => panic!("not an object"),
    }
}

fn arr(v: &Json) -> &Vec<Json> {
    match v {
        Json::Array(items) => items,
        _ => panic!("not an array"),
    }
}

fn text(v: &Json) -> &str {
    match v {
        Json::Str(t) => t,
        _ => panic!("not a string"),
    }
}

fn hook_group(command: &str) -> Json {
    obj(vec![("hooks", Json::Array(vec![obj(vec![("type", s("command")), ("command", s(command))])]))])
}

#[test]
fn hooks_are_merged_without_disturbing_anything_else() {
    let mut settings = obj(vec![
        ("hooks", obj(vec![("SessionStart", Json::Array(vec![hook_group("/other/hook.sh")]))])),
        ("permissions", obj(vec![("allow", Json::Array(vec![s("Bash")]))])),
    ]);

    let added = merge_hooks(&mut settings, "/home/me/.ai-planner/hooks/session.sh");
    assert_eq!(added.len(), 3, "all three events are new here");

    // The unrelated hook and unrelated settings survive.
    let starts = arr(get(get(&settings, "hooks"), "SessionStart"));
    assert_eq!(text(get(&arr(get(&starts[0], "hooks"))[0], "command")), "/other/hook.sh");
    assert_eq!(text(&arr(get(get(&settings, "permissions"), "allow"))[0]), "Bash");
    assert_eq!(
        text(get(&arr(get(&starts[1], "hooks"))[0], "command")),
        "/home/me/.ai-planner/hooks/session.sh session-start"
    );
    let stops = arr(get(get(&settings, "hooks"), "Stop"));
    assert_eq!(
        text(get(&arr(get(&stops[0], "hooks"))[0], "command")),
        "/home/me/.ai-planner/hooks/session.sh stop"
    );

    // Merging again changes nothing.
    let again = merge_hooks(&mut settings, "/home/me/.ai-planner/hooks/session.sh");
    assert!(again.is_empty());
    assert_eq!(arr(get(get(&settings, "hooks"), "SessionStart")).len(), 2);
}

#[test]
fn an_older_single_event_install_is_upgraded_in_place() {
    // Before the extra events existed the command had no argument at all.
    let script = "/home/me/.ai-planner/hooks/session.sh";
    let mut settings = obj(vec![("hooks", obj(vec![("SessionStart", Json::Array(vec![hook_group(script)]))]))]);

    let added = merge_hooks(&mut settings, script);
    assert_eq!(added, vec!["UserPromptSubmit", "Stop"]);
    let starts = arr(get(get(&settings, "hooks"), "SessionStart"));
    assert_eq!(starts.len(), 1, "the stale entry is rewritten, not duplicated");
    assert_eq!(
        text(get(&arr(get(&starts[0], "hooks"))[0], "command")),
        format!("{script} session-start")
    );
}

#[test]
fn settings_that_are_not_an_object_are_started_afresh() {
    let mut settings = Json::Null;
    let added = merge_hooks(&mut settings, "/x/session.sh");
    assert_eq!(added, vec!["SessionStart", "UserPromptSubmit", "Stop"]);
    assert_eq!(arr(get(get(&settings, "hooks"), "UserPromptSubmit")).len(), 1);
}

#[test]
fn a_path_install_is_read_back_with_its_features() {
    let toml = "[v1]\n\"ai-planner 0.1.0 (path+file:///Users/me/src/ai-planner/crates/ai-planner)\" = [\"aip\"]\n\
                \"other 1.0.0 (registry+https://github.com/rust-lang/crates.io-index)\" = [\"other\"]\n";
    let crates2 = r#"{"installs":{"ai-planner 0.1.0 (path+file:///Users/me/src/ai-planner/crates/ai-planner)":
               {"features":["model-embeddings"],"all_features":false,"no_default_features":false}}}"#;

    let install = installed(toml, Some(crates2), "ai-planner").unwrap();
    assert_eq!(
        install.source,
        Source::Path("/Users/me/src/ai-planner/crates/ai-planner".to_string())
    );
    assert_eq!(install.features, vec!["model-embeddings"]);

    // The rebuild must carry the features over, or semantic search silently stops
    // working with no error to explain it.
    let args = install.cargo_args();
    assert_eq!(
        args,
        vec![
            "install",
            "--path",
            "/Users/me/src/ai-planner/crates/ai-planner",
            "--force",
            "--locked",
            "--features",
            "model-embeddings",
        ]
    );
}

#[test]
fn a_git_install_keeps_its_url_and_records_the_commit_it_was_built_from() {
    let toml = "[v1]\n\"ai-planner 0.1.0 (git+https://github.com/zottiben/ai-planner#930e0bfe9efd4d25b5d7abf6d4aedd6d876c6ea4)\" = [\"aip\"]\n";
    let install = installed(toml, None, "ai-planner").unwrap();
    match &install.source {
        Source::Git { url, sha } => {
            assert_eq!(url, "https://github.com/zottiben/ai-planner");
            assert_eq!(sha.as_deref().unwrap().len(), 40);
        }
        other => panic!("expected a git source, got {other:?}"),
    }
    assert_eq!(
        install.cargo_args(),
        vec![
            "install",
            "--git",
            "https://github.com/zottiben/ai-planner",
            "ai-planner",
            "--force",
            "--locked",
        ]
    );
}

#[test]
fn a_binary_cargo_never_installed_is_reported_as_such() {
    assert!(installed("", None, "ai-planner").is_none());
    assert!(installed("[v1]\n", None, "ai-planner").is_none());
}

#[test]
fn the_feature_record_skips_what_it_cannot_read() {
    let doc = obj(vec![(
        "installs",
        obj(vec![(
            "k",
            obj(vec![
                ("features", Json::Array(vec![s("a"), Json::Number("3".into()), s("b")])),
                ("all_features", Json::Bool(true)),
                ("no_default_features", s("yes")),
            ]),
        )]),
    )]);
    let (features, all, nodef) = install_options(&doc, "k");
    assert_eq!(features, vec!["a", "b"]);
    assert!(all);
    assert!(!nodef);
    let (features, all, nodef) = install_options(&doc, "other");
    assert!(features.is_empty() && !all && !nodef);
}

#[test]
fn a_feature_record_that_is_not_json_is_passed_over() {
    let toml = "[v1]\n\"ai-planner 0.1.0 (registry+https://github.com/rust-lang/crates.io-index)\" = [\"aip\"]\n";
    let install = installed(toml, Some("{not json"), "ai-planner").unwrap();
    assert!(install.features.is_empty());
    assert!(!install.all_features && !install.no_default_features);
}

#[test]
fn hooks_are_merged_into_the_settings_text_and_written_back_once() {
    let raw = r#"{"hooks":{"SessionStart":[{"hooks":[{"type":"command","command":"/other/hook.sh"}]}]},
                "permissions":{"allow":["Bash"]}}"#;
    let script = "/home/me/.ai-planner/hooks/session.sh";
    let (out, added) = ai_planner::update::hooked_settings(raw, script).unwrap();
    assert_eq!(added, vec!["SessionStart", "UserPromptSubmit", "Stop"]);
    assert!(out.ends_with("}\n"));
    assert!(out.contains("\"command\": \"/other/hook.sh\""));
    assert!(out.contains("\"command\": \"/home/me/.ai-planner/hooks/session.sh session-start\""));
    assert!(out.contains("\"command\": \"/home/me/.ai-planner/hooks/session.sh stop\""));
    assert!(out.contains("\"allow\": [\n      \"Bash\"\n    ]"));

    // A second install finds everything in place and writes the same text.
    let (again, none) = ai_planner::update::hooked_settings(&out, script).unwrap();
    assert!(none.is_empty());
    assert_eq!(again, out);

    assert!(ai_planner::update::hooked_settings("{not json", script).is_none());
    let (fresh, all) = ai_planner::update::hooked_settings("{}", "/x/session.sh").unwrap();
    assert_eq!(all.len(), 3);
    assert!(fresh.contains("/x/session.sh user-prompt-submit"));
}

#[test]
fn the_skill_hooks_and_settings_live_in_the_project_or_the_home() {
    assert_eq!(
        skill_targets(true, "/home/me", ".codex"),
        vec![".codex/skills/ai-planner", ".agents/skills/ai-planner"]
    );
    assert_eq!(
        skill_targets(false, "/home/me", ".codex"),
        vec!["/home/me/.codex/skills/ai-planner", "/home/me/.agents/skills/ai-planner"]
    );
    assert_eq!(settings_path(true, "/home/me", ".codex"), ".codex/settings.json");
    assert_eq!(settings_path(false, "/home/me/", ".codex"), "/home/me/.codex/settings.json");
    assert_eq!(hook_dir(false, "."), "./.ai-planner/hooks");
}
