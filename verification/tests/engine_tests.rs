use cargo_scaffold::descriptor::parse_descriptor;
use cargo_scaffold::engine::{
    policy_of_flags, split_command, target_dir_action, target_path, ConflictPolicy, DirAction,
    EntryKind, PlanItem, SourceEntry, TargetAction,
};
use cargo_scaffold::error::ScaffoldError;
use cargo_scaffold::helpers::ForRangHelper;
use cargo_scaffold::value::{ParamSet, ParamValue};

fn dir(rel: &str) -> SourceEntry {
    SourceEntry { rel: rel.to_string(), kind: EntryKind::Dir, content: vec![], perms: 0o755 }
}

fn file(rel: &str, content: &[u8]) -> SourceEntry {
    SourceEntry {
        rel: rel.to_string(),
        kind: EntryKind::File,
        content: content.to_vec(),
        perms: 0o644,
    }
}

fn name_demo() -> ParamSet {
    let mut ps = ParamSet::new();
    ps.insert("name".to_string(), ParamValue::String("demo".to_string()));
    ps
}

#[test]
fn select_scenario_renders_path_and_body() {
    let text = r#"
[template]

[parameters.lang]
message = "Which language?"
type = "select"
values = ["rust", "go"]
"#;
    let desc = parse_descriptor(text).unwrap();
    let lang = &desc.parameters[0].1;
    let chosen = cargo_scaffold::resolve::answer_to_value(
        "lang",
        lang,
        &cargo_scaffold::resolve::PromptAnswer::Index(1),
    )
    .unwrap();
    assert_eq!(chosen, ParamValue::String("go".to_string()));

    let mut params = name_demo();
    params.insert("lang".to_string(), chosen);

    let entries = vec![
        dir("src"),
        dir("src/{{lang}}"),
        file("src/{{lang}}/main.txt", b"hello {{name}}"),
    ];
    let plan = desc
        .plan_run(&params, "/tmp/out", ConflictPolicy::Fail, &entries)
        .unwrap();

    assert_eq!(plan.items.len(), 3);
    match &plan.items[0] {
        PlanItem::Dir(d) => assert_eq!(d.dest, "src"),
        other => panic!("expected a directory, got {:?}", other),
    }
    match &plan.items[1] {
        PlanItem::Dir(d) => assert_eq!(d.dest, "src/go"),
        other => panic!("expected a directory, got {:?}", other),
    }
    match &plan.items[2] {
        PlanItem::File(f) => {
            assert_eq!(f.dest, "src/go/main.txt");
            assert_eq!(f.content, b"hello demo".to_vec());
            assert_eq!(f.perms, 0o644);
        },
        other => panic!("expected a file, got {:?}", other),
    }
}

#[test]
fn pre_hook_argv_is_split_before_any_write() {
    let text = r#"
[template]

[hooks]
pre = ["echo {{name}}"]
"#;
    let desc = parse_descriptor(text).unwrap();
    let params = name_demo();
    let entries = vec![file("a.txt", b"x")];
    let plan = desc
        .plan_run(&params, "/tmp/out", ConflictPolicy::Fail, &entries)
        .unwrap();
    // exactly one pre-hook invocation, with exactly this argv, ahead of the
    // tree entries in the plan's execution order
    assert_eq!(plan.pre_commands, vec![vec!["echo".to_string(), "demo".to_string()]]);
    assert!(plan.post_commands.is_empty());
    assert_eq!(plan.items.len(), 1);
}

#[test]
fn disable_templating_copies_bytes_exactly() {
    let text = r#"
[template]
disable_templating = ["keep.txt"]
"#;
    let desc = parse_descriptor(text).unwrap();
    let params = name_demo();
    let body = b"{{not_a_var}} stays as it is";
    let entries = vec![file("keep.txt", body)];
    let plan = desc
        .plan_run(&params, "/tmp/out", ConflictPolicy::Fail, &entries)
        .unwrap();
    assert_eq!(plan.items.len(), 1);
    match &plan.items[0] {
        PlanItem::File(f) => {
            assert_eq!(f.dest, "keep.txt");
            assert_eq!(f.content, body.to_vec());
        },
        other => panic!("expected a file, got {:?}", other),
    }
}

#[test]
fn excluded_directory_prunes_its_subtree() {
    let text = r#"
[template]
exclude = ["./secret"]
"#;
    let desc = parse_descriptor(text).unwrap();
    let params = name_demo();
    let entries = vec![
        dir("secret"),
        file("secret/inner.txt", b"hidden"),
        dir("secret/deeper"),
        file("secret/deeper/more.txt", b"hidden"),
        file("kept.txt", b"visible"),
    ];
    let plan = desc
        .plan_run(&params, "/tmp/out", ConflictPolicy::Fail, &entries)
        .unwrap();
    assert_eq!(plan.items.len(), 1);
    match &plan.items[0] {
        PlanItem::File(f) => assert_eq!(f.dest, "kept.txt"),
        other => panic!("expected a file, got {:?}", other),
    }
}

#[test]
fn descriptor_and_git_entries_are_skipped() {
    let desc = parse_descriptor("[template]\n").unwrap();
    let params = name_demo();
    let entries = vec![
        file(".scaffold.toml", b"[template]"),
        dir(".git"),
        file(".git/config", b"[core]"),
        file("sub/.git/config", b"[core]"),
        file("kept.txt", b"visible"),
    ];
    let plan = desc
        .plan_run(&params, "/tmp/out", ConflictPolicy::Fail, &entries)
        .unwrap();
    assert_eq!(plan.items.len(), 1);
}

#[test]
fn each_kept_file_is_planned_exactly_once() {
    let desc = parse_descriptor("[template]\n").unwrap();
    let params = name_demo();
    let entries = vec![file("a.txt", b"1"), dir("d"), file("d/b.txt", b"2")];
    let plan = desc
        .plan_run(&params, "/tmp/out", ConflictPolicy::Fail, &entries)
        .unwrap();
    let mut file_dests: Vec<String> = plan
        .items
        .iter()
        .filter_map(|it| match it {
            PlanItem::File(f) => Some(f.dest.clone()),
            PlanItem::Dir(_) => None,
        })
        .collect();
    file_dests.sort();
    assert_eq!(file_dests, vec!["a.txt".to_string(), "d/b.txt".to_string()]);
}

#[test]
fn append_policy_keeps_existing_entries() {
    let desc = parse_descriptor("[template]\n").unwrap();
    let params = name_demo();
    let entries = vec![dir("d"), file("d/a.txt", b"1")];
    let plan = desc
        .plan_run(&params, "/tmp/out", ConflictPolicy::Append, &entries)
        .unwrap();
    for item in &plan.items {
        match item {
            PlanItem::Dir(d) => assert_eq!(d.on_exists, DirAction::Keep),
            PlanItem::File(f) => assert!(f.skip_if_exists),
        }
    }
}

#[test]
fn force_policy_replaces_existing_entries() {
    let desc = parse_descriptor("[template]\n").unwrap();
    let params = name_demo();
    let entries = vec![dir("d"), file("d/a.txt", b"1")];
    let plan = desc
        .plan_run(&params, "/tmp/out", ConflictPolicy::Force, &entries)
        .unwrap();
    for item in &plan.items {
        match item {
            PlanItem::Dir(d) => assert_eq!(d.on_exists, DirAction::Replace),
            PlanItem::File(f) => assert!(!f.skip_if_exists),
        }
    }
}

#[test]
fn target_dir_decisions_follow_the_policy() {
    assert_eq!(target_dir_action("/t", false, ConflictPolicy::Fail).unwrap(), TargetAction::Fresh);
    assert_eq!(
        target_dir_action("/t", true, ConflictPolicy::Force).unwrap(),
        TargetAction::ReplaceAll
    );
    assert_eq!(target_dir_action("/t", true, ConflictPolicy::Append).unwrap(), TargetAction::Reuse);
    match target_dir_action("/t", true, ConflictPolicy::Fail).unwrap_err() {
        ScaffoldError::DirectoryExists(p) => assert_eq!(p, "/t"),
        other => panic!("unexpected error: {:?}", other),
    }
}

#[test]
fn target_path_defaults_to_cwd_and_name() {
    assert_eq!(target_path(&Some("/explicit".to_string()), "/cwd", "demo"), "/explicit");
    assert_eq!(target_path(&None, "/cwd", "demo"), "/cwd/demo");
}

#[test]
fn policy_of_flags_prefers_force() {
    assert_eq!(policy_of_flags(false, false), ConflictPolicy::Fail);
    assert_eq!(policy_of_flags(true, false), ConflictPolicy::Force);
    assert_eq!(policy_of_flags(false, true), ConflictPolicy::Append);
    assert_eq!(policy_of_flags(true, true), ConflictPolicy::Force);
}

#[test]
fn invalid_utf8_in_templated_file_is_rejected() {
    let desc = parse_descriptor("[template]\n").unwrap();
    let params = name_demo();
    let entries = vec![file("bin.dat", &[0xff, 0xfe, 0x00])];
    let err = desc
        .plan_run(&params, "/tmp/out", ConflictPolicy::Fail, &entries)
        .unwrap_err();
    match err {
        ScaffoldError::InvalidEncoding(p) => assert_eq!(p, "bin.dat"),
        other => panic!("unexpected error: {:?}", other),
    }
}

#[test]
fn invalid_utf8_under_a_templating_exception_is_copied() {
    let text = r#"
[template]
disable_templating = ["bin.dat"]
"#;
    let desc = parse_descriptor(text).unwrap();
    let params = name_demo();
    let body = [0xffu8, 0xfe, 0x00];
    let entries = vec![file("bin.dat", &body)];
    let plan = desc
        .plan_run(&params, "/tmp/out", ConflictPolicy::Fail, &entries)
        .unwrap();
    match &plan.items[0] {
        PlanItem::File(f) => assert_eq!(f.content, body.to_vec()),
        other => panic!("expected a file, got {:?}", other),
    }
}

#[test]
fn notes_are_rendered_with_the_final_parameters() {
    let text = r#"
[template]
notes = "Welcome to {{name}}, now under {{target_dir}}"
"#;
    let desc = parse_descriptor(text).unwrap();
    let params = name_demo();
    let plan = desc
        .plan_run(&params, "/somewhere/demo", ConflictPolicy::Fail, &vec![])
        .unwrap();
    assert_eq!(plan.notes, Some("Welcome to demo, now under /somewhere/demo".to_string()));
}

#[test]
fn split_command_honors_quoting() {
    assert_eq!(
        split_command("ls -alh .").unwrap(),
        vec!["ls".to_string(), "-alh".to_string(), ".".to_string()]
    );
    assert_eq!(
        split_command("sh -c 'echo hi there'").unwrap(),
        vec!["sh".to_string(), "-c".to_string(), "echo hi there".to_string()]
    );
}

#[test]
fn empty_command_is_refused() {
    match split_command("   ").unwrap_err() {
        ScaffoldError::EmptyCommand(c) => assert_eq!(c, "   "),
        other => panic!("unexpected error: {:?}", other),
    }
}

#[test]
fn unbalanced_quoting_is_refused() {
    assert!(matches!(
        split_command("echo 'oops").unwrap_err(),
        ScaffoldError::HookFailure(_)
    ));
}

#[test]
fn failing_hook_render_stops_the_run() {
    let text = r#"
[template]

[hooks]
pre = ["echo {{#if}}"]
"#;
    let desc = parse_descriptor(text).unwrap();
    let params = name_demo();
    let err = desc
        .plan_run(&params, "/tmp/out", ConflictPolicy::Fail, &vec![])
        .unwrap_err();
    assert!(matches!(err, ScaffoldError::RenderError { .. }));
}

#[test]
fn for_range_locals_mark_first_and_last() {
    assert_eq!(
        ForRangHelper::locals(3),
        vec![(0, true, false), (1, false, false), (2, false, true)]
    );
    assert_eq!(ForRangHelper::locals(0), vec![]);
    assert_eq!(ForRangHelper::locals(1), vec![(0, true, true)]);
}

#[test]
fn planning_twice_with_unchanged_inputs_gives_the_same_plan() {
    let desc = parse_descriptor("[template]\n").unwrap();
    let params = name_demo();
    let entries = vec![dir("d"), file("d/a.txt", b"hello {{name}}")];
    let first = desc
        .plan_run(&params, "/tmp/out", ConflictPolicy::Append, &entries)
        .unwrap();
    let second = desc
        .plan_run(&params, "/tmp/out", ConflictPolicy::Append, &entries)
        .unwrap();
    assert_eq!(first, second);
}

#[test]
fn bad_exclude_pattern_stops_the_run_with_pattern_error() {
    let text = r#"
[template]
exclude = ["["]
"#;
    let desc = parse_descriptor(text).unwrap();
    let params = name_demo();
    let err = desc
        .plan_run(&params, "/tmp/out", ConflictPolicy::Fail, &vec![file("a.txt", b"x")])
        .unwrap_err();
    assert!(matches!(err, ScaffoldError::PatternError(_)));
}

#[test]
fn template_calling_an_unregistered_helper_is_refused() {
    // the engine runs bare: a block helper a template calls is a render
    // error, not silence
    let desc = parse_descriptor("[template]\n").unwrap();
    let params = name_demo();
    let entries = vec![file("a.txt", b"{{#forRange 3}}x{{/forRange}}")];
    let err = desc
        .plan_run(&params, "/tmp/out", ConflictPolicy::Fail, &entries)
        .unwrap_err();
    assert!(matches!(err, ScaffoldError::RenderError { .. }));
}
