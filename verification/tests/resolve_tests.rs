use cargo_scaffold::descriptor::{parse_descriptor, ParameterType};
use cargo_scaffold::error::ScaffoldError;
use cargo_scaffold::resolve::{answer_to_value, get_name, parse_cli_params, PromptAnswer};
use cargo_scaffold::value::{ParamSet, ParamValue};

#[test]
fn cli_params_split_at_the_first_equals() {
    let ps = parse_cli_params(&vec![
        "a=1".to_string(),
        "b=x=y".to_string(),
        "a=2".to_string(),
    ])
    .unwrap();
    assert_eq!(ps.get("a"), Some(&ParamValue::String("2".to_string())));
    assert_eq!(ps.get("b"), Some(&ParamValue::String("x=y".to_string())));
    assert_eq!(ps.get("c"), None);
}

#[test]
fn cli_param_without_equals_is_invalid() {
    let err = parse_cli_params(&vec!["a=1".to_string(), "nope".to_string()]).unwrap_err();
    match err {
        ScaffoldError::InvalidCliParam(p) => assert_eq!(p, "nope"),
        other => panic!("unexpected error: {:?}", other),
    }
}

#[test]
fn pending_prompts_skip_seeded_and_synthesize_name() {
    let text = r#"
[template]

[parameters.alpha]
message = "a"
type = "string"

[parameters.beta]
message = "b"
type = "integer"
"#;
    let d = parse_descriptor(text).unwrap();
    let mut seeded = ParamSet::new();
    seeded.insert("alpha".to_string(), ParamValue::String("v".to_string()));
    let prompts = d.pending_prompts(&seeded);
    // beta still needs asking; name is neither seeded nor declared, so its
    // prompt comes last.
    assert_eq!(prompts.len(), 2);
    assert_eq!(prompts[0].0, "beta");
    assert_eq!(prompts[1].0, "name");
    assert_eq!(prompts[1].1.kind, ParameterType::String);
    assert!(prompts[1].1.required);
}

#[test]
fn pending_prompts_with_seeded_name_add_no_extra_prompt() {
    let d = parse_descriptor("[template]\n").unwrap();
    let mut seeded = ParamSet::new();
    seeded.insert("name".to_string(), ParamValue::String("demo".to_string()));
    let prompts = d.pending_prompts(&seeded);
    assert!(prompts.is_empty());
}

#[test]
fn scalar_answers_become_values() {
    let d = parse_descriptor(
        r#"
[template]

[parameters.s]
message = "m"
type = "string"
"#,
    )
    .unwrap();
    let p = &d.parameters[0].1;
    let v = answer_to_value("s", p, &PromptAnswer::String("hi".to_string())).unwrap();
    assert_eq!(v, ParamValue::String("hi".to_string()));
}

#[test]
fn select_answer_picks_the_declared_value() {
    let d = parse_descriptor(
        r#"
[template]

[parameters.lang]
message = "m"
type = "select"
values = ["rust", "go"]
"#,
    )
    .unwrap();
    let p = &d.parameters[0].1;
    let v = answer_to_value("lang", p, &PromptAnswer::Index(1)).unwrap();
    assert_eq!(v, ParamValue::String("go".to_string()));
}

#[test]
fn select_without_values_is_missing_values() {
    let d = parse_descriptor(
        r#"
[template]

[parameters.lang]
message = "m"
type = "select"
"#,
    )
    .unwrap();
    let p = &d.parameters[0].1;
    let err = answer_to_value("lang", p, &PromptAnswer::Index(0)).unwrap_err();
    match err {
        ScaffoldError::MissingValues(n) => assert_eq!(n, "lang"),
        other => panic!("unexpected error: {:?}", other),
    }
}

#[test]
fn multiselect_answer_builds_an_array() {
    let d = parse_descriptor(
        r#"
[template]

[parameters.extras]
message = "m"
type = "multiselect"
values = ["a", "b", "c"]
"#,
    )
    .unwrap();
    let p = &d.parameters[0].1;
    let v = answer_to_value("extras", p, &PromptAnswer::Indices(vec![0, 2])).unwrap();
    assert_eq!(
        v,
        ParamValue::Array(vec![
            ParamValue::String("a".to_string()),
            ParamValue::String("c".to_string())
        ])
    );
    let empty = answer_to_value("extras", p, &PromptAnswer::Indices(vec![])).unwrap();
    assert_eq!(empty, ParamValue::Array(vec![]));
}

#[test]
fn get_name_reads_the_bound_name() {
    let mut ps = ParamSet::new();
    ps.insert("name".to_string(), ParamValue::String("demo".to_string()));
    assert_eq!(get_name(&ps), "demo");
}

#[test]
fn merged_parameters_overlay_defaults_and_bind_name() {
    let d = parse_descriptor("[template]\n").unwrap();
    let opts = cargo_scaffold::opts::Opts::builder("/tpl")
        .project_name("demo")
        .parameters(vec!["a=default".to_string(), "b=kept".to_string()]);
    let d = d.configure(opts).unwrap();
    let mut given = ParamSet::new();
    given.insert("a".to_string(), ParamValue::String("override".to_string()));
    let merged = d.merged_parameters(&given).unwrap();
    assert_eq!(merged.get("a"), Some(&ParamValue::String("override".to_string())));
    assert_eq!(merged.get("b"), Some(&ParamValue::String("kept".to_string())));
    assert_eq!(merged.get("name"), Some(&ParamValue::String("demo".to_string())));
}

#[test]
fn merged_parameters_need_a_project_name() {
    let d = parse_descriptor("[template]\n").unwrap();
    let err = d.merged_parameters(&ParamSet::new()).unwrap_err();
    assert!(matches!(err, ScaffoldError::MissingProjectName));
}
