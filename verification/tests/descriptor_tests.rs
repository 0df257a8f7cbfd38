use cargo_scaffold::descriptor::{parse_descriptor, ParameterType};
use cargo_scaffold::error::ScaffoldError;
use cargo_scaffold::opts::Opts;
use cargo_scaffold::value::ParamValue;

#[test]
fn parses_a_full_descriptor() {
    let text = r#"
[template]
exclude = ["./target", "*.lock"]
disable_templating = ["assets/**"]
notes = "All done, {{name}}!"

[parameters.lang]
message = "Which language?"
type = "select"
values = ["rust", "go"]

[parameters.count]
message = "How many?"
type = "integer"
required = true
default = 3

[hooks]
pre = ["echo {{name}}"]
post = ["cargo fmt"]
"#;
    let d = parse_descriptor(text).unwrap();
    assert_eq!(
        d.template.exclude,
        Some(vec!["./target".to_string(), "*.lock".to_string()])
    );
    assert_eq!(d.template.disable_templating, Some(vec!["assets/**".to_string()]));
    assert_eq!(d.template.notes, Some("All done, {{name}}!".to_string()));

    assert_eq!(d.parameters.len(), 2);
    let lang = d
        .parameters
        .iter()
        .find(|(n, _)| n == "lang")
        .map(|(_, p)| p)
        .unwrap();
    assert_eq!(lang.message, "Which language?");
    assert_eq!(lang.kind, ParameterType::Select);
    assert!(!lang.required);
    assert_eq!(
        lang.values,
        Some(vec![
            ParamValue::String("rust".to_string()),
            ParamValue::String("go".to_string())
        ])
    );
    let count = d
        .parameters
        .iter()
        .find(|(n, _)| n == "count")
        .map(|(_, p)| p)
        .unwrap();
    assert_eq!(count.kind, ParameterType::Integer);
    assert!(count.required);
    assert_eq!(count.default, Some(ParamValue::Integer(3)));

    let hooks = d.hooks.unwrap();
    assert_eq!(hooks.pre, Some(vec!["echo {{name}}".to_string()]));
    assert_eq!(hooks.post, Some(vec!["cargo fmt".to_string()]));

    // run settings start unset
    assert!(d.target_dir.is_none());
    assert!(!d.force);
    assert!(!d.append);
    assert!(d.project_name.is_none());
}

#[test]
fn unknown_fields_are_ignored() {
    let text = r#"
[template]
notes = "n"
surprising = ["zzz"]

[something_else]
a = 1
"#;
    let d = parse_descriptor(text).unwrap();
    assert_eq!(d.template.notes, Some("n".to_string()));
    assert!(d.template.exclude.is_none());
    assert!(d.parameters.is_empty());
    assert!(d.hooks.is_none());
}

#[test]
fn descriptor_without_template_table_is_malformed() {
    let err = parse_descriptor("[parameters]\n").unwrap_err();
    assert!(matches!(err, ScaffoldError::Malformed(_)));
}

#[test]
fn descriptor_that_is_not_toml_is_malformed() {
    let err = parse_descriptor("this is { not toml").unwrap_err();
    assert!(matches!(err, ScaffoldError::Malformed(_)));
}

#[test]
fn parameter_without_message_is_missing_required_field() {
    let text = r#"
[template]

[parameters.lang]
type = "select"
values = ["a"]
"#;
    let err = parse_descriptor(text).unwrap_err();
    match err {
        ScaffoldError::MissingRequiredField(name) => assert_eq!(name, "lang"),
        other => panic!("unexpected error: {:?}", other),
    }
}

#[test]
fn parameter_with_unknown_type_is_malformed() {
    let text = r#"
[template]

[parameters.x]
message = "m"
type = "decimal"
"#;
    let err = parse_descriptor(text).unwrap_err();
    assert!(matches!(err, ScaffoldError::Malformed(_)));
}

#[test]
fn wrongly_shaped_exclude_is_malformed() {
    let text = r#"
[template]
exclude = "oops"
"#;
    let err = parse_descriptor(text).unwrap_err();
    assert!(matches!(err, ScaffoldError::Malformed(_)));
}

#[test]
fn all_parameter_kinds_parse() {
    let text = r#"
[template]

[parameters.a]
message = "a"
type = "string"

[parameters.b]
message = "b"
type = "float"
default = 1.5

[parameters.c]
message = "c"
type = "boolean"

[parameters.d]
message = "d"
type = "multiselect"
values = [1, 2]
tags = ["t1", "t2"]
"#;
    let d = parse_descriptor(text).unwrap();
    let get = |n: &str| {
        d.parameters
            .iter()
            .find(|(k, _)| k == n)
            .map(|(_, p)| p)
            .unwrap()
    };
    assert_eq!(get("a").kind, ParameterType::String);
    assert_eq!(get("b").kind, ParameterType::Float);
    assert_eq!(get("b").default, Some(ParamValue::Float("1.5".to_string())));
    assert_eq!(get("c").kind, ParameterType::Boolean);
    assert_eq!(get("d").kind, ParameterType::MultiSelect);
    assert_eq!(
        get("d").values,
        Some(vec![ParamValue::Integer(1), ParamValue::Integer(2)])
    );
    assert_eq!(get("d").tags, Some(vec!["t1".to_string(), "t2".to_string()]));
}

#[test]
fn configure_applies_options_and_seeds_name() {
    let d = parse_descriptor("[template]\n").unwrap();
    let opts = Opts::builder("/tpl")
        .project_name("demo")
        .target_dir("/out")
        .force(true)
        .parameters(vec!["key1=value1".to_string()]);
    let d = d.configure(opts).unwrap();
    assert_eq!(d.template_path, "/tpl");
    assert_eq!(d.target_dir, Some("/out".to_string()));
    assert!(d.force);
    assert!(!d.append);
    assert_eq!(d.project_name, Some("demo".to_string()));
    assert_eq!(d.name(), Some("demo".to_string()));
    assert_eq!(
        d.default_parameters.get("key1"),
        Some(&ParamValue::String("value1".to_string()))
    );
    assert_eq!(
        d.default_parameters.get("name"),
        Some(&ParamValue::String("demo".to_string()))
    );
}

#[test]
fn configure_rejects_an_override_without_equals() {
    let d = parse_descriptor("[template]\n").unwrap();
    let opts = Opts::builder("/tpl").parameters(vec!["oops".to_string()]);
    let err = d.configure(opts).unwrap_err();
    match err {
        ScaffoldError::InvalidCliParam(p) => assert_eq!(p, "oops"),
        other => panic!("unexpected error: {:?}", other),
    }
}
