use cargo_scaffold::error::ScaffoldError;
use cargo_scaffold::pattern::Matcher;
use cargo_scaffold::value::{ParamSet, ParamValue};

#[test]
fn leading_dot_slash_is_stripped_before_compiling() {
    let m = Matcher::compile(&vec!["./target".to_string()]).unwrap();
    assert!(m.matches("target"));
    assert!(!m.matches("src"));
}

#[test]
fn empty_pattern_list_matches_nothing() {
    let m = Matcher::compile(&vec![]).unwrap();
    assert!(!m.matches("anything"));
    assert!(!m.matches(""));
    assert!(!m.matches_prefix("a/b/c"));
}

#[test]
fn a_directory_match_covers_all_descendants() {
    let m = Matcher::compile(&vec!["node_modules".to_string()]).unwrap();
    assert!(m.matches_prefix("node_modules"));
    assert!(m.matches_prefix("node_modules/pkg/index.js"));
    assert!(!m.matches_prefix("src/node_modules_like.txt"));
}

#[test]
fn glob_syntax_matches_paths() {
    let m = Matcher::compile(&vec!["*.lock".to_string(), "build/**".to_string()]).unwrap();
    assert!(m.matches("Cargo.lock"));
    assert!(m.matches("build/out/bin"));
    assert!(!m.matches("src/lib.rs"));
}

#[test]
fn an_unclosed_character_class_is_a_pattern_error() {
    let err = Matcher::compile(&vec!["[".to_string()]).unwrap_err();
    assert!(matches!(err, ScaffoldError::PatternError(_)));
}

#[test]
fn param_set_inserts_replace_by_name() {
    let mut ps = ParamSet::new();
    assert_eq!(ps.len(), 0);
    ps.insert("a".to_string(), ParamValue::Integer(1));
    ps.insert("b".to_string(), ParamValue::Integer(2));
    ps.insert("a".to_string(), ParamValue::Integer(3));
    assert_eq!(ps.len(), 2);
    assert_eq!(ps.get("a"), Some(&ParamValue::Integer(3)));
    assert_eq!(ps.get("b"), Some(&ParamValue::Integer(2)));
    assert!(!ps.contains_key("c"));
    let copy = ps.duplicate();
    assert_eq!(copy, ps);
}
