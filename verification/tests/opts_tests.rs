use cargo_scaffold::opts::Opts;

#[test]
fn test_build_opts_works() {
    let opts = Opts::builder("/path/to/template");
    assert_eq!(opts.template_path, "/path/to/template".to_string());

    // Test projct name can be set
    assert!(opts.project_name.is_none());
    let opts = opts.project_name("project");
    assert_eq!(opts.project_name, Some("project".to_string()));

    // Test template can be set
    assert_eq!(opts.template_path, "/path/to/template".to_string());
    let opts = opts.template_path("/path/to/new-template");
    assert_eq!(opts.template_path, "/path/to/new-template".to_string());

    // Test repository template path can be set.
    assert!(opts.repository_template_path.is_none());
    let opts = opts.repository_template_path("somepath");
    assert_eq!(opts.repository_template_path, Some("somepath".to_string()));

    // Test git_ref can be set
    assert!(opts.git_ref.is_none());
    let opts = opts.git_ref("main");
    assert_eq!(opts.git_ref, Some("main".to_string()));

    // Test target_dir
    assert!(opts.target_dir.is_none());
    let opts = opts.target_dir("target");
    assert_eq!(opts.target_dir, Some("target".to_string()));

    // Test append, force, passphrase_needed
    assert!(!opts.append);
    assert!(!opts.force);
    assert!(!opts.passphrase_needed);
    let opts = opts.append(true).force(true).passphrase_needed(true);
    assert!(opts.append);
    assert!(opts.force);
    assert!(opts.passphrase_needed);

    // Test private_key_path can be set
    assert!(opts.private_key_path.is_none());
    let opts = opts.private_key_path(".ssh/id_rsa");
    assert_eq!(opts.private_key_path, Some(".ssh/id_rsa".to_string()));

    // Test parameters can be set
    assert!(opts.parameters.is_empty());
    let opts = opts.parameters(vec!["key1=value1".to_string()]);
    assert_eq!(opts.parameters, vec!["key1=value1".to_string()]);
}

#[test]
fn default_opts_are_empty() {
    let opts = Opts::default();
    assert_eq!(opts.template_path, String::new());
    assert!(opts.repository_template_path.is_none());
    assert!(opts.git_ref.is_none());
    assert!(opts.project_name.is_none());
    assert!(opts.target_dir.is_none());
    assert!(!opts.force);
    assert!(!opts.append);
    assert!(!opts.passphrase_needed);
    assert!(opts.private_key_path.is_none());
    assert!(opts.parameters.is_empty());
}
