use cargo_scaffold::render::{render_context, render_path, render_text};
use cargo_scaffold::error::{RenderStage, ScaffoldError};
use cargo_scaffold::value::{ParamSet, ParamValue};

fn params(pairs: &[(&str, &str)]) -> ParamSet {
    let mut ps = ParamSet::new();
    for (k, v) in pairs {
        ps.insert(k.to_string(), ParamValue::String(v.to_string()));
    }
    ps
}

#[test]
fn unix_paths_interpolation_works() {
    // this isn't completely a scaffold test.
    // This is us making sure we don't regress with the interpolation
    let parameters = params(&[("snake_name", "tracing")]);
    let ctx = render_context(&parameters);

    let path = "/tmp/router_scaffoldXwTZ11/src/plugins/{{snake_name}}.rs";
    let res = render_path(path, &ctx, path).unwrap();

    assert_eq!("/tmp/router_scaffoldXwTZ11/src/plugins/tracing.rs", res);
}

#[test]
fn unix_paths_dirs_work() {
    // this isn't completely a scaffold test.
    // This is us making sure we don't regress with the interpolation
    let parameters = params(&[("snake_name", "tracing"), ("directory_name", "example")]);
    let ctx = render_context(&parameters);

    let path = "/tmp/router_scaffoldXwTZ11/src/plugins/{{directory_name}}/{{snake_name}}.rs";
    let res = render_path(path, &ctx, path).unwrap();

    assert_eq!("/tmp/router_scaffoldXwTZ11/src/plugins/example/tracing.rs", res);
}

#[test]
fn text_without_placeholders_is_unchanged() {
    let parameters = params(&[("name", "demo")]);
    let ctx = render_context(&parameters);
    let body = "no placeholders here, just text.\nsecond line";
    let out = render_text(body, &ctx, RenderStage::Content, "a.txt").unwrap();
    assert_eq!(out, body);
}

#[test]
fn text_with_placeholder_is_substituted() {
    let parameters = params(&[("name", "demo")]);
    let ctx = render_context(&parameters);
    let out = render_text("hello {{name}}", &ctx, RenderStage::Content, "a.txt").unwrap();
    assert_eq!(out, "hello demo");
}

#[test]
fn integer_and_boolean_values_render() {
    let mut ps = ParamSet::new();
    ps.insert("n".to_string(), ParamValue::Integer(42));
    ps.insert("b".to_string(), ParamValue::Boolean(true));
    let ctx = render_context(&ps);
    let out = render_text("{{n}}-{{b}}", &ctx, RenderStage::Content, "x").unwrap();
    assert_eq!(out, "42-true");
}

#[test]
fn float_values_render_as_their_text() {
    let mut ps = ParamSet::new();
    ps.insert("f".to_string(), ParamValue::Float("2.5".to_string()));
    let ctx = render_context(&ps);
    let out = render_text("{{f}}", &ctx, RenderStage::Content, "x").unwrap();
    assert_eq!(out, "2.5");
}

#[test]
fn broken_template_reports_render_error_with_location() {
    let parameters = params(&[("name", "demo")]);
    let ctx = render_context(&parameters);
    let err = render_text("{{#if}}", &ctx, RenderStage::Hook, "the-hook").unwrap_err();
    match err {
        ScaffoldError::RenderError { stage, location, .. } => {
            assert_eq!(stage, RenderStage::Hook);
            assert_eq!(location, "the-hook");
        },
        other => panic!("unexpected error: {:?}", other),
    }
}

#[test]
fn dot_components_pass_through_path_rendering() {
    let parameters = params(&[("d", "sub")]);
    let ctx = render_context(&parameters);
    let res = render_path("./{{d}}/../{{d}}.txt", &ctx, "p").unwrap();
    assert_eq!(res, "./sub/../sub.txt");
}

#[test]
fn path_without_placeholders_is_unchanged() {
    let parameters = params(&[("name", "demo")]);
    let ctx = render_context(&parameters);
    let path = "/tmp/plain/dir.name/file-1.txt";
    assert_eq!(render_path(path, &ctx, path).unwrap(), path);
}
