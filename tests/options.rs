use mdbook_svg_inline::options::{graphviz_arguments, shared_config};
use mdbook_svg_inline::{ConfigValue, PreprocessorOptions};

fn empty() -> PreprocessorOptions {
    PreprocessorOptions { info_string: None, copy_js: None, copy_css: None, output_to_file: None, link_to_file: None }
}

#[test]
fn table_defaults() {
    let c = shared_config("html".to_string(), "dot process", Some(empty())).ok().unwrap();
    assert_eq!(c.info_string, "dot process");
    assert_eq!(c.renderer, "html");
    assert_eq!(c.copy_js, None);
    assert!(!c.output_to_file && !c.link_to_file);
    let none = shared_config("html".to_string(), "dot process", None).ok().unwrap();
    assert_eq!(none.info_string, "");
}

#[test]
fn options_are_read() {
    let mut o = empty();
    o.info_string = Some(ConfigValue::Str("graphviz".to_string()));
    o.copy_js = Some(ConfigValue::Bool(true));
    o.copy_css = Some(ConfigValue::Str("theme/my.css".to_string()));
    o.output_to_file = Some(ConfigValue::Bool(true));
    o.link_to_file = Some(ConfigValue::Bool(false));
    let c = shared_config("markdown".to_string(), "dot process", Some(o)).ok().unwrap();
    assert_eq!(c.info_string, "graphviz");
    assert_eq!(c.copy_js.as_deref(), Some("js/svg.js"));
    assert_eq!(c.copy_css.as_deref(), Some("theme/my.css"));
    assert!(c.output_to_file && !c.link_to_file);
}

#[test]
fn wrong_kinds_are_reported() {
    let mut o = empty();
    o.info_string = Some(ConfigValue::Bool(true));
    assert_eq!(shared_config("html".to_string(), "d2", Some(o)).err().unwrap(), "info-string option is required to be a string");
    let mut o = empty();
    o.copy_css = Some(ConfigValue::Other);
    assert_eq!(shared_config("html".to_string(), "d2", Some(o)).err().unwrap(), "copy-css option is required to be a boolean or a string");
    let mut o = empty();
    o.link_to_file = Some(ConfigValue::Str("yes".to_string()));
    assert_eq!(shared_config("html".to_string(), "d2", Some(o)).err().unwrap(), "link-to-file option is required to be a boolean");
}

#[test]
fn dot_arguments() {
    assert!(graphviz_arguments(&None).ok().unwrap().is_none());
    let list = Some(ConfigValue::List(vec![ConfigValue::Str("-Tsvg".to_string()), ConfigValue::Str("-Gdpi=72".to_string())]));
    assert_eq!(graphviz_arguments(&list).ok().unwrap().unwrap(), vec!["-Tsvg".to_string(), "-Gdpi=72".to_string()]);
    let bad = Some(ConfigValue::List(vec![ConfigValue::Bool(true)]));
    assert_eq!(graphviz_arguments(&bad).err().unwrap(), "arguments option is required to contain strings");
    assert_eq!(graphviz_arguments(&Some(ConfigValue::Other)).err().unwrap(), "arguments option is required to be an array");
}
