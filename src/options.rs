//! The options a preprocessor reads from the book's configuration.
use vstd::prelude::*;

use crate::block::opt_view;
use crate::compose::SvgRendererSharedConfig;
use crate::text::{chars_of, string_of};

verus! {

/// A configuration value, as far as the options look into it.
pub enum ConfigValue {
    Str(String),
    Bool(bool),
    List(Vec<ConfigValue>),
    Other,
}

/// The values given for a preprocessor's options, each absent when not set.
pub struct PreprocessorOptions {
    pub info_string: Option<ConfigValue>,
    pub copy_js: Option<ConfigValue>,
    pub copy_css: Option<ConfigValue>,
    pub output_to_file: Option<ConfigValue>,
    pub link_to_file: Option<ConfigValue>,
}

pub open spec fn is_str(v: Option<ConfigValue>) -> bool {
    v matches Some(ConfigValue::Str(_))
}

pub open spec fn is_bool(v: Option<ConfigValue>) -> bool {
    v matches Some(ConfigValue::Bool(_))
}

/// An option that is absent, or holds a value of the kind it needs.
pub open spec fn copy_ok(v: Option<ConfigValue>) -> bool {
    v is None || is_str(v) || is_bool(v)
}

pub open spec fn flag_ok(v: Option<ConfigValue>) -> bool {
    v is None || is_bool(v)
}

pub open spec fn info_ok(v: Option<ConfigValue>) -> bool {
    v is None || is_str(v)
}

/// The message for the first option, in reading order, that holds the wrong kind of
/// value.
pub open spec fn options_error(o: PreprocessorOptions) -> Option<Seq<char>> {
    if !info_ok(o.info_string) {
        Some("info-string option is required to be a string"@)
    } else if !copy_ok(o.copy_js) {
        Some("copy-js option is required to be a boolean or a string"@)
    } else if !copy_ok(o.copy_css) {
        Some("copy-css option is required to be a boolean or a string"@)
    } else if !flag_ok(o.output_to_file) {
        Some("output-to-file option is required to be a boolean"@)
    } else if !flag_ok(o.link_to_file) {
        Some("link-to-file option is required to be a boolean"@)
    } else {
        None
    }
}

/// Where an asset is copied: `true` gives the default place, `false` none, a string
/// its own place.
pub open spec fn copy_target(v: Option<ConfigValue>, default: Seq<char>) -> Option<Seq<char>> {
    match v {
        Some(ConfigValue::Bool(true)) => Some(default),
        Some(ConfigValue::Str(s)) => Some(s@),
        _ => None,
    }
}

pub open spec fn flag_value(v: Option<ConfigValue>) -> bool {
    v matches Some(ConfigValue::Bool(true))
}

fn copy_option(v: &Option<ConfigValue>, default: &str, name: &str) -> (r: Result<Option<String>, String>)
    ensures
        r is Ok <==> copy_ok(*v),
        r is Ok ==> opt_view(r->Ok_0) == copy_target(*v, default@),
        r is Err ==> r->Err_0@ == name@ + " option is required to be a boolean or a string"@,
{
    match v {
        None => Ok(None),
        Some(ConfigValue::Bool(true)) => Ok(Some(string_of(&chars_of(default)))),
        Some(ConfigValue::Bool(false)) => Ok(None),
        Some(ConfigValue::Str(s)) => Ok(Some(string_of(&chars_of(s.as_str())))),
        _ => {
            let mut m = chars_of(name);
            crate::text::push_str(&mut m, " option is required to be a boolean or a string");
            Err(string_of(&m))
        },
    }
}

fn flag_option(v: &Option<ConfigValue>) -> (r: Option<bool>)
    ensures
        r is Some <==> flag_ok(*v),
        r is Some ==> r->0 == flag_value(*v),
{
    match v {
        None => Some(false),
        Some(ConfigValue::Bool(b)) => Some(*b),
        _ => None,
    }
}

/// The shared renderer options: the renderer that mdBook runs, and what the book's
/// table for this preprocessor sets. Without a table nothing is set, the info string
/// included; with one, an unset info string is the preprocessor's default.
pub fn shared_config(renderer: String, default_info_string: &str, options: Option<PreprocessorOptions>) -> (r: Result<SvgRendererSharedConfig, String>)
    ensures
        options is None ==> r is Ok && r->Ok_0.info_string@ == Seq::<char>::empty() && r->Ok_0.copy_js is None
            && r->Ok_0.copy_css is None && !r->Ok_0.output_to_file && !r->Ok_0.link_to_file,
        options is Some ==> (r is Err <==> options_error(options->0) is Some),
        options is Some && r is Err ==> r->Err_0@ == options_error(options->0)->0,
        options is Some && r is Ok ==> {
            let o = options->0;
            &&& r->Ok_0.info_string@ == match o.info_string {
                Some(ConfigValue::Str(s)) => s@,
                _ => default_info_string@,
            }
            &&& opt_view(r->Ok_0.copy_js) == copy_target(o.copy_js, "js/svg.js"@)
            &&& opt_view(r->Ok_0.copy_css) == copy_target(o.copy_css, "css/svg.css"@)
            &&& r->Ok_0.output_to_file == flag_value(o.output_to_file)
            &&& r->Ok_0.link_to_file == flag_value(o.link_to_file)
        },
        r is Ok ==> r->Ok_0.renderer == renderer,
{
    let o = match options {
        None => {
            return Ok(SvgRendererSharedConfig {
                info_string: String::new(),
                renderer,
                copy_js: None,
                copy_css: None,
                output_to_file: false,
                link_to_file: false,
            });
        },
        Some(o) => o,
    };
    let info_string = match &o.info_string {
        None => string_of(&chars_of(default_info_string)),
        Some(ConfigValue::Str(s)) => string_of(&chars_of(s.as_str())),
        _ => {
            return Err(String::from_str("info-string option is required to be a string"));
        },
    };
    let copy_js = match copy_option(&o.copy_js, "js/svg.js", "copy-js") {
        Ok(c) => c,
        Err(e) => {
            proof { reveal_strlit("copy-js"); }
            assert(e@ =~= "copy-js option is required to be a boolean or a string"@) by {
                reveal_strlit("copy-js option is required to be a boolean or a string");
                reveal_strlit(" option is required to be a boolean or a string");
            }
            return Err(e);
        },
    };
    let copy_css = match copy_option(&o.copy_css, "css/svg.css", "copy-css") {
        Ok(c) => c,
        Err(e) => {
            proof { reveal_strlit("copy-css"); }
            assert(e@ =~= "copy-css option is required to be a boolean or a string"@) by {
                reveal_strlit("copy-css option is required to be a boolean or a string");
                reveal_strlit(" option is required to be a boolean or a string");
            }
            return Err(e);
        },
    };
    let output_to_file = match flag_option(&o.output_to_file) {
        Some(b) => b,
        None => {
            return Err(String::from_str("output-to-file option is required to be a boolean"));
        },
    };
    let link_to_file = match flag_option(&o.link_to_file) {
        Some(b) => b,
        None => {
            return Err(String::from_str("link-to-file option is required to be a boolean"));
        },
    };
    Ok(SvgRendererSharedConfig { info_string, renderer, copy_js, copy_css, output_to_file, link_to_file })
}

pub open spec fn all_strings(items: Seq<ConfigValue>) -> bool {
    forall|i: int| 0 <= i < items.len() ==> (#[trigger] items[i]) is Str
}

/// The value is the string `s`.
pub open spec fn holds_str(v: ConfigValue, s: Seq<char>) -> bool {
    match v {
        ConfigValue::Str(x) => x@ == s,
        _ => false,
    }
}

/// The arguments given to `dot`: unset, or a list of strings.
pub fn graphviz_arguments(value: &Option<ConfigValue>) -> (r: Result<Option<Vec<String>>, String>)
    ensures
        value is None ==> r is Ok && r->Ok_0 is None,
        value matches Some(ConfigValue::List(items)) ==> {
            &&& (r is Ok <==> all_strings(items@))
            &&& r is Ok ==> r->Ok_0 is Some && r->Ok_0->0@.len() == items@.len() && forall|i: int|
                0 <= i < items@.len() ==> holds_str(items@[i], (#[trigger] r->Ok_0->0@[i])@)
            &&& r is Err ==> r->Err_0@ == "arguments option is required to contain strings"@
        },
        value is Some && !(value matches Some(ConfigValue::List(_))) ==> r is Err && r->Err_0@
            == "arguments option is required to be an array"@,
{
    match value {
        None => Ok(None),
        Some(ConfigValue::List(items)) => {
            let mut out: Vec<String> = Vec::new();
            let mut i: usize = 0;
            while i < items.len()
                invariant
                    *value == Some(ConfigValue::List(*items)),
                    i <= items@.len(),
                    out@.len() == i,
                    forall|j: int| 0 <= j < i ==> holds_str(items@[j], (#[trigger] out@[j])@),
                decreases items.len() - i,
            {
                match &items[i] {
                    ConfigValue::Str(s) => out.push(string_of(&chars_of(s.as_str()))),
                    _ => {
                        assert(!(items@[i as int] is Str));
                        return Err(String::from_str("arguments option is required to contain strings"));
                    },
                }
                i = i + 1;
            }
            assert(all_strings(items@)) by {
                assert forall|j: int| 0 <= j < items@.len() implies (#[trigger] items@[j]) is Str by {
                    assert(holds_str(items@[j], out@[j]@));
                }
            }
            Ok(Some(out))
        },
        Some(_) => Err(String::from_str("arguments option is required to be an array")),
    }
}

} // verus!
