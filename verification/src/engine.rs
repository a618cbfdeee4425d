//! The outside engines behind the renderer: the Liquid template engine and
//! the Markdown converter, each behind a trusted boundary.

use vstd::prelude::*;

use crate::bindings::TemplateValue;

verus! {

#[verifier::external_type_specification]
#[verifier::external_body]
pub struct ExLiquidParser(liquid::Parser);

#[verifier::external_type_specification]
#[verifier::external_body]
pub struct ExLiquidValue(liquid_core::model::Value);

/// Converts the library's binding tree into the engine's value type; it
/// exists only as [`liquid_render`]'s conversion step, split out because the
/// tree is recursive. Relies on liquid's `Value` constructors: each variant
/// is carried over one-for-one, keys and elements in order.
#[verifier::external_body]
fn to_liquid_value(v: &TemplateValue) -> (r: liquid_core::model::Value) {
    match v {
        TemplateValue::Str(s) => liquid_core::model::Value::scalar(s.clone()),
        TemplateValue::Int(i) => liquid_core::model::Value::scalar(*i),
        TemplateValue::Flag(b) => liquid_core::model::Value::scalar(*b),
        TemplateValue::Nil => liquid_core::model::Value::Nil,
        TemplateValue::List(xs) => liquid_core::model::Value::Array(
            xs.iter().map(to_liquid_value).collect(),
        ),
        TemplateValue::Obj(ps) => liquid_core::model::Value::Object(
            ps.iter().map(
                |p| (kstring::KString::from_ref(p.0.as_str()), to_liquid_value(&p.1)),
            ).collect(),
        ),
    }
}

/// Relies on `liquid::Parser::parse` and `liquid::Template::render`: the
/// source is compiled against the parser's partials and tags, then rendered
/// under an object holding exactly the given key/value pairs, each value
/// carried over by [`to_liquid_value`]; any engine failure comes back as the
/// message of the engine's error.
#[verifier::external_body]
pub(crate) fn liquid_render(
    parser: &liquid::Parser,
    source: &str,
    bindings: &Vec<(String, TemplateValue)>,
) -> (r: Result<String, String>) {
    let mut o = liquid::Object::new();
    for p in bindings.iter() {
        o.insert(kstring::KString::from_ref(p.0.as_str()), to_liquid_value(&p.1));
    }
    match parser.parse(source) {
        Ok(t) => t.render(&o).map_err(|e| e.to_string()),
        Err(e) => Err(e.to_string()),
    }
}

/// The HTML that the Markdown converter produces from a Markdown text: a
/// function of the text alone.
pub uninterp spec fn md_to_html(s: Seq<char>) -> Seq<char>;

/// Relies on pulldown-cmark's `Parser::new_ext` with empty options and
/// `html::push_html`: the HTML depends on the Markdown text alone.
#[verifier::external_body]
pub(crate) fn markdown_to_html(s: &str) -> (r: String)
    ensures
        r@ == md_to_html(s@),
{
    let parser = pulldown_cmark::Parser::new_ext(s, pulldown_cmark::Options::empty());
    let mut out = String::new();
    pulldown_cmark::html::push_html(&mut out, parser);
    out
}

} // verus!
