use mole::article::Article;
use mole::error::CustomError;
use mole::site::{
    build_category_index, build_tag_index, group_render_errors, parse_backtrace,
};

fn article(md: &str, path: &str) -> Article {
    Article::parse(md, path).unwrap()
}

#[test]
fn shared_template_failures_are_batched_once() {
    let msg = "failed\nfrom: {% include 'default' %}".to_string();
    let failures = vec![
        ("a.md".to_string(), msg.clone()),
        ("b.md".to_string(), msg.clone()),
    ];
    let (grouped, singles) = group_render_errors(&failures);
    assert_eq!(1, grouped.len());
    assert_eq!(format!("Template {}", msg), grouped[0].0);
    assert_eq!(vec!["a.md".to_string(), "b.md".to_string()], grouped[0].1);
    assert!(singles.is_empty());
}

#[test]
fn document_specific_failures_stay_separate() {
    let failures = vec![
        ("a.md".to_string(), "bad variable".to_string()),
        ("b.md".to_string(), "bad variable".to_string()),
    ];
    let (grouped, singles) = group_render_errors(&failures);
    assert!(grouped.is_empty());
    assert_eq!(2, singles.len());
    assert_eq!(("a.md".to_string(), "bad variable".to_string()), singles[0]);
    assert_eq!(("b.md".to_string(), "bad variable".to_string()), singles[1]);
}

#[test]
fn mixed_failures_split_between_reports() {
    let shared = "x\nfrom: {% include 'base' %}".to_string();
    let failures = vec![
        ("a.md".to_string(), shared.clone()),
        ("b.md".to_string(), "own problem".to_string()),
        ("c.md".to_string(), shared.clone()),
    ];
    let (grouped, singles) = group_render_errors(&failures);
    assert_eq!(1, grouped.len());
    assert_eq!(vec!["a.md".to_string(), "c.md".to_string()], grouped[0].1);
    assert_eq!(1, singles.len());
    assert_eq!("b.md", singles[0].0);
}

#[test]
fn tag_index_collects_urls_in_order() {
    let arts = vec![
        article("---\ntitle:one\ntags: a, b\n---\nx", "one.md"),
        article("---\ntitle:two\ntags: b\n---\nx", "two.md"),
    ];
    let idx = build_tag_index(&arts);
    assert_eq!(2, idx.len());
    assert_eq!("a", idx[0].0);
    assert_eq!(vec!["one.html".to_string()], idx[0].1);
    assert_eq!("b", idx[1].0);
    assert_eq!(vec!["one.html".to_string(), "two.html".to_string()], idx[1].1);
}

#[test]
fn category_index_is_separate_from_tags() {
    let arts = vec![
        article("---\ntitle:one\ntags: a\ncategories: c\n---\nx", "one.md"),
    ];
    let tags = build_tag_index(&arts);
    let cats = build_category_index(&arts);
    assert_eq!("a", tags[0].0);
    assert_eq!("c", cats[0].0);
}

#[test]
fn backtrace_annotates_known_partials() {
    let error = "from: {% include 'x' %}\n    \"name\"\nrest";
    let templates = vec![("name".to_string(), "/p/name.html".to_string())];
    assert_eq!(
        "from: {% include 'x' %}\n    \"name\"\n    name = /p/name.html\nrest\n",
        parse_backtrace(error, &templates)
    );
}

#[test]
fn backtrace_passes_unknown_lines_through() {
    let error = "plain first line\nsecond line";
    let templates: Vec<(String, String)> = Vec::new();
    assert_eq!("plain first line\nsecond line\n", parse_backtrace(error, &templates));
}

#[test]
fn backtrace_drops_quoted_names_not_on_record() {
    let error = "from: {% include 'x' %}\n    \"ghost\"\ntail";
    let templates: Vec<(String, String)> = Vec::new();
    assert_eq!(
        "from: {% include 'x' %}\n\ntail\n",
        parse_backtrace(error, &templates)
    );
}

#[test]
fn contexts_build_without_articles() {
    let arts: Vec<Article> = Vec::new();
    let g = mole::site::global_context(&arts);
    let s = mole::site::site_context(&arts);
    assert!(matches!(g, mole::bindings::TemplateValue::Obj(_)));
    assert!(matches!(s, mole::bindings::TemplateValue::Obj(_)));
}

#[test]
fn custom_error_describe_prefixes() {
    assert_eq!("IO error: x\n", CustomError::IOError("x".to_string()).describe());
    assert_eq!("Liquid error: y\n", CustomError::LiquidError("y".to_string()).describe());
}
