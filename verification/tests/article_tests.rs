use mole::article::{layout_warning, Article, Config, LayoutWarning};
use mole::article::parse as parse_document;
use mole::parse::ParseError;

fn create_article(md: &str, path: &str) -> Result<Article, ParseError> {
    Article::parse(md, path)
}

#[test]
fn empty_content() {
    assert_eq!(
        Some(ParseError::InvalidConfig(
            "no at '---' for the last line of the configuration".to_string()
        )),
        create_article("", "empty_content").err()
    );
}

#[test]
fn test_empty_template() {
    let a: Article = create_article(
        "---\nlayout:page\ntitle:cats and dogs\n---",
        "test_empty_template",
    )
    .unwrap();
    assert_eq!("", a.template);
}

#[test]
fn parse() {
    let a: Article =
        create_article("---\nlayout:page\ntitle:cats and dogs\n---\ncat", "parse").unwrap();
    assert_eq!("cat", a.template);
    assert_eq!("page", a.config.layout);
}

#[test]
fn parse_template_muli_line() {
    let a: Article = create_article(
        "---\nlayout:page\ntitle:cats and dogs\n---\ncat\ncat\ncat\ncat\ncat",
        "parse_template_multi_line",
    )
    .unwrap();
    assert_eq!("cat\ncat\ncat\ncat\ncat", a.template);
    assert_eq!("page", a.config.layout);
}

#[test]
fn template_md_line() {
    let a: Article = create_article(
        "---\nlayout:page\ntitle:cats and dogs\n---\ncat---dog",
        "template_md_line",
    )
    .unwrap();
    assert_eq!("cat---dog", a.template);
    assert_eq!("page", a.config.layout);
}

#[test]
fn parse_with_real() {
    let a: Article = create_article(
        "---\nlayout: page\ntitle:cats and dogs\n---\ncat",
        "parse_with_real",
    )
    .unwrap();
    assert_eq!("cat", a.template);
    assert_eq!("page", a.config.layout);
}

#[test]
fn more_than_three_dashes() {
    let e = create_article(
        "----\nlayout:page\ntitle:cats and dogs\n-------\ncat",
        "more_than_three_seconds",
    )
    .err();
    assert!(e != None, "no error found");
    match e {
        Some(ParseError::InvalidConfig(config)) => {
            assert!(config.contains("configuration needs to start with '---' for the first line"), "expected string to end with 'configuration needs to start with '---' for the first line' found {}", config)
        }
        _ => assert!(false, "looking for ParseError::InvalidConfig found {:?}", e)
    }
}

#[test]
fn header_defaults_apply() {
    let (config, body) =
        parse_document("---\nlayout:page\ntitle:cats and dogs\n---\ncat", "defaults.md").unwrap();
    assert_eq!("default", config.base_layout);
    assert_eq!(false, config.visible);
    assert_eq!("", config.description);
    assert_eq!("", config.permalink);
    assert_eq!(None, config.date);
    assert!(config.tags.is_empty());
    assert!(config.categories.is_empty());
    assert_eq!("cat\n", body);
}

#[test]
fn crlf_lines_are_accepted() {
    let a = create_article("---\r\nlayout: page\r\ntitle:cats and dogs\n---\r\ncat", "crlf.md")
        .unwrap();
    assert_eq!("cat", a.template);
    assert_eq!("page", a.config.layout);
}

#[test]
fn url_is_percent_escaped_title() {
    let a = create_article("---\ntitle:cats and dogs\n---\ncat", "url.md").unwrap();
    assert_eq!("cats%20and%20dogs.html", a.url);
}

#[test]
fn url_prefers_permalink() {
    let a = create_article("---\ntitle:cats\npermalink: /pets/cats/\n---\ncat", "url2.md")
        .unwrap();
    assert_eq!("/pets/cats/", a.url);
}

#[test]
fn title_falls_back_to_file_name() {
    let (config, _) = parse_document("---\nlayout:page\n---\ncat", "posts/first-post.md").unwrap();
    assert_eq!("first-post", config.title);
}

#[test]
fn missing_title_and_file_name_fails() {
    let e = parse_document("---\nlayout:page\n---\ncat", "..").err();
    assert!(matches!(e, Some(ParseError::InvalidValue(_))));
}

#[test]
fn title_fallback_ignores_trailing_slash() {
    let (config, _) = parse_document("---\nlayout:page\n---\ncat", "posts/sub/").unwrap();
    assert_eq!("sub", config.title);
}

#[test]
fn date_key_is_normalized() {
    let (config, _) = parse_document("---\ntitle:x\ndate: 2020-01-01\n---\nbody", "d.md").unwrap();
    assert_eq!(Some("2020-01-01 00:00:00".to_string()), config.date);
}

#[test]
fn tags_and_categories_parse_as_lists() {
    let (config, _) =
        parse_document("---\ntitle:x\ntags: [a, b]\ncategories: 'c,d', e\n---\nbody", "t.md").unwrap();
    assert_eq!(vec!["a", "b"], config.tags);
    assert_eq!(vec!["c,d", "e"], config.categories);
}

#[test]
fn titlebar_sets_visible() {
    let (config, _) = parse_document("---\ntitle:x\ntitlebar: true\n---\nbody", "t2.md").unwrap();
    assert_eq!(true, config.visible);
}

#[test]
fn unknown_key_is_fatal() {
    let e = parse_document("---\ntitle:x\ncolour: red\n---\nbody", "t3.md").err();
    match e {
        Some(ParseError::InvalidKey(config)) => assert!(
            config.contains("unknown key"),
            "expected 'unknown key' in {}",
            config
        ),
        _ => assert!(false, "expected an unknown-key error"),
    }
}

#[test]
fn empty_config_block_is_fatal() {
    let e = parse_document("---\n---\ncat", "posts/only-dashes.md").err();
    match e {
        Some(ParseError::InvalidConfig(config)) => assert!(
            config.contains("empty config no key value pairs found"),
            "expected empty-config report in {}",
            config
        ),
        _ => assert!(false, "expected a structural error"),
    }
}

#[test]
fn config_default_values() {
    let c = Config::default();
    assert_eq!("", c.layout);
    assert_eq!("default", c.base_layout);
    assert_eq!("", c.title);
    assert_eq!(false, c.visible);
    assert_eq!(None, c.date);
}

#[test]
fn warning_on_defaulted_recursion() {
    let (config, _) = parse_document("---\ntitle:x\nlayout: default\n---\ncat", "w.md").unwrap();
    assert_eq!(Some(LayoutWarning::DefaultRecursion), layout_warning(&config));
}

#[test]
fn warning_on_duplicated_custom_layout() {
    let (config, _) =
        parse_document("---\ntitle:x\nlayout: page\nbase_layout: page\n---\ncat", "w2.md").unwrap();
    assert_eq!(Some(LayoutWarning::DuplicateLayout), layout_warning(&config));
}

#[test]
fn no_warning_on_distinct_layouts() {
    let (config, _) = parse_document("---\ntitle:x\nlayout: page\n---\ncat", "w3.md").unwrap();
    assert_eq!(None, layout_warning(&config));
}

#[test]
fn path_file_name_strips_extension() {
    assert_eq!(
        "header",
        mole::util::path_file_name_to_string("includes/header.html").unwrap()
    );
    assert_eq!(
        "includes",
        mole::util::path_file_name_to_string("includes/").unwrap()
    );
    assert_eq!(
        "bin",
        mole::util::path_file_name_to_string("/usr/bin/").unwrap()
    );
    assert!(mole::util::path_file_name_to_string("..").is_err());
    assert!(mole::util::path_file_name_to_string("/").is_err());
    assert!(mole::util::path_file_name_to_string("a/..").is_err());
}

#[test]
fn body_keeps_bare_delimiter_lines() {
    let (_, body) = parse_document("---\ntitle:x\n---\nbody\n---\nmore", "b.md").unwrap();
    assert_eq!("body\n---\nmore\n", body);
}

#[test]
fn diagnostics_carry_line_numbers() {
    let e = parse_document("---\ntitlebar: maybe\n---\nx", "n.md").err();
    match e {
        Some(ParseError::InvalidValue(m)) => {
            assert!(m.contains("--> n.md 2:10"), "expected the location in {}", m)
        }
        _ => panic!("expected an invalid boolean value"),
    }
}

#[test]
fn header_defaults_apply_quoted_and_reordered() {
    let (config, body) =
        parse_document("---\ntitle: 'cats and dogs'\nlayout: \"page\"\n---\ncat", "q.md").unwrap();
    assert_eq!("default", config.base_layout);
    assert_eq!(false, config.visible);
    assert_eq!("cats and dogs", config.title);
    assert_eq!("page", config.layout);
    assert_eq!("cat\n", body);
}
