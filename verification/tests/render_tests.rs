use kstring::KString;
use liquid::Object;
use std::io::Write;

use liquid_core::error::ResultLiquidExt;
use liquid_core::Expression;
use liquid_core::Language;
use liquid_core::Renderable;
use liquid_core::Runtime;
use liquid_core::Value;
use liquid_core::ValueView;
use liquid_core::{Error, ParseTag, TagReflection, TagTokenIter};

use mole::article::Article;
use mole::bindings::TemplateValue;
use mole::error::CustomError;
use mole::parse::ParseError;

#[derive(Debug)]
struct TagCall {
    partial: Expression,
    vars: Vec<(KString, Expression)>,
}

impl Renderable for TagCall {
    fn render_to(&self, writer: &mut dyn Write, runtime: &mut Runtime<'_>) -> liquid_core::Result<()> {
        let value = self.partial.evaluate(runtime)?;
        if !value.is_scalar() {
            return Error::with_msg("Can only `include` strings")
                .context("partial", format!("{}", value.source()))
                .into_err();
        }

        let name = value.to_kstr().into_owned();
        runtime.run_in_named_scope(name.clone(), |mut scope| -> liquid_core::Result<()> {
            if !self.vars.is_empty() {
                let mut helper_vars = Object::new();
                for (id, val) in &self.vars {
                    helper_vars.insert(
                        id.clone(),
                        val.try_evaluate(scope)
                            .ok_or_else(|| Error::with_msg("failed to evaluate value"))?
                            .into_owned(),
                    );
                }
                scope.stack_mut().set("include", Value::Object(helper_vars));
            }

            let partial = scope
                .partials()
                .get(&name)
                .trace_with(|| format!("{{% include {} %}}", self.partial).into())?;

            partial
                .render_to(writer, &mut scope)
                .trace_with(|| format!("{{% include {} %}}", self.partial).into())
                .context_key_with(|| self.partial.to_string().into())
                .value_with(|| name.to_string().into())
        })?;

        Ok(())
    }

    fn render(&self, runtime: &mut Runtime<'_>) -> liquid_core::Result<String> {
        let mut data = Vec::new();
        self.render_to(&mut data, runtime)?;
        Ok(String::from_utf8(data).expect("render only writes UTF-8"))
    }
}

#[derive(Copy, Clone, Debug, Default)]
struct IncludeTag;

impl TagReflection for IncludeTag {
    fn tag(&self) -> &'static str {
        "include"
    }

    fn description(&self) -> &'static str {
        ""
    }
}

impl ParseTag for IncludeTag {
    fn parse(
        &self,
        mut arguments: TagTokenIter<'_>,
        _options: &Language,
    ) -> liquid_core::Result<Box<dyn Renderable>> {
        let name = arguments.expect_next("Identifier or literal expected.")?;
        let name = name.expect_value().into_result()?;

        let mut vars: Vec<(KString, Expression)> = Vec::new();
        while let Ok(next) = arguments.expect_next("") {
            let id = next.expect_value().into_result()?.to_string();

            arguments
                .expect_next("expected string")?
                .expect_str("=")
                .into_result_custom_msg("expected '=' to be used for the assignment")?;

            vars.push((
                id.into(),
                arguments
                    .expect_next("expected expression/value")?
                    .expect_value()
                    .into_result()?,
            ));
        }

        arguments.expect_nothing()?;

        Ok(Box::new(TagCall {
            partial: name,
            vars,
        }))
    }

    fn reflection(&self) -> &dyn TagReflection {
        self
    }
}

type Partials = liquid::partials::EagerCompiler<liquid::partials::InMemorySource>;

fn create_article(md: &str, path: &str) -> Result<Article, ParseError> {
    Article::parse(md, path)
}

fn gen_render_mocks(
    md: &str,
    path: &str,
    mocks: Vec<(String, String)>,
    global: &TemplateValue,
) -> Result<String, CustomError> {
    let a = create_article(md, path).unwrap();
    let mut source = Partials::empty();
    for (k, v) in mocks {
        source.add(k, v);
    }

    let parser = liquid::ParserBuilder::with_stdlib()
        .partials(source)
        .tag(IncludeTag)
        .build()
        .unwrap();

    a.true_render(global, &TemplateValue::Obj(vec![]), &parser)
}

fn empty_global() -> TemplateValue {
    TemplateValue::Obj(vec![])
}

fn test_global() -> TemplateValue {
    TemplateValue::Obj(vec![("test".to_string(), TemplateValue::Int(1))])
}

#[test]
fn render_default_layout() {
    assert_eq!(
        "cats",
        gen_render_mocks(
            "---\r\nlayout: page\r\ntitle:cats and dogs\n---\r\ncat",
            "render_default_layout",
            vec![("default".to_string(), "cats".to_string())],
            &empty_global()
        )
        .unwrap()
    );
}

#[test]
fn render_globals() {
    assert_eq!(
        "test1 <p>cat</p>\n",
        gen_render_mocks(
            "---\r\nlayout: page\r\ntitle:cats and dogs\n---\r\ncat",
            "render_globals",
            vec![("default".to_string(), "{{global}} {{content}}".to_string())],
            &test_global()
        )
        .unwrap()
    );
}

#[test]
fn render_globals_scope() {
    assert_eq!(
        "1".to_string(),
        gen_render_mocks(
            "---\r\nlayout: page\r\ntitle:cats and dogs\n---\r\ncat",
            "render_globals_scope",
            vec![("default".to_string(), "{{global.test}}".to_string())],
            &test_global()
        )
        .unwrap()
    );
}

#[test]
fn render_content() {
    assert_eq!(
        "<h1>cats and dogs</h1><p>cat</p>\n".to_string(),
        gen_render_mocks(
            "---\r\nlayout: page\r\ntitle:cats and dogs\n---\r\ncat",
            "render_content",
            vec![(
                "default".to_string(),
                "<h1>{{page.title}}</h1>{{content}}".to_string()
            )],
            &test_global()
        )
        .unwrap()
    );
}

#[test]
fn render_content_with_html_in_md() {
    assert_eq!(
        "<h1>cats and dogs</h1><p>cat<span>hello world</span></p>\n".to_string(),
        gen_render_mocks(
            "---\r\nlayout: page\r\ntitle:cats and dogs\n---\r\ncat<span>hello world</span>",
            "render_content_with_html_in_md",
            vec![(
                "default".to_string(),
                "<h1>{{page.title}}</h1>{{content}}".to_string()
            )],
            &test_global()
        )
        .unwrap()
    );
}

#[test]
fn render_chained_includes() {
    assert_eq!(
        "I am a header<p>cat</p>\n".to_string(),
        gen_render_mocks(
            "---\r\nlayout: page\r\ntitle:cats and dogs\n---\r\ncat",
            "render_chained_includes",
            vec![
                (
                    "default".to_string(),
                    "{% include 'header' %}{% include layout %}".to_string()
                ),
                ("header".to_string(), "I am a header".to_string()),
                ("page2".to_string(), "1".to_string()),
                ("page3".to_string(), "2".to_string()),
                ("page".to_string(), "{{content}}".to_string()),
                ("page4".to_string(), "3".to_string())
            ],
            &test_global()
        )
        .unwrap()
    );
}

#[test]
fn render_template_jekyll() {
    assert_eq!(
        "<h1>mole</h1><p>cat mole</p>\n".to_string(),
        gen_render_mocks(
            "---\r\nlayout: page\r\ntitle:mole\n---\r\ncat {{page.title}}",
            "render_template_jekyll",
            vec![
                (
                    "default".to_string(),
                    "<h1>{{page.title}}</h1>{% include page.config.layout %}".to_string()
                ),
                ("page".to_string(), "{{content}}".to_string())
            ],
            &test_global()
        )
        .unwrap()
    );
}

#[test]
fn render_config_scoped_title() {
    assert_eq!(
        "<h1>cats and dogs</h1><p>cat</p>\n".to_string(),
        gen_render_mocks(
            "---\r\nlayout: page\r\ntitle:cats and dogs\n---\r\ncat",
            "render_config_scoped_title",
            vec![(
                "default".to_string(),
                "<h1>{{page.config.title}}</h1>{{content}}".to_string()
            )],
            &test_global()
        )
        .unwrap()
    );
}

#[test]
fn render_plain_text_changes_only_by_markdown_wrapping() {
    assert_eq!(
        "<p>plain words stay put</p>\n".to_string(),
        gen_render_mocks(
            "---\nlayout: page\ntitle:t\n---\nplain words stay put",
            "render_plain_text",
            vec![("default".to_string(), "{{content}}".to_string())],
            &empty_global()
        )
        .unwrap()
    );
}

#[test]
fn render_default_recursion_warning_still_renders() {
    let a = create_article(
        "---\nlayout: default\ntitle:t\n---\ncat",
        "render_default_recursion",
    )
    .unwrap();
    assert_eq!(
        Some(mole::article::LayoutWarning::DefaultRecursion),
        mole::article::layout_warning(&a.config)
    );
    let mut source = Partials::empty();
    source.add("default".to_string(), "X{{content}}".to_string());
    let parser = liquid::ParserBuilder::with_stdlib()
        .partials(source)
        .tag(IncludeTag)
        .build()
        .unwrap();
    assert_eq!(
        "X<p>cat</p>\n",
        a.true_render(&empty_global(), &empty_global(), &parser).unwrap()
    );
}

#[test]
fn render_tag_arguments_reach_partial() {
    assert_eq!(
        "<img src=\"foo.png\" />",
        gen_render_mocks(
            "---\nlayout: page\ntitle:t\n---\ncat",
            "render_tag_arguments",
            vec![
                (
                    "default".to_string(),
                    "{% include 'img' path='foo.png' %}".to_string()
                ),
                ("img".to_string(), "<img src=\"{{include.path}}\" />".to_string())
            ],
            &empty_global()
        )
        .unwrap()
    );
}

#[test]
fn render_unknown_partial_is_template_error() {
    let r = gen_render_mocks(
        "---\nlayout: page\ntitle:t\n---\ncat",
        "render_unknown_partial",
        vec![("default".to_string(), "{% include 'missing' %}".to_string())],
        &empty_global(),
    );
    match r {
        Err(CustomError::LiquidError(m)) => {
            assert!(m.contains("missing"), "expected the partial's name in {}", m)
        }
        _ => assert!(false, "expected a template error"),
    }
}
