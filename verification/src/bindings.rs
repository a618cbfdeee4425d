//! The variable bindings handed to the template engine: a tagged value tree
//! with a stable, fully specified shape per rendering phase.

use vstd::prelude::*;

use crate::article::{Config, ConfigModel};

verus! {

broadcast use vstd::std_specs::vec::group_vec_axioms;

/// A template-engine value: a string, a number, a truth value, nothing, a
/// list, or a key/value tree.
pub enum TemplateValue {
    Str(String),
    Int(i64),
    Flag(bool),
    Nil,
    List(Vec<TemplateValue>),
    Obj(Vec<(String, TemplateValue)>),
}

/// One key/value pair of a spec-level binding tree.
#[verifier::ext_equal]
pub struct BindingPair {
    pub key: Seq<char>,
    pub value: BindingModel,
}

/// The spec-level shape of a [`TemplateValue`].
#[verifier::ext_equal]
pub enum BindingModel {
    Str(Seq<char>),
    Int(int),
    Flag(bool),
    Nil,
    List(Seq<BindingModel>),
    Obj(Seq<BindingPair>),
}

/// The model a binding tree stands for.
pub open spec fn binding_model(v: TemplateValue) -> BindingModel
    decreases v,
{
    match v {
        TemplateValue::Str(s) => BindingModel::Str(s@),
        TemplateValue::Int(i) => BindingModel::Int(i as int),
        TemplateValue::Flag(b) => BindingModel::Flag(b),
        TemplateValue::Nil => BindingModel::Nil,
        TemplateValue::List(xs) => BindingModel::List(binding_models_of(xs@)),
        TemplateValue::Obj(ps) => BindingModel::Obj(binding_pairs_of(ps@)),
    }
}

/// The models of a sequence of binding trees, in order.
pub open spec fn binding_models_of(s: Seq<TemplateValue>) -> Seq<BindingModel>
    decreases s,
{
    if s.len() == 0 {
        Seq::empty()
    } else {
        seq![binding_model(s[0])] + binding_models_of(s.drop_first())
    }
}

/// The models of a sequence of key/value pairs, in order.
pub open spec fn binding_pairs_of(s: Seq<(String, TemplateValue)>) -> Seq<BindingPair>
    decreases s,
{
    if s.len() == 0 {
        Seq::empty()
    } else {
        seq![BindingPair { key: s[0].0@, value: binding_model(s[0].1) }] + binding_pairs_of(
            s.drop_first(),
        )
    }
}

pub proof fn lemma_binding_models_of(s: Seq<TemplateValue>)
    ensures
        binding_models_of(s).len() == s.len(),
        forall|i: int| 0 <= i < s.len() ==> binding_models_of(s)[i] == binding_model(s[i]),
    decreases s.len(),
{
    if s.len() > 0 {
        lemma_binding_models_of(s.drop_first());
    }
}

pub proof fn lemma_binding_pairs_of(s: Seq<(String, TemplateValue)>)
    ensures
        binding_pairs_of(s).len() == s.len(),
        forall|i: int|
            0 <= i < s.len() ==> binding_pairs_of(s)[i] == (BindingPair {
                key: s[i].0@,
                value: binding_model(s[i].1),
            }),
    decreases s.len(),
{
    if s.len() > 0 {
        lemma_binding_pairs_of(s.drop_first());
    }
}

/// A copy of a binding tree that stands for the same model: strings are
/// cloned, lists and key/value trees copied element by element.
#[verifier::loop_isolation(false)]
pub fn clone_value(v: &TemplateValue) -> (r: TemplateValue)
    ensures
        binding_model(r) == binding_model(*v),
    decreases *v,
{
    match v {
        TemplateValue::Str(s) => TemplateValue::Str(s.clone()),
        TemplateValue::Int(i) => TemplateValue::Int(*i),
        TemplateValue::Flag(b) => TemplateValue::Flag(*b),
        TemplateValue::Nil => TemplateValue::Nil,
        TemplateValue::List(xs) => {
            let mut out: Vec<TemplateValue> = Vec::new();
            let mut k: usize = 0;
            while k < xs.len()
                invariant
                    0 <= k <= xs@.len(),
                    out@.len() == k,
                    forall|i: int|
                        0 <= i < k ==> binding_model(#[trigger] out@[i]) == binding_model(xs@[i]),
                decreases xs@.len() - k,
            {
                out.push(clone_value(&xs[k]));
                k = k + 1;
            }
            let r = TemplateValue::List(out);
            proof {
                lemma_binding_models_of(r->List_0@);
                lemma_binding_models_of(xs@);
                assert(binding_models_of(r->List_0@) =~= binding_models_of(xs@));
            }
            r
        },
        TemplateValue::Obj(ps) => {
            let mut out: Vec<(String, TemplateValue)> = Vec::new();
            let mut k: usize = 0;
            while k < ps.len()
                invariant
                    0 <= k <= ps@.len(),
                    out@.len() == k,
                    forall|i: int|
                        0 <= i < k ==> (#[trigger] out@[i]).0@ == ps@[i].0@ && binding_model(
                            out@[i].1,
                        ) == binding_model(ps@[i].1),
                decreases ps@.len() - k,
            {
                let key = ps[k].0.clone();
                let val = clone_value(&ps[k].1);
                out.push((key, val));
                k = k + 1;
            }
            let r = TemplateValue::Obj(out);
            proof {
                lemma_binding_pairs_of(r->Obj_0@);
                lemma_binding_pairs_of(ps@);
                assert(binding_pairs_of(r->Obj_0@) =~= binding_pairs_of(ps@));
            }
            r
        },
    }
}

/// The bindings a document exposes to the engine: the body of the current
/// phase under `content`, the configuration's fields at the top level and
/// again under `config`, and the document's URL.
pub open spec fn page_bindings_model(cfg: ConfigModel, url: Seq<char>, content: Seq<char>) -> BindingModel {
    BindingModel::Obj(
        seq![
            BindingPair { key: "content"@, value: BindingModel::Str(content) },
            BindingPair { key: "title"@, value: BindingModel::Str(cfg.title) },
            BindingPair { key: "description"@, value: BindingModel::Str(cfg.description) },
            BindingPair {
                key: "tags"@,
                value: BindingModel::List(
                    Seq::new(cfg.tags.len(), |i: int| BindingModel::Str(cfg.tags[i])),
                ),
            },
            BindingPair {
                key: "categories"@,
                value: BindingModel::List(
                    Seq::new(cfg.categories.len(), |i: int| BindingModel::Str(cfg.categories[i])),
                ),
            },
            BindingPair {
                key: "date"@,
                value: (match cfg.date {
                    Some(d) => BindingModel::Str(d),
                    None => BindingModel::Nil,
                }),
            },
            BindingPair { key: "config"@, value: config_bindings_model(cfg) },
            BindingPair { key: "url"@, value: BindingModel::Str(url) },
        ],
    )
}

/// The `config` sub-tree of a page's bindings: every configuration field by
/// name.
pub open spec fn config_bindings_model(cfg: ConfigModel) -> BindingModel {
    BindingModel::Obj(
        seq![
            BindingPair { key: "title"@, value: BindingModel::Str(cfg.title) },
            BindingPair { key: "description"@, value: BindingModel::Str(cfg.description) },
            BindingPair {
                key: "tags"@,
                value: BindingModel::List(
                    Seq::new(cfg.tags.len(), |i: int| BindingModel::Str(cfg.tags[i])),
                ),
            },
            BindingPair {
                key: "categories"@,
                value: BindingModel::List(
                    Seq::new(cfg.categories.len(), |i: int| BindingModel::Str(cfg.categories[i])),
                ),
            },
            BindingPair { key: "visible"@, value: BindingModel::Flag(cfg.visible) },
            BindingPair { key: "layout"@, value: BindingModel::Str(cfg.layout) },
            BindingPair {
                key: "date"@,
                value: (match cfg.date {
                    Some(d) => BindingModel::Str(d),
                    None => BindingModel::Nil,
                }),
            },
        ],
    )
}

pub(crate) fn strings_to_values(items: &Vec<String>) -> (r: Vec<TemplateValue>)
    ensures
        r@.len() == items@.len(),
        forall|i: int|
            0 <= i < items@.len() ==> binding_model(#[trigger] r@[i]) == BindingModel::Str(
                items@[i]@,
            ),
{
    let mut out: Vec<TemplateValue> = Vec::new();
    let mut k: usize = 0;
    while k < items.len()
        invariant
            0 <= k <= items@.len(),
            out@.len() == k,
            forall|i: int|
                0 <= i < k ==> binding_model(#[trigger] out@[i]) == BindingModel::Str(items@[i]@),
        decreases items@.len() - k,
    {
        out.push(TemplateValue::Str(items[k].clone()));
        k = k + 1;
    }
    out
}

/// Builds a document's engine-facing bindings from its configuration, its
/// URL, and the body of the current phase.
fn config_bindings(config: &Config) -> (r: TemplateValue)
    ensures
        binding_model(r) == config_bindings_model(config@),
{
    let tags = strings_to_values(&config.tags);
    let categories = strings_to_values(&config.categories);
    let date_value = match &config.date {
        Some(d) => TemplateValue::Str(d.clone()),
        None => TemplateValue::Nil,
    };
    let mut pairs: Vec<(String, TemplateValue)> = Vec::new();
    pairs.push((String::from_str("title"), TemplateValue::Str(config.title.clone())));
    pairs.push((String::from_str("description"), TemplateValue::Str(config.description.clone())));
    pairs.push((String::from_str("tags"), TemplateValue::List(tags)));
    pairs.push((String::from_str("categories"), TemplateValue::List(categories)));
    pairs.push((String::from_str("visible"), TemplateValue::Flag(config.visible)));
    pairs.push((String::from_str("layout"), TemplateValue::Str(config.layout.clone())));
    pairs.push((String::from_str("date"), date_value));
    let r = TemplateValue::Obj(pairs);
    proof {
        lemma_binding_pairs_of(pairs@);
        lemma_binding_models_of(tags@);
        lemma_binding_models_of(categories@);
        assert(pairs@.len() == 7);
        assert(binding_models_of(tags@) =~= Seq::new(
            config@.tags.len(),
            |i: int| BindingModel::Str(config@.tags[i]),
        ));
        assert(binding_models_of(categories@) =~= Seq::new(
            config@.categories.len(),
            |i: int| BindingModel::Str(config@.categories[i]),
        ));
        let got = binding_pairs_of(pairs@);
        assert(binding_model(r) == BindingModel::Obj(got));
        assert(config_bindings_model(config@) matches BindingModel::Obj(w) && got =~~= w);
        assert(binding_model(r) =~~= config_bindings_model(config@));
    }
    r
}

/// Builds a document's engine-facing bindings: `content` holds the body of
/// the current phase, the configuration's fields stand at the top level and
/// again under `config`, and `url` is the document's URL.
pub fn page_bindings(config: &Config, url: &String, content: &String) -> (r: TemplateValue)
    ensures
        binding_model(r) == page_bindings_model(config@, url@, content@),
{
    let tags = strings_to_values(&config.tags);
    let categories = strings_to_values(&config.categories);
    let date_value = match &config.date {
        Some(d) => TemplateValue::Str(d.clone()),
        None => TemplateValue::Nil,
    };
    let cfg_obj = config_bindings(config);
    let mut pairs: Vec<(String, TemplateValue)> = Vec::new();
    pairs.push((String::from_str("content"), TemplateValue::Str(content.clone())));
    pairs.push((String::from_str("title"), TemplateValue::Str(config.title.clone())));
    pairs.push((String::from_str("description"), TemplateValue::Str(config.description.clone())));
    pairs.push((String::from_str("tags"), TemplateValue::List(tags)));
    pairs.push((String::from_str("categories"), TemplateValue::List(categories)));
    pairs.push((String::from_str("date"), date_value));
    pairs.push((String::from_str("config"), cfg_obj));
    pairs.push((String::from_str("url"), TemplateValue::Str(url.clone())));
    let r = TemplateValue::Obj(pairs);
    proof {
        lemma_binding_pairs_of(pairs@);
        lemma_binding_models_of(tags@);
        lemma_binding_models_of(categories@);
        assert(pairs@.len() == 8);
        assert(binding_models_of(tags@) =~= Seq::new(
            config@.tags.len(),
            |i: int| BindingModel::Str(config@.tags[i]),
        ));
        assert(binding_models_of(categories@) =~= Seq::new(
            config@.categories.len(),
            |i: int| BindingModel::Str(config@.categories[i]),
        ));
        let got = binding_pairs_of(pairs@);
        assert(binding_model(r) == BindingModel::Obj(got));
        assert(page_bindings_model(config@, url@, content@) matches BindingModel::Obj(w) && got
            =~~= w);
        assert(binding_model(r) =~~= page_bindings_model(config@, url@, content@));
    }
    r
}

} // verus!
