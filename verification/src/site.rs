//! The pure bookkeeping of a whole-site build: the tag and category
//! indices, the site-wide template contexts, and the grouping of render
//! failures that share a broken template.

use vstd::prelude::*;

use crate::article::Article;
use crate::bindings::{
    binding_model, page_bindings_model, BindingModel, BindingPair, TemplateValue,
};
use crate::text::{str_to_chars, views_of_strs, window_eq};

verus! {

broadcast use vstd::std_specs::vec::group_vec_axioms;

/// Whether `needle` occurs in `hay` as a contiguous run.
pub open spec fn contains_seq(hay: Seq<char>, needle: Seq<char>) -> bool {
    exists|i: int|
        0 <= i && i + needle.len() <= hay.len() && #[trigger] hay.subrange(i, i + needle.len())
            == needle
}

pub fn contains_chars(hay: &Vec<char>, needle: &str) -> (r: bool)
    ensures
        r == contains_seq(hay@, needle@),
{
    if needle.unicode_len() == 0 {
        proof {
            assert(contains_seq(hay@, needle@)) by {
                assert(hay@.subrange(0, 0 + needle@.len() as int) =~= needle@);
            }
        }
        return true;
    }
    let mut i: usize = 0;
    while i < hay.len()
        invariant
            0 <= i <= hay@.len(),
            forall|j: int|
                0 <= j < i ==> !(j + needle@.len() <= hay@.len() && #[trigger] hay@.subrange(
                    j,
                    j + needle@.len(),
                ) == needle@),
        decreases hay@.len() - i,
    {
        if window_eq(hay, i, needle) {
            return true;
        }
        i = i + 1;
    }
    proof {
        assert(!contains_seq(hay@, needle@)) by {
            if contains_seq(hay@, needle@) {
                let j = choose|j: int|
                    0 <= j && j + needle@.len() <= hay@.len() && #[trigger] hay@.subrange(
                        j,
                        j + needle@.len(),
                    ) == needle@;
                assert(j < hay@.len());
            }
        }
    }
    false
}

/// The marker by which a render failure is attributed to a shared template:
/// the engine's trace names the frame of an include expression.
pub open spec fn is_shared_failure(msg: Seq<char>) -> bool {
    contains_seq(msg, "from: {% include"@)
}

fn shared_failure(msg: &Vec<char>) -> (r: bool)
    ensures
        r == is_shared_failure(msg@),
{
    contains_chars(msg, "from: {% include")
}

/// An association list from a key to the values collected under it, in
/// first-appearance order of the keys.
pub open spec fn index_view(v: Seq<(String, Vec<String>)>) -> Seq<(Seq<char>, Seq<Seq<char>>)> {
    Seq::new(v.len(), |i: int| (v[i].0@, views_of_strs(v[i].1@)))
}

/// `idx` with `val` appended under `key`: the first entry with that key
/// grows, and a missing key is appended at the end.
pub open spec fn upsert(
    idx: Seq<(Seq<char>, Seq<Seq<char>>)>,
    key: Seq<char>,
    val: Seq<char>,
) -> Seq<(Seq<char>, Seq<Seq<char>>)>
    decreases idx.len(),
{
    if idx.len() == 0 {
        seq![(key, seq![val])]
    } else if idx[0].0 == key {
        seq![(idx[0].0, idx[0].1.push(val))] + idx.drop_first()
    } else {
        seq![idx[0]] + upsert(idx.drop_first(), key, val)
    }
}

proof fn lemma_upsert_found(idx: Seq<(Seq<char>, Seq<Seq<char>>)>, key: Seq<char>, val: Seq<char>, j: int)
    requires
        0 <= j < idx.len(),
        idx[j].0 == key,
        forall|k: int| 0 <= k < j ==> idx[k].0 != key,
    ensures
        upsert(idx, key, val) =~= idx.update(j, (idx[j].0, idx[j].1.push(val))),
    decreases j,
{
    if j == 0 {
    } else {
        lemma_upsert_found(idx.drop_first(), key, val, j - 1);
        assert(idx.drop_first()[j - 1] == idx[j]);
        assert(seq![idx[0]] + idx.drop_first().update(j - 1, (idx[j].0, idx[j].1.push(val)))
            =~= idx.update(j, (idx[j].0, idx[j].1.push(val))));
    }
}

proof fn lemma_upsert_missing(idx: Seq<(Seq<char>, Seq<Seq<char>>)>, key: Seq<char>, val: Seq<char>)
    requires
        forall|k: int| 0 <= k < idx.len() ==> idx[k].0 != key,
    ensures
        upsert(idx, key, val) =~= idx.push((key, seq![val])),
    decreases idx.len(),
{
    if idx.len() > 0 {
        lemma_upsert_missing(idx.drop_first(), key, val);
        assert(seq![idx[0]] + idx.drop_first().push((key, seq![val])) =~= idx.push(
            (key, seq![val]),
        ));
    }
}

/// Appends `val` under `key` in the exec association list.
#[verifier::loop_isolation(false)]
fn upsert_exec(idx: &mut Vec<(String, Vec<String>)>, key: &String, val: &String)
    ensures
        index_view(final(idx)@) == upsert(index_view(old(idx)@), key@, val@),
{
    let mut j: usize = 0;
    while j < idx.len()
        invariant
            0 <= j <= idx@.len(),
            idx@ == old(idx)@,
            forall|k: int| 0 <= k < j ==> index_view(idx@)[k].0 != key@,
        decreases idx@.len() - j,
    {
        proof {
            assert(index_view(idx@)[j as int].0 == idx@[j as int].0@);
        }
        if idx[j].0.eq(key) {
            let mut pair = idx.remove(j);
            pair.1.push(val.clone());
            let ghost pv = pair;
            idx.insert(j, pair);
            proof {
                lemma_upsert_found(index_view(old(idx)@), key@, val@, j as int);
                assert(idx@ =~= old(idx)@.update(j as int, pv));
                assert(views_of_strs(pv.1@) =~= views_of_strs(old(idx)@[j as int].1@).push(val@));
                assert(index_view(idx@) =~= index_view(old(idx)@).update(
                    j as int,
                    (old(idx)@[j as int].0@, views_of_strs(old(idx)@[j as int].1@).push(val@)),
                ));
            }
            return ;
        }
        j = j + 1;
    }
    let mut vals: Vec<String> = Vec::new();
    vals.push(val.clone());
    idx.push((key.clone(), vals));
    proof {
        lemma_upsert_missing(index_view(old(idx)@), key@, val@);
        assert(views_of_strs(vals@) =~= seq![val@]);
        assert(index_view(idx@) =~= index_view(old(idx)@).push((key@, seq![val@])));
    }
}

/// One render failure sorted into the report: a failure whose message names
/// an include frame is collected under `Template ` and its message, every
/// other failure is reported on its own.
pub open spec fn group_step(
    grouped: Seq<(Seq<char>, Seq<Seq<char>>)>,
    singles: Seq<(Seq<char>, Seq<char>)>,
    path: Seq<char>,
    msg: Seq<char>,
) -> (Seq<(Seq<char>, Seq<Seq<char>>)>, Seq<(Seq<char>, Seq<char>)>) {
    if is_shared_failure(msg) {
        (upsert(grouped, "Template "@ + msg, path), singles)
    } else {
        (grouped, singles.push((path, msg)))
    }
}

/// The report after the first `i` failures.
pub open spec fn group_of(fails: Seq<(Seq<char>, Seq<char>)>, i: int) -> (
    Seq<(Seq<char>, Seq<Seq<char>>)>,
    Seq<(Seq<char>, Seq<char>)>,
)
    decreases i,
{
    if i <= 0 {
        (Seq::empty(), Seq::empty())
    } else {
        let acc = group_of(fails, i - 1);
        group_step(acc.0, acc.1, fails[i - 1].0, fails[i - 1].1)
    }
}

/// The views of a sequence of path/message pairs.
pub open spec fn pairs_view(v: Seq<(String, String)>) -> Seq<(Seq<char>, Seq<char>)> {
    Seq::new(v.len(), |i: int| (v[i].0@, v[i].1@))
}

/// Sorts every render failure into the build report: failures that name an
/// include frame are batched per exact message, each batch listing every
/// affected document path once in order; all other failures stay one per
/// document.
#[verifier::loop_isolation(false)]
pub fn group_render_errors(failures: &Vec<(String, String)>) -> (r: (
    Vec<(String, Vec<String>)>,
    Vec<(String, String)>,
))
    ensures
        (index_view(r.0@), pairs_view(r.1@)) == group_of(
            pairs_view(failures@),
            failures@.len() as int,
        ),
{
    let mut grouped: Vec<(String, Vec<String>)> = Vec::new();
    let mut singles: Vec<(String, String)> = Vec::new();
    let mut i: usize = 0;
    proof {
        assert(index_view(grouped@) =~= Seq::<(Seq<char>, Seq<Seq<char>>)>::empty());
        assert(pairs_view(singles@) =~= Seq::<(Seq<char>, Seq<char>)>::empty());
    }
    while i < failures.len()
        invariant
            0 <= i <= failures@.len(),
            (index_view(grouped@), pairs_view(singles@)) == group_of(
                pairs_view(failures@),
                i as int,
            ),
        decreases failures@.len() - i,
    {
        let path = &failures[i].0;
        let msg = &failures[i].1;
        let msg_chars = str_to_chars(msg.as_str());
        if shared_failure(&msg_chars) {
            let mut keyed: Vec<char> = Vec::new();
            crate::text::append_str(&mut keyed, "Template ");
            crate::text::append_chars(&mut keyed, &msg_chars);
            let key = crate::text::chars_to_string(&keyed);
            upsert_exec(&mut grouped, &key, path);
        } else {
            let ghost s0 = pairs_view(singles@);
            singles.push((path.clone(), msg.clone()));
            proof {
                assert(pairs_view(singles@) =~= s0.push((path@, msg@)));
            }
        }
        i = i + 1;
        proof {
            assert(pairs_view(failures@)[i - 1] == (path@, msg@));
        }
    }
    (grouped, singles)
}

/// `idx` with `url` recorded under every key of `keys`, in order.
pub open spec fn add_keys(
    idx: Seq<(Seq<char>, Seq<Seq<char>>)>,
    keys: Seq<Seq<char>>,
    url: Seq<char>,
) -> Seq<(Seq<char>, Seq<Seq<char>>)>
    decreases keys.len(),
{
    if keys.len() == 0 {
        idx
    } else {
        add_keys(upsert(idx, keys[0], url), keys.drop_first(), url)
    }
}

/// The tag index over the first `i` articles: each tag maps to the URLs of
/// the articles carrying it, tags in first-appearance order, URLs in article
/// order.
pub open spec fn tag_index_of(arts: Seq<Article>, i: int) -> Seq<(Seq<char>, Seq<Seq<char>>)>
    decreases i,
{
    if i <= 0 {
        Seq::empty()
    } else {
        add_keys(tag_index_of(arts, i - 1), arts[i - 1].config@.tags, arts[i - 1].url@)
    }
}

/// The category index over the first `i` articles, built as the tag index
/// is.
pub open spec fn cat_index_of(arts: Seq<Article>, i: int) -> Seq<(Seq<char>, Seq<Seq<char>>)>
    decreases i,
{
    if i <= 0 {
        Seq::empty()
    } else {
        add_keys(cat_index_of(arts, i - 1), arts[i - 1].config@.categories, arts[i - 1].url@)
    }
}

#[verifier::loop_isolation(false)]
fn add_keys_exec(
    idx: &mut Vec<(String, Vec<String>)>,
    keys: &Vec<String>,
    url: &String,
)
    ensures
        index_view(final(idx)@) == add_keys(index_view(old(idx)@), views_of_strs(keys@), url@),
{
    let ghost keyviews = views_of_strs(keys@);
    let mut k: usize = 0;
    proof {
        assert(keyviews.subrange(0, keyviews.len() as int) =~= keyviews);
    }
    while k < keys.len()
        invariant
            0 <= k <= keys@.len(),
            add_keys(index_view(old(idx)@), keyviews, url@) == add_keys(
                index_view(idx@),
                keyviews.subrange(k as int, keyviews.len() as int),
                url@,
            ),
        decreases keys@.len() - k,
    {
        let ghost rest = keyviews.subrange(k as int, keyviews.len() as int);
        let ghost before = index_view(idx@);
        upsert_exec(idx, &keys[k], url);
        proof {
            assert(rest[0] == keys@[k as int]@);
            assert(rest.drop_first() =~= keyviews.subrange(k + 1, keyviews.len() as int));
            assert(add_keys(before, rest, url@) == add_keys(
                upsert(before, keys@[k as int]@, url@),
                rest.drop_first(),
                url@,
            ));
        }
        k = k + 1;
    }
    proof {
        assert(keyviews.subrange(keyviews.len() as int, keyviews.len() as int)
            =~= Seq::<Seq<char>>::empty());
    }
}

/// Builds the tag index of the site: each tag of each article, in order,
/// maps to the URLs of the articles that carry it.
#[verifier::loop_isolation(false)]
pub fn build_tag_index(articles: &Vec<Article>) -> (r: Vec<(String, Vec<String>)>)
    ensures
        index_view(r@) == tag_index_of(articles@, articles@.len() as int),
{
    let mut idx: Vec<(String, Vec<String>)> = Vec::new();
    let mut i: usize = 0;
    proof {
        assert(index_view(idx@) =~= Seq::<(Seq<char>, Seq<Seq<char>>)>::empty());
    }
    while i < articles.len()
        invariant
            0 <= i <= articles@.len(),
            index_view(idx@) == tag_index_of(articles@, i as int),
        decreases articles@.len() - i,
    {
        add_keys_exec(&mut idx, &articles[i].config.tags, &articles[i].url);
        i = i + 1;
    }
    idx
}

/// Builds the category index of the site, as [`build_tag_index`] does for
/// tags.
#[verifier::loop_isolation(false)]
pub fn build_category_index(articles: &Vec<Article>) -> (r: Vec<(String, Vec<String>)>)
    ensures
        index_view(r@) == cat_index_of(articles@, articles@.len() as int),
{
    let mut idx: Vec<(String, Vec<String>)> = Vec::new();
    let mut i: usize = 0;
    proof {
        assert(index_view(idx@) =~= Seq::<(Seq<char>, Seq<Seq<char>>)>::empty());
    }
    while i < articles.len()
        invariant
            0 <= i <= articles@.len(),
            index_view(idx@) == cat_index_of(articles@, i as int),
        decreases articles@.len() - i,
    {
        add_keys_exec(&mut idx, &articles[i].config.categories, &articles[i].url);
        i = i + 1;
    }
    idx
}

/// The binding tree of an association index: each key maps to its list of
/// URLs.
pub open spec fn index_bindings_model(idx: Seq<(Seq<char>, Seq<Seq<char>>)>) -> BindingModel {
    BindingModel::Obj(
        Seq::new(
            idx.len(),
            |i: int|
                BindingPair {
                    key: idx[i].0,
                    value: BindingModel::List(
                        Seq::new(idx[i].1.len(), |j: int| BindingModel::Str(idx[i].1[j])),
                    ),
                },
        ),
    )
}

/// Turns an association index into engine bindings.
pub fn index_bindings(idx: &Vec<(String, Vec<String>)>) -> (r: TemplateValue)
    ensures
        binding_model(r) == index_bindings_model(index_view(idx@)),
{
    let mut pairs: Vec<(String, TemplateValue)> = Vec::new();
    let mut i: usize = 0;
    while i < idx.len()
        invariant
            0 <= i <= idx@.len(),
            pairs@.len() == i,
            forall|k: int|
                0 <= k < i ==> #[trigger] pairs@[k].0@ == idx@[k].0@ && binding_model(
                    pairs@[k].1,
                ) == BindingModel::List(
                    Seq::new(
                        views_of_strs(idx@[k].1@).len(),
                        |j: int| BindingModel::Str(views_of_strs(idx@[k].1@)[j]),
                    ),
                ),
        decreases idx@.len() - i,
    {
        let vals = crate::bindings::strings_to_values(&idx[i].1);
        proof {
            crate::bindings::lemma_binding_models_of(vals@);
            assert(crate::bindings::binding_models_of(vals@) =~= Seq::new(
                views_of_strs(idx@[i as int].1@).len(),
                |j: int| BindingModel::Str(views_of_strs(idx@[i as int].1@)[j]),
            ));
        }
        pairs.push((idx[i].0.clone(), TemplateValue::List(vals)));
        i = i + 1;
    }
    let r = TemplateValue::Obj(pairs);
    proof {
        crate::bindings::lemma_binding_pairs_of(pairs@);
        assert(binding_model(r) matches BindingModel::Obj(got) && got
            =~~= (match index_bindings_model(index_view(idx@)) {
            BindingModel::Obj(want) => want,
            _ => got,
        }));
        assert(binding_model(r) =~~= index_bindings_model(index_view(idx@)));
    }
    r
}

/// The binding trees of every article, in order: each article contributes
/// its page bindings.
pub open spec fn articles_bindings_model(arts: Seq<Article>) -> BindingModel {
    BindingModel::List(
        Seq::new(
            arts.len(),
            |i: int| page_bindings_model(arts[i].config@, arts[i].url@, arts[i].template@),
        ),
    )
}

fn articles_bindings(articles: &Vec<Article>) -> (r: TemplateValue)
    ensures
        binding_model(r) == articles_bindings_model(articles@),
{
    let mut vals: Vec<TemplateValue> = Vec::new();
    let mut i: usize = 0;
    while i < articles.len()
        invariant
            0 <= i <= articles@.len(),
            vals@.len() == i,
            forall|k: int|
                0 <= k < i ==> binding_model(#[trigger] vals@[k]) == page_bindings_model(
                    articles@[k].config@,
                    articles@[k].url@,
                    articles@[k].template@,
                ),
        decreases articles@.len() - i,
    {
        vals.push(
            crate::bindings::page_bindings(
                &articles[i].config,
                &articles[i].url,
                &articles[i].template,
            ),
        );
        i = i + 1;
    }
    let r = TemplateValue::List(vals);
    proof {
        crate::bindings::lemma_binding_models_of(vals@);
        assert(binding_model(r) matches BindingModel::List(got) && got =~~= Seq::new(
            articles@.len(),
            |i: int| page_bindings_model(
                articles@[i].config@,
                articles@[i].url@,
                articles@[i].template@,
            ),
        ));
        assert(binding_model(r) =~~= articles_bindings_model(articles@));
    }
    r
}

/// The cross-document context every render sees under `global`: all
/// articles' bindings, the tag index, and the category index.
pub open spec fn global_context_model(arts: Seq<Article>) -> BindingModel {
    BindingModel::Obj(
        seq![
            BindingPair { key: "articles"@, value: articles_bindings_model(arts) },
            BindingPair {
                key: "tags"@,
                value: index_bindings_model(tag_index_of(arts, arts.len() as int)),
            },
            BindingPair {
                key: "cats"@,
                value: index_bindings_model(cat_index_of(arts, arts.len() as int)),
            },
        ],
    )
}

/// Builds the `global` context from every successfully parsed article.
pub fn global_context(articles: &Vec<Article>) -> (r: TemplateValue)
    ensures
        binding_model(r) == global_context_model(articles@),
{
    let arts = articles_bindings(articles);
    let tags = index_bindings(&build_tag_index(articles));
    let cats = index_bindings(&build_category_index(articles));
    let mut pairs: Vec<(String, TemplateValue)> = Vec::new();
    pairs.push((String::from_str("articles"), arts));
    pairs.push((String::from_str("tags"), tags));
    pairs.push((String::from_str("cats"), cats));
    let r = TemplateValue::Obj(pairs);
    proof {
        crate::bindings::lemma_binding_pairs_of(pairs@);
        assert(binding_model(r) matches BindingModel::Obj(got) && got
            =~~= (match global_context_model(articles@) {
            BindingModel::Obj(want) => want,
            _ => got,
        }));
        assert(binding_model(r) =~~= global_context_model(articles@));
    }
    r
}

/// The site-wide metadata every render sees under `site`: the fixed site
/// fields, every article's bindings under `pages`, and the category index.
pub open spec fn site_context_model(arts: Seq<Article>) -> BindingModel {
    BindingModel::Obj(
        seq![
            BindingPair { key: "description"@, value: BindingModel::Str("cas"@) },
            BindingPair { key: "baseurl"@, value: BindingModel::Str(""@) },
            BindingPair { key: "url"@, value: BindingModel::Str("asdfasdf"@) },
            BindingPair { key: "title"@, value: BindingModel::Str("foo bar"@) },
            BindingPair { key: "pages"@, value: articles_bindings_model(arts) },
            BindingPair {
                key: "categories"@,
                value: index_bindings_model(cat_index_of(arts, arts.len() as int)),
            },
            BindingPair { key: "email"@, value: BindingModel::Str("foo@gmail.com"@) },
        ],
    )
}

/// Builds the `site` context from every successfully parsed article.
pub fn site_context(articles: &Vec<Article>) -> (r: TemplateValue)
    ensures
        binding_model(r) == site_context_model(articles@),
{
    let pages = articles_bindings(articles);
    let cats = index_bindings(&build_category_index(articles));
    let mut pairs: Vec<(String, TemplateValue)> = Vec::new();
    pairs.push((String::from_str("description"), TemplateValue::Str(String::from_str("cas"))));
    pairs.push((String::from_str("baseurl"), TemplateValue::Str(String::from_str(""))));
    pairs.push((String::from_str("url"), TemplateValue::Str(String::from_str("asdfasdf"))));
    pairs.push((String::from_str("title"), TemplateValue::Str(String::from_str("foo bar"))));
    pairs.push((String::from_str("pages"), pages));
    pairs.push((String::from_str("categories"), cats));
    pairs.push((String::from_str("email"), TemplateValue::Str(String::from_str("foo@gmail.com"))));
    let r = TemplateValue::Obj(pairs);
    proof {
        crate::bindings::lemma_binding_pairs_of(pairs@);
        assert(binding_model(r) matches BindingModel::Obj(got) && got
            =~~= (match site_context_model(articles@) {
            BindingModel::Obj(want) => want,
            _ => got,
        }));
        assert(binding_model(r) =~~= site_context_model(articles@));
    }
    r
}

/// Whether `s` begins with `p`.
pub open spec fn starts_with(s: Seq<char>, p: Seq<char>) -> bool {
    s.len() >= p.len() && s.subrange(0, p.len() as int) == p
}

/// The first value recorded under `key`, if any.
pub open spec fn assoc(pairs: Seq<(Seq<char>, Seq<char>)>, key: Seq<char>) -> Option<Seq<char>>
    decreases pairs.len(),
{
    if pairs.len() == 0 {
        None
    } else if pairs[0].0 == key {
        Some(pairs[0].1)
    } else {
        assoc(pairs.drop_first(), key)
    }
}

fn assoc_get(pairs: &Vec<(String, String)>, key: &Vec<char>) -> (r: Option<String>)
    ensures
        (match r {
            Some(v) => assoc(pairs_view(pairs@), key@) == Some(v@),
            None => assoc(pairs_view(pairs@), key@) is None,
        }),
{
    let mut j: usize = 0;
    proof {
        assert(pairs_view(pairs@).subrange(0, pairs_view(pairs@).len() as int) =~= pairs_view(
            pairs@,
        ));
    }
    while j < pairs.len()
        invariant
            0 <= j <= pairs@.len(),
            assoc(pairs_view(pairs@), key@) == assoc(
                pairs_view(pairs@).subrange(j as int, pairs@.len() as int),
                key@,
            ),
        decreases pairs@.len() - j,
    {
        let ghost rest = pairs_view(pairs@).subrange(j as int, pairs@.len() as int);
        proof {
            assert(rest[0] == (pairs@[j as int].0@, pairs@[j as int].1@));
            assert(rest.drop_first() =~= pairs_view(pairs@).subrange(j + 1, pairs@.len() as int));
        }
        if crate::text::chars_eq_str(key, pairs[j].0.as_str()) {
            return Some(pairs[j].1.clone());
        }
        j = j + 1;
    }
    proof {
        assert(pairs_view(pairs@).subrange(pairs@.len() as int, pairs@.len() as int).len() == 0);
    }
    None
}

/// One line of an engine error moved through the annotator: an include-frame
/// line opens a frame. Inside one, a quoted partial name whose source path
/// is on record gets that path written under it; a quoted name that is not
/// on record is dropped, leaving only its newline; a name without a closing
/// quote passes through. Every other line passes through unchanged.
pub open spec fn backtrace_step(
    inside: bool,
    msg: Seq<char>,
    line: Seq<char>,
    templates: Seq<(Seq<char>, Seq<char>)>,
) -> (bool, Seq<char>) {
    if starts_with(line, "from: {% include"@) {
        (true, msg + line + "\n"@)
    } else if inside && starts_with(line, "    \""@) {
        let rest5 = line.subrange(5, line.len() as int);
        match crate::text::find_from(rest5, '"', 0) {
            Some(index) => {
                let key = rest5.subrange(0, index);
                match assoc(templates, key) {
                    Some(path) => (
                        inside,
                        msg + line + "\n    "@ + key + " = "@ + path + "\n"@,
                    ),
                    None => (inside, msg + "\n"@),
                }
            },
            None => (inside, msg + line + "\n"@),
        }
    } else if !inside && line == "\twith:"@ {
        (false, msg + line + "\n"@)
    } else {
        (inside, msg + line + "\n"@)
    }
}

/// The annotator's state after the first `i` lines.
pub open spec fn backtrace_of(
    lines: Seq<Seq<char>>,
    i: int,
    templates: Seq<(Seq<char>, Seq<char>)>,
) -> (bool, Seq<char>)
    decreases i,
{
    if i <= 0 {
        (false, Seq::empty())
    } else {
        let acc = backtrace_of(lines, i - 1, templates);
        backtrace_step(acc.0, acc.1, lines[i - 1], templates)
    }
}

/// What [`parse_backtrace`] returns: every line of the error annotated in
/// order.
pub open spec fn spec_parse_backtrace(
    error: Seq<char>,
    templates: Seq<(Seq<char>, Seq<char>)>,
) -> Seq<char> {
    let lines = crate::text::split_plain(error);
    backtrace_of(lines, lines.len() as int, templates).1
}

/// Annotates an engine error's include frames with the source paths of the
/// partials they name, so a nested include chain reads as a breadcrumb
/// trail.
#[verifier::loop_isolation(false)]
pub fn parse_backtrace(error: &str, templates: &Vec<(String, String)>) -> (r: String)
    ensures
        r@ == spec_parse_backtrace(error@, pairs_view(templates@)),
{
    let chars = str_to_chars(error);
    let lines = crate::text::split_plain_chars(&chars);
    let ghost glines = crate::text::views_of(lines@);
    let ghost tv = pairs_view(templates@);
    let mut inside: bool = false;
    let mut msg: Vec<char> = Vec::new();
    let mut i: usize = 0;
    proof {
        assert(msg@ =~= Seq::<char>::empty());
    }
    while i < lines.len()
        invariant
            0 <= i <= lines@.len(),
            backtrace_of(glines, i as int, tv) == (inside, msg@),
        decreases lines@.len() - i,
    {
        let ghost st0 = (inside, msg@);
        let line = &lines[i];
        proof {
            assert(glines[i as int] == line@);
        }
        if window_eq(line, 0, "from: {% include") {
            proof {
                assert(line@.subrange(0, "from: {% include"@.len() as int) == "from: {% include"@);
            }
            inside = true;
            crate::text::append_chars(&mut msg, line);
            crate::text::append_str(&mut msg, "\n");
        } else if inside && window_eq(line, 0, "    \"") {
            proof {
                assert("    \""@.len() == 5) by {
                    reveal_strlit("    \"");
                }
            }
            let rest5 = crate::text::subvec(line, 5, line.len());
            proof {
                assert(rest5@ =~= line@.subrange(5, line@.len() as int));
            }
            match crate::text::find_char(&rest5, '"', 0) {
                Some(index) => {
                    let key = crate::text::subvec(&rest5, 0, index);
                    match assoc_get(templates, &key) {
                        Some(path) => {
                            crate::text::append_chars(&mut msg, line);
                            crate::text::append_str(&mut msg, "\n    ");
                            crate::text::append_chars(&mut msg, &key);
                            crate::text::append_str(&mut msg, " = ");
                            crate::text::append_str(&mut msg, path.as_str());
                            crate::text::append_str(&mut msg, "\n");
                        },
                        None => {
                            crate::text::append_str(&mut msg, "\n");
                        },
                    }
                },
                None => {
                    crate::text::append_chars(&mut msg, line);
                    crate::text::append_str(&mut msg, "\n");
                },
            }
        } else if !inside && crate::text::chars_eq_str(line, "\twith:") {
            crate::text::append_chars(&mut msg, line);
            crate::text::append_str(&mut msg, "\n");
        } else {
            crate::text::append_chars(&mut msg, line);
            crate::text::append_str(&mut msg, "\n");
        }
        i = i + 1;
        proof {
            assert(backtrace_of(glines, i as int, tv) == backtrace_step(
                st0.0,
                st0.1,
                glines[i - 1],
                tv,
            ));
        }
    }
    crate::text::chars_to_string(&msg)
}

/// Two documents whose render fails with the identical include-frame message
/// are reported as one grouped diagnostic that lists both paths in order,
/// and nothing is reported per document.
pub proof fn lemma_shared_failures_grouped(path1: Seq<char>, path2: Seq<char>, msg: Seq<char>)
    requires
        is_shared_failure(msg),
    ensures
        ({
            let r = group_of(seq![(path1, msg), (path2, msg)], 2);
            &&& r.0.len() == 1
            &&& r.0[0].0 == "Template "@ + msg
            &&& r.0[0].1 == seq![path1, path2]
            &&& r.1.len() == 0
        }),
{
    let fails = seq![(path1, msg), (path2, msg)];
    let key = "Template "@ + msg;
    let empty_idx = Seq::<(Seq<char>, Seq<Seq<char>>)>::empty();
    let r1 = group_of(fails, 1);
    assert(fails[0] == (path1, msg));
    assert(r1 == group_step(group_of(fails, 0).0, group_of(fails, 0).1, path1, msg));
    assert(upsert(empty_idx, key, path1) =~= seq![(key, seq![path1])]);
    assert(r1.0 =~= seq![(key, seq![path1])]);
    let r2 = group_of(fails, 2);
    assert(fails[1] == (path2, msg));
    assert(r2 == group_step(r1.0, r1.1, path2, msg));
    assert(r1.0[0].0 == key);
    assert(upsert(r1.0, key, path2) =~= seq![(key, seq![path1, path2])]) by {
        assert(r1.0.drop_first() =~= empty_idx);
        assert(seq![path1].push(path2) =~= seq![path1, path2]);
        assert(seq![(key, seq![path1, path2])] + empty_idx =~= seq![(key, seq![path1, path2])]);
    }
    assert(r2.0 =~= seq![(key, seq![path1, path2])]);
    assert(r2.1 =~= Seq::<(Seq<char>, Seq<char>)>::empty());
}

} // verus!
