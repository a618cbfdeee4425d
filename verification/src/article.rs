//! The document model: the typed front-matter configuration, the scanner that
//! separates it from the body, and the article built from both.

use vstd::prelude::*;

use crate::error::{CustomError, CustomErrorModel};
use crate::parse::{
    clamp_lineno, diag_msg, spec_parse_key, spec_parse_value_boolean, spec_parse_value_list,
    spec_parse_value_string, spec_parse_value_time, dashes, ParseError, ParseErrorModel,
};
use crate::text::{
    append_chars, append_str, cap_sub, chars_to_string, remove_all, split_lines_spec, str_to_chars,
    trim_spec, views_of, views_of_strs,
};
use crate::util::spec_path_file_name;

verus! {

/// One document's front-matter configuration. `title` is non-empty whenever
/// parsing succeeds; `base_layout` defaults to `default`; `date`, when set,
/// holds a normalized timestamp string.
#[derive(Debug, PartialEq)]
pub struct Config {
    pub layout: String,
    pub base_layout: String,
    pub title: String,
    pub description: String,
    pub permalink: String,
    pub categories: Vec<String>,
    pub tags: Vec<String>,
    pub visible: bool,
    pub date: Option<String>,
}

/// The spec-level shape of a [`Config`].
#[verifier::ext_equal]
pub struct ConfigModel {
    pub layout: Seq<char>,
    pub base_layout: Seq<char>,
    pub title: Seq<char>,
    pub description: Seq<char>,
    pub permalink: Seq<char>,
    pub categories: Seq<Seq<char>>,
    pub tags: Seq<Seq<char>>,
    pub visible: bool,
    pub date: Option<Seq<char>>,
}

impl View for Config {
    type V = ConfigModel;

    open spec fn view(&self) -> ConfigModel {
        ConfigModel {
            layout: self.layout@,
            base_layout: self.base_layout@,
            title: self.title@,
            description: self.description@,
            permalink: self.permalink@,
            categories: views_of_strs(self.categories@),
            tags: views_of_strs(self.tags@),
            visible: self.visible,
            date: (match self.date {
                Some(d) => Some(d@),
                None => None,
            }),
        }
    }
}

/// The configuration before any key is read: everything empty, except that
/// the base layout is `default` and the title bar is hidden.
pub open spec fn default_config_model() -> ConfigModel {
    ConfigModel {
        layout: Seq::empty(),
        base_layout: "default"@,
        title: Seq::empty(),
        description: Seq::empty(),
        permalink: Seq::empty(),
        categories: Seq::empty(),
        tags: Seq::empty(),
        visible: false,
        date: None,
    }
}

impl Default for Config {
    fn default() -> (c: Config)
        ensures
            c@ == default_config_model(),
    {
        let c = Config {
            layout: String::new(),
            base_layout: String::from_str("default"),
            title: String::new(),
            description: String::new(),
            permalink: String::new(),
            categories: Vec::new(),
            tags: Vec::new(),
            visible: false,
            date: None,
        };
        proof {
            assert(views_of_strs(c.categories@) =~= Seq::<Seq<char>>::empty());
            assert(views_of_strs(c.tags@) =~= Seq::<Seq<char>>::empty());
        }
        c
    }
}

/// Where the scanner stands: before the opening `---`, inside the
/// configuration block, or in the body after the closing `---`.
pub enum ScanState {
    BeforeConfig,
    InConfig,
    InBody,
}

/// The scanner's whole state: its position, the 1-based number of the next
/// line, the configuration read so far, and the body collected so far.
#[verifier::ext_equal]
pub struct ScanModel {
    pub state: ScanState,
    pub line_n: int,
    pub cfg: ConfigModel,
    pub body: Seq<char>,
}

/// The scanner's state before the first line.
pub open spec fn init_scan() -> ScanModel {
    ScanModel {
        state: ScanState::BeforeConfig,
        line_n: 1,
        cfg: default_config_model(),
        body: Seq::empty(),
    }
}

/// One recognized `key: value` line applied to the configuration.
pub open spec fn spec_apply_key(
    st: ScanModel,
    key: Seq<char>,
    val: Seq<char>,
    line: Seq<char>,
    path: Seq<char>,
) -> Result<ScanModel, ParseErrorModel> {
    let ln = clamp_lineno(st.line_n);
    if key == "layout"@ {
        match spec_parse_value_string(val, path, line, ln) {
            Ok(v) => Ok(
                ScanModel { line_n: st.line_n + 1, cfg: ConfigModel { layout: v, ..st.cfg }, ..st },
            ),
            Err(e) => Err(e),
        }
    } else if key == "base_layout"@ {
        match spec_parse_value_string(val, path, line, ln) {
            Ok(v) => Ok(
                ScanModel {
                    line_n: st.line_n + 1,
                    cfg: ConfigModel { base_layout: v, ..st.cfg },
                    ..st
                },
            ),
            Err(e) => Err(e),
        }
    } else if key == "title"@ {
        match spec_parse_value_string(val, path, line, ln) {
            Ok(v) => Ok(
                ScanModel { line_n: st.line_n + 1, cfg: ConfigModel { title: v, ..st.cfg }, ..st },
            ),
            Err(e) => Err(e),
        }
    } else if key == "description"@ {
        match spec_parse_value_string(val, path, line, ln) {
            Ok(v) => Ok(
                ScanModel {
                    line_n: st.line_n + 1,
                    cfg: ConfigModel { description: v, ..st.cfg },
                    ..st
                },
            ),
            Err(e) => Err(e),
        }
    } else if key == "permalink"@ {
        match spec_parse_value_string(val, path, line, ln) {
            Ok(v) => Ok(
                ScanModel {
                    line_n: st.line_n + 1,
                    cfg: ConfigModel { permalink: v, ..st.cfg },
                    ..st
                },
            ),
            Err(e) => Err(e),
        }
    } else if key == "categories"@ {
        match spec_parse_value_list(val, path, line, ln) {
            Ok(v) => Ok(
                ScanModel {
                    line_n: st.line_n + 1,
                    cfg: ConfigModel { categories: v, ..st.cfg },
                    ..st
                },
            ),
            Err(e) => Err(e),
        }
    } else if key == "tags"@ {
        match spec_parse_value_list(val, path, line, ln) {
            Ok(v) => Ok(
                ScanModel { line_n: st.line_n + 1, cfg: ConfigModel { tags: v, ..st.cfg }, ..st },
            ),
            Err(e) => Err(e),
        }
    } else if key == "titlebar"@ {
        match spec_parse_value_boolean(val, path, line, ln) {
            Ok(b) => Ok(
                ScanModel {
                    line_n: st.line_n + 1,
                    cfg: ConfigModel { visible: b, ..st.cfg },
                    ..st
                },
            ),
            Err(e) => Err(e),
        }
    } else if key == "date"@ {
        match spec_parse_value_time(val, path, line, ln) {
            Ok(t) => Ok(
                ScanModel {
                    line_n: st.line_n + 1,
                    cfg: ConfigModel { date: Some(t), ..st.cfg },
                    ..st
                },
            ),
            Err(e) => Err(e),
        }
    } else {
        Err(
            ParseErrorModel::InvalidKey(
                diag_msg("unknown key"@, path, line, 0, cap_sub(line.len() as int, 1), ln),
            ),
        )
    }
}

/// One physical line moved through the scanner: `---` switches the state
/// forward, configuration lines are `key: value` with the key trimmed, and
/// body lines are appended verbatim with a newline.
pub open spec fn spec_scan_line(st: ScanModel, line: Seq<char>, path: Seq<char>) -> Result<
    ScanModel,
    ParseErrorModel,
> {
    match st.state {
        ScanState::BeforeConfig => {
            if line == dashes() {
                Ok(ScanModel { state: ScanState::InConfig, line_n: st.line_n + 1, ..st })
            } else {
                Err(
                    ParseErrorModel::InvalidConfig(
                        diag_msg(
                            "configuration needs to start with '---' for the first line"@,
                            path,
                            line,
                            0,
                            line.len() as int,
                            clamp_lineno(st.line_n),
                        ),
                    ),
                )
            }
        },
        ScanState::InConfig => {
            if line == dashes() {
                Ok(ScanModel { state: ScanState::InBody, line_n: st.line_n + 1, ..st })
            } else {
                match spec_parse_key(line, path, line, clamp_lineno(st.line_n)) {
                    Err(e) => Err(e),
                    Ok(kv) => spec_apply_key(st, trim_spec(kv.0), trim_spec(kv.1), line, path),
                }
            }
        },
        ScanState::InBody => Ok(ScanModel { body: st.body + line + "\n"@, ..st }),
    }
}

/// The scanner's state after the first `i` lines.
pub open spec fn spec_scan(lines: Seq<Seq<char>>, i: int, path: Seq<char>) -> Result<
    ScanModel,
    ParseErrorModel,
>
    decreases i,
{
    if i <= 0 {
        Ok(init_scan())
    } else {
        match spec_scan(lines, i - 1, path) {
            Ok(st) => spec_scan_line(st, lines[i - 1], path),
            Err(e) => Err(e),
        }
    }
}

proof fn lemma_scan_err(lines: Seq<Seq<char>>, i: int, j: int, path: Seq<char>)
    requires
        0 <= i <= j,
        spec_scan(lines, i, path) is Err,
    ensures
        spec_scan(lines, j, path) == spec_scan(lines, i, path),
    decreases j,
{
    if j > i {
        lemma_scan_err(lines, i, j - 1, path);
    }
}

/// The title used when the front matter sets none: the source file's name
/// with its extension stripped.
pub open spec fn spec_fallback_title(path: Seq<char>) -> Result<Seq<char>, Seq<char>> {
    match spec_path_file_name(path) {
        Ok(name) => Ok(remove_all(remove_all(name, ".md"@), ".markdown"@)),
        Err(e) => Err(
            (match e {
                CustomErrorModel::IOError(m) => m,
                CustomErrorModel::LiquidError(m) => m,
            }),
        ),
    }
}

/// What [`parse`] returns: the scan of every line, then the title fallback
/// from the file name, then the structural checks — a configuration block
/// must have been opened and closed, must hold at least one line, and must
/// leave a non-empty title.
pub open spec fn spec_parse(text: Seq<char>, path: Seq<char>) -> Result<
    (ConfigModel, Seq<char>),
    ParseErrorModel,
> {
    let lines = split_lines_spec(text);
    match spec_scan(lines, lines.len() as int, path) {
        Err(e) => Err(e),
        Ok(st) => spec_finish(st, path),
    }
}

/// The checks after the scan: the title fallback from the file name, then
/// the structural requirements on the block and the title.
pub open spec fn spec_finish(st: ScanModel, path: Seq<char>) -> Result<
    (ConfigModel, Seq<char>),
    ParseErrorModel,
> {
    let titled = if st.cfg.title.len() == 0 {
        spec_fallback_title(path)
    } else {
        Ok(st.cfg.title)
    };
    match titled {
        Err(m) => Err(
            ParseErrorModel::InvalidValue(
                "No 'title' found so defaulted to using filename as title but failed to get the filename from \""@
                    + path + "\" as "@ + m + " occured"@,
            ),
        ),
        Ok(title) => {
            let cfg = ConfigModel { title: title, ..st.cfg };
            if !(st.state is BeforeConfig) && st.line_n == 1 + delimiter_count(st.state) {
                Err(
                    ParseErrorModel::InvalidConfig(
                        "empty config no key value pairs found in \""@ + path + "\""@,
                    ),
                )
            } else if !(st.state is InBody) {
                Err(
                    ParseErrorModel::InvalidConfig(
                        "no at '---' for the last line of the configuration"@,
                    ),
                )
            } else if cfg.title.len() == 0 {
                Err(ParseErrorModel::InvalidConfig("missing configuration 'title' field"@))
            } else {
                Ok((cfg, st.body))
            }
        },
    }
}

/// A configuration that parsing accepts always carries a non-empty title:
/// either the front matter set one, or the file name supplied one, and an
/// empty result is refused either way.
pub proof fn lemma_parse_title_nonempty(text: Seq<char>, path: Seq<char>)
    ensures
        spec_parse(text, path) matches Ok(p) ==> p.0.title.len() > 0,
{
}

/// How many delimiter lines the scanner has passed in a given state: the
/// difference between the line counter and this tells whether any key/value
/// line was consumed.
pub open spec fn delimiter_count(state: ScanState) -> int {
    match state {
        ScanState::BeforeConfig => 0,
        ScanState::InConfig => 1,
        ScanState::InBody => 2,
    }
}

/// The lines from `i` on, joined back with one newline after each.
pub open spec fn join_lines(lines: Seq<Seq<char>>, i: int) -> Seq<char>
    decreases lines.len() - i,
{
    if i < 0 || i >= lines.len() {
        Seq::empty()
    } else {
        lines[i] + "\n"@ + join_lines(lines, i + 1)
    }
}

#[verifier::rlimit(100)]
#[verifier::spinoff_prover]
proof fn lemma_scan_body(lines: Seq<Seq<char>>, i: int, path: Seq<char>, st: ScanModel)
    requires
        0 <= i <= lines.len(),
        spec_scan(lines, i, path) == Ok::<_, ParseErrorModel>(st),
        st.state is InBody,
    ensures
        spec_scan(lines, lines.len() as int, path) == Ok::<_, ParseErrorModel>(
            ScanModel { body: st.body + join_lines(lines, i), ..st },
        ),
    decreases lines.len() - i,
{
    if i < lines.len() {
        let st2 = ScanModel { body: st.body + lines[i] + "\n"@, ..st };
        assert(spec_scan(lines, i + 1, path) == Ok::<_, ParseErrorModel>(st2));
        lemma_scan_body(lines, i + 1, path, st2);
        assert(st2.body + join_lines(lines, i + 1) =~= st.body + join_lines(lines, i));
        assert(ScanModel { body: st2.body + join_lines(lines, i + 1), ..st2 } == ScanModel {
            body: st.body + join_lines(lines, i),
            ..st
        });
    } else {
        assert(st.body + join_lines(lines, i) =~= st.body);
        assert(ScanModel { body: st.body + join_lines(lines, i), ..st } == st);
    }
}

#[verifier::rlimit(100)]
#[verifier::spinoff_prover]
proof fn lemma_scan_layout_line(st: ScanModel, rv: Seq<char>, path: Seq<char>)
    requires
        st.state is InConfig,
        crate::parse::accepts_string(rv),
    ensures
        spec_scan_line(st, "layout:"@ + rv, path) == Ok::<_, ParseErrorModel>(
            ScanModel {
                line_n: st.line_n + 1,
                cfg: ConfigModel { layout: crate::parse::string_value(rv), ..st.cfg },
                ..st
            },
        ),
{
    reveal_strlit("layout:");
    reveal_strlit("layout");
    let line = "layout:"@ + rv;
    assert(line != dashes()) by {
        assert(line.len() >= 7);
        assert(dashes().len() == 3);
    }
    assert("layout:"@ =~= "layout"@ + ":"@) by {
        reveal_strlit(":");
    }
    assert(trim_spec("layout"@) == "layout"@);
    lemma_key_split(line, "layout"@, rv, path, st.line_n);
    let v = trim_spec(rv);
    crate::text::lemma_trim_idempotent(rv);
    assert(crate::parse::accepts_string(v));
    assert(crate::parse::string_value(v) == crate::parse::string_value(rv));
    crate::parse::lemma_string_value(v, path, line, clamp_lineno(st.line_n));
    assert(spec_scan_line(st, line, path) == spec_apply_key(st, "layout"@, v, line, path));
}

#[verifier::rlimit(100)]
#[verifier::spinoff_prover]
proof fn lemma_scan_title_line(st: ScanModel, rv: Seq<char>, path: Seq<char>)
    requires
        st.state is InConfig,
        crate::parse::accepts_string(rv),
    ensures
        spec_scan_line(st, "title:"@ + rv, path) == Ok::<_, ParseErrorModel>(
            ScanModel {
                line_n: st.line_n + 1,
                cfg: ConfigModel { title: crate::parse::string_value(rv), ..st.cfg },
                ..st
            },
        ),
{
    reveal_strlit("title:");
    reveal_strlit("title");
    reveal_strlit("layout");
    reveal_strlit("base_layout");
    let line = "title:"@ + rv;
    assert("title"@ != "layout"@) by {
        assert("title"@.len() == 5 && "layout"@.len() == 6);
    }
    assert("title"@ != "base_layout"@) by {
        assert("base_layout"@.len() == 11);
    }
    assert(line != dashes()) by {
        assert(line.len() >= 6);
        assert(dashes().len() == 3);
    }
    assert("title:"@ =~= "title"@ + ":"@) by {
        reveal_strlit(":");
    }
    assert(trim_spec("title"@) == "title"@);
    lemma_key_split(line, "title"@, rv, path, st.line_n);
    let v = trim_spec(rv);
    crate::text::lemma_trim_idempotent(rv);
    assert(crate::parse::accepts_string(v));
    assert(crate::parse::string_value(v) == crate::parse::string_value(rv));
    crate::parse::lemma_string_value(v, path, line, clamp_lineno(st.line_n));
    assert(spec_scan_line(st, line, path) == spec_apply_key(st, "title"@, v, line, path));
}

/// For any well-formed header holding `layout` and `title` alone — in either
/// order, the raw values under the full string grammar with any surrounding
/// whitespace — parsing succeeds with `base_layout` still `default` and
/// `visible` still `false`, the two read values in place, and the body
/// exactly the joined remainder after the closing delimiter line.
#[verifier::rlimit(100)]
#[verifier::spinoff_prover]
pub proof fn lemma_minimal_header_defaults(
    text: Seq<char>,
    path: Seq<char>,
    layout_raw: Seq<char>,
    title_raw: Seq<char>,
    layout_first: bool,
)
    requires
        ({
            let lines = split_lines_spec(text);
            &&& lines.len() >= 4
            &&& lines[0] == dashes()
            &&& (if layout_first {
                lines[1] == "layout:"@ + layout_raw && lines[2] == "title:"@ + title_raw
            } else {
                lines[1] == "title:"@ + title_raw && lines[2] == "layout:"@ + layout_raw
            })
            &&& lines[3] == dashes()
            &&& crate::parse::accepts_string(layout_raw)
            &&& crate::parse::accepts_string(title_raw)
            &&& crate::parse::string_value(title_raw).len() > 0
        }),
    ensures
        ({
            let lines = split_lines_spec(text);
            spec_parse(text, path) == Ok::<_, ParseErrorModel>(
                (
                    ConfigModel {
                        layout: crate::parse::string_value(layout_raw),
                        title: crate::parse::string_value(title_raw),
                        ..default_config_model()
                    },
                    join_lines(lines, 4),
                ),
            )
        }),
{
    let lines = split_lines_spec(text);
    let st0 = init_scan();
    let st1 = ScanModel { state: ScanState::InConfig, line_n: 2, ..st0 };
    assert(spec_scan(lines, 1, path) == Ok::<_, ParseErrorModel>(st1)) by {
        assert(spec_scan(lines, 0, path) == Ok::<_, ParseErrorModel>(st0));
    }
    let target = ConfigModel {
        layout: crate::parse::string_value(layout_raw),
        title: crate::parse::string_value(title_raw),
        ..default_config_model()
    };
    let st3 = if layout_first {
        lemma_scan_layout_line(st1, layout_raw, path);
        let st2 = ScanModel {
            line_n: 3,
            cfg: ConfigModel { layout: crate::parse::string_value(layout_raw), ..st1.cfg },
            ..st1
        };
        assert(spec_scan(lines, 2, path) == Ok::<_, ParseErrorModel>(st2));
        lemma_scan_title_line(st2, title_raw, path);
        let st3 = ScanModel {
            line_n: 4,
            cfg: ConfigModel { title: crate::parse::string_value(title_raw), ..st2.cfg },
            ..st2
        };
        assert(spec_scan(lines, 3, path) == Ok::<_, ParseErrorModel>(st3));
        st3
    } else {
        lemma_scan_title_line(st1, title_raw, path);
        let st2 = ScanModel {
            line_n: 3,
            cfg: ConfigModel { title: crate::parse::string_value(title_raw), ..st1.cfg },
            ..st1
        };
        assert(spec_scan(lines, 2, path) == Ok::<_, ParseErrorModel>(st2));
        lemma_scan_layout_line(st2, layout_raw, path);
        let st3 = ScanModel {
            line_n: 4,
            cfg: ConfigModel { layout: crate::parse::string_value(layout_raw), ..st2.cfg },
            ..st2
        };
        assert(spec_scan(lines, 3, path) == Ok::<_, ParseErrorModel>(st3));
        st3
    };
    assert(st3.cfg =~~= target);
    assert(st3.line_n == 4 && st3.state is InConfig && st3.body == Seq::<char>::empty());
    let st3n = ScanModel { state: ScanState::InConfig, line_n: 4, cfg: target, body: Seq::empty() };
    assert(st3 == st3n);
    let st4 = ScanModel { state: ScanState::InBody, line_n: 5, ..st3n };
    assert(spec_scan(lines, 4, path) == Ok::<_, ParseErrorModel>(st4));
    lemma_scan_body(lines, 4, path, st4);
    let st_end = ScanModel { body: st4.body + join_lines(lines, 4), ..st4 };
    assert(spec_scan(lines, lines.len() as int, path) == Ok::<_, ParseErrorModel>(st_end));
    assert(st_end.cfg.title.len() > 0);
    assert(st_end.line_n == 5);
    assert(st_end.body =~= join_lines(lines, 4));
    assert(ConfigModel { title: st_end.cfg.title, ..st_end.cfg } =~~= target);
}

/// A `key:value` configuration line splits at the first `:` when the key
/// itself holds none: the key is everything before it, the raw value
/// everything after.
proof fn lemma_key_split(
    line: Seq<char>,
    key: Seq<char>,
    val: Seq<char>,
    path: Seq<char>,
    line_n: int,
)
    requires
        line == key + ":"@ + val,
        key.len() > 0,
        !key.contains(':'),
    ensures
        spec_parse_key(line, path, line, crate::parse::clamp_lineno(line_n)) == Ok::<
            _,
            ParseErrorModel,
        >((key, val)),
{
    reveal_strlit(":");
    assert(line.len() == key.len() + 1 + val.len());
    assert(line[key.len() as int] == ':');
    assert(forall|k: int| 0 <= k < key.len() ==> line[k] == key[k] && line[k] != ':');
    crate::text::lemma_find_from(line, ':', 0);
    let found = crate::text::find_from(line, ':', 0);
    assert(found is Some) by {
        if found is None {
            assert(line[key.len() as int] != ':');
        }
    }
    let j = found->0;
    assert(0 <= j < line.len() && line[j] == ':');
    assert(j == key.len()) by {
        if j < key.len() {
            assert(line[j] != ':');
        }
        if j > key.len() {
            assert(line[key.len() as int] != ':');
        }
    }
    assert(line.subrange(0, j) =~= key);
    assert(line.subrange(j + 1, line.len() as int) =~= val);
}

fn is_dashes(line: &Vec<char>) -> (r: bool)
    ensures
        r == (line@ == dashes()),
{
    if line.len() == 3 && line[0] == '-' && line[1] == '-' && line[2] == '-' {
        proof {
            assert(line@ =~= dashes());
        }
        true
    } else {
        proof {
            if line@ == dashes() {
                assert(line@.len() == 3);
            }
        }
        false
    }
}

fn clamp_i8(n: i32) -> (r: i8)
    requires
        1 <= n <= 128,
    ensures
        r as int == clamp_lineno(n as int),
{
    if n > 127 {
        127
    } else {
        n as i8
    }
}

/// How the capped counter the exec scanner keeps stands for the model's line
/// number: they agree up to 128, and the cap only ever stands in for larger
/// numbers.
pub open spec fn capped_line_n(n: int) -> int {
    if n > 128 {
        128
    } else {
        n
    }
}

/// Scans raw document text into its typed configuration and its body, one
/// line at a time; the first `---` opens the configuration block, the second
/// closes it, and everything after belongs to the body.
#[verifier::loop_isolation(false)]
#[verifier::rlimit(100)]
pub fn parse(text: &str, path: &str) -> (r: Result<(Config, String), ParseError>)
    ensures
        (match r {
            Ok(p) => spec_parse(text@, path@) == Ok::<_, ParseErrorModel>((p.0@, p.1@)),
            Err(e) => spec_parse(text@, path@) == Err::<(ConfigModel, Seq<char>), _>(e@),
        }),
{
    let chars = str_to_chars(text);
    let lines = crate::text::split_lines(&chars);
    let ghost glines = views_of(lines@);
    let mut state = ScanState::BeforeConfig;
    let mut line_n: i32 = 1;
    let ghost mut model_line_n: int = 1;
    let mut config = Config::default();
    let mut body: Vec<char> = Vec::new();
    let mut i: usize = 0;
    proof {
        assert(body@ =~= Seq::<char>::empty());
    }
    while i < lines.len()
        invariant
            0 <= i <= lines@.len(),
            1 <= line_n <= 128,
            1 <= model_line_n,
            spec_scan(glines, i as int, path@) == Ok::<_, ParseErrorModel>(
                ScanModel { state: state, line_n: model_line_n, cfg: config@, body: body@ },
            ),
            line_n as int == capped_line_n(model_line_n),
        decreases lines@.len() - i,
    {
        let ghost st0 = ScanModel {
            state: state,
            line_n: model_line_n,
            cfg: config@,
            body: body@,
        };
        let line = &lines[i];
        proof {
            assert(glines[i as int] == line@);
        }
        match scan_one_line(
            &mut state,
            &mut line_n,
            &mut config,
            &mut body,
            line,
            path,
            Ghost(st0),
        ) {
            Ok(g) => {
                proof {
                    model_line_n = g@;
                }
            },
            Err(e) => {
                proof {
                    lemma_scan_err(glines, i + 1, glines.len() as int, path@);
                }
                return Err(e);
            },
        }
        i = i + 1;
        proof {
            assert(spec_scan(glines, i as int, path@) == spec_scan_line(st0, glines[i - 1], path@));
        }
    }
    finish_parse(config, body, state, line_n, path, Ghost(
        ScanModel { state: state, line_n: model_line_n, cfg: config@, body: body@ },
    ))
}

/// The checks after the scan: the title fallback from the file name, then
/// the structural requirements on the block and the title.
#[verifier::rlimit(100)]
#[verifier::spinoff_prover]
fn finish_parse(
    config: Config,
    body: Vec<char>,
    state: ScanState,
    line_n: i32,
    path: &str,
    Ghost(st): Ghost<ScanModel>,
) -> (r: Result<(Config, String), ParseError>)
    requires
        st.state == state,
        st.cfg == config@,
        st.body == body@,
        line_n as int == capped_line_n(st.line_n),
        1 <= st.line_n,
        1 <= line_n <= 128,
    ensures
        (match r {
            Ok(p) => spec_finish(st, path@) == Ok::<_, ParseErrorModel>((p.0@, p.1@)),
            Err(e) => spec_finish(st, path@) == Err::<(ConfigModel, Seq<char>), _>(e@),
        }),
{
    let mut config = config;
    let st_title_empty = config.title.as_str().is_empty();
    if st_title_empty {
        match crate::util::path_file_name_to_string(path) {
            Ok(t) => {
                let tc = str_to_chars(t.as_str());
                proof {
                    reveal_strlit(".md");
                    reveal_strlit(".markdown");
                }
                let t1 = crate::text::remove_all_chars(&tc, ".md");
                let t2 = crate::text::remove_all_chars(&t1, ".markdown");
                config.title = chars_to_string(&t2);
            },
            Err(e) => {
                let m = match e {
                    CustomError::IOError(m) => m,
                    CustomError::LiquidError(m) => m,
                };
                let mut msg: Vec<char> = Vec::new();
                append_str(
                    &mut msg,
                    "No 'title' found so defaulted to using filename as title but failed to get the filename from \"",
                );
                append_str(&mut msg, path);
                append_str(&mut msg, "\" as ");
                append_str(&mut msg, m.as_str());
                append_str(&mut msg, " occured");
                return Err(ParseError::InvalidValue(chars_to_string(&msg)));
            },
        }
    }
    let opened = match state {
        ScanState::BeforeConfig => false,
        ScanState::InConfig => true,
        ScanState::InBody => true,
    };
    let seen: i32 = match state {
        ScanState::BeforeConfig => 0,
        ScanState::InConfig => 1,
        ScanState::InBody => 2,
    };
    if opened && line_n == 1 + seen {
        let mut msg: Vec<char> = Vec::new();
        append_str(&mut msg, "empty config no key value pairs found in \"");
        append_str(&mut msg, path);
        append_str(&mut msg, "\"");
        return Err(ParseError::InvalidConfig(chars_to_string(&msg)));
    }
    let reached_end = match state {
        ScanState::InBody => true,
        ScanState::BeforeConfig => false,
        ScanState::InConfig => false,
    };
    if !reached_end {
        return Err(
            ParseError::InvalidConfig(
                String::from_str("no at '---' for the last line of the configuration"),
            ),
        );
    }
    if config.title.as_str().is_empty() {
        return Err(
            ParseError::InvalidConfig(String::from_str("missing configuration 'title' field")),
        );
    }
    Ok((config, chars_to_string(&body)))
}

/// Moves one physical line through the scanner's exec state; on success the
/// returned ghost value is the model's next line number, of which the capped
/// exec counter keeps step.
fn scan_one_line(
    state: &mut ScanState,
    line_n: &mut i32,
    config: &mut Config,
    body: &mut Vec<char>,
    line: &Vec<char>,
    path: &str,
    Ghost(st0): Ghost<ScanModel>,
) -> (r: Result<Ghost<int>, ParseError>)
    requires
        st0.state == *old(state),
        st0.cfg == old(config)@,
        st0.body == old(body)@,
        st0.line_n >= 1,
        1 <= *old(line_n) <= 128,
        *old(line_n) as int == capped_line_n(st0.line_n),
    ensures
        (match r {
            Ok(g) => spec_scan_line(st0, line@, path@) == Ok::<_, ParseErrorModel>(
                ScanModel {
                    state: *final(state),
                    line_n: g@,
                    cfg: final(config)@,
                    body: final(body)@,
                },
            ) && g@ >= 1 && 1 <= *final(line_n) <= 128 && *final(line_n) as int == capped_line_n(
                g@,
            ),
            Err(e) => spec_scan_line(st0, line@, path@) == Err::<ScanModel, _>(e@),
        }),
{
    let ln = clamp_i8(*line_n);
    proof {
        assert(ln as int == clamp_lineno(st0.line_n));
    }
    match state {
        ScanState::BeforeConfig => {
            if is_dashes(line) {
                *state = ScanState::InConfig;
                if *line_n < 128 {
                    *line_n = *line_n + 1;
                }
                Ok(Ghost(st0.line_n + 1))
            } else {
                let msg = crate::parse::diag_chars(
                    "configuration needs to start with '---' for the first line",
                    path,
                    line,
                    0,
                    line.len(),
                    ln,
                );
                Err(ParseError::InvalidConfig(msg))
            }
        },
        ScanState::InConfig => {
            if is_dashes(line) {
                *state = ScanState::InBody;
                if *line_n < 128 {
                    *line_n = *line_n + 1;
                }
                Ok(Ghost(st0.line_n + 1))
            } else {
                match crate::parse::parse_key_chars(line, path, line, ln) {
                    Err(e) => Err(e),
                    Ok(kv) => {
                        let key = crate::text::trim_chars(&kv.0);
                        let val = crate::text::trim_chars(&kv.1);
                        match apply_key(config, &key, &val, path, line, ln, Ghost(st0)) {
                            Ok(u) => {
                                let _ = u;
                                if *line_n < 128 {
                                    *line_n = *line_n + 1;
                                }
                                Ok(Ghost(st0.line_n + 1))
                            },
                            Err(e) => Err(e),
                        }
                    },
                }
            }
        },
        ScanState::InBody => {
            append_chars(body, line);
            append_str(body, "\n");
            Ok(Ghost(st0.line_n))
        },
    }
}

/// A document's URL: its permalink when one is set, else its title with
/// `.html` appended; literal spaces are written `%20` either way.
pub open spec fn url_of(cfg: ConfigModel) -> Seq<char> {
    if cfg.permalink.len() == 0 {
        crate::text::escape_spaces(cfg.title + ".html"@)
    } else {
        crate::text::escape_spaces(cfg.permalink)
    }
}

fn build_url(config: &Config) -> (r: String)
    ensures
        r@ == url_of(config@),
{
    let mut base: Vec<char>;
    if config.permalink.as_str().is_empty() {
        base = str_to_chars(config.title.as_str());
        append_str(&mut base, ".html");
    } else {
        base = str_to_chars(config.permalink.as_str());
    }
    let escaped = crate::text::escape_spaces_chars(&base);
    chars_to_string(&escaped)
}

/// A parsed document: its evolving template body, its configuration, its
/// derived URL, and the binding snapshot handed to the template engine.
pub struct Article {
    pub template: String,
    pub config: Config,
    pub url: String,
    pub config_liquid: crate::bindings::TemplateValue,
}

/// The warning the renderer's layout phase raises: the defaulted base layout
/// names itself, a custom layout is duplicated as the base layout, or the
/// document has no layout at all.
#[derive(Debug, PartialEq)]
pub enum LayoutWarning {
    DefaultRecursion,
    DuplicateLayout,
    NoLayout,
}

/// When the layout phase warns: a non-empty layout equal to the base layout
/// risks infinite recursion — the defaulted `default` value named apart —
/// and a document with neither layout nor base layout renders bare.
pub open spec fn layout_warning_model(cfg: ConfigModel) -> Option<LayoutWarning> {
    if cfg.layout == cfg.base_layout && cfg.layout.len() > 0 {
        if cfg.layout == "default"@ {
            Some(LayoutWarning::DefaultRecursion)
        } else {
            Some(LayoutWarning::DuplicateLayout)
        }
    } else if cfg.base_layout.len() == 0 && cfg.layout.len() == 0 {
        Some(LayoutWarning::NoLayout)
    } else {
        None
    }
}

/// Classifies the layout recursion risk of a configuration; rendering
/// proceeds regardless of the answer.
pub fn layout_warning(config: &Config) -> (r: Option<LayoutWarning>)
    ensures
        r == layout_warning_model(config@),
{
    let same = config.layout == config.base_layout;
    if same && !config.layout.as_str().is_empty() {
        let lc = str_to_chars(config.layout.as_str());
        if crate::text::chars_eq_str(&lc, "default") {
            Some(LayoutWarning::DefaultRecursion)
        } else {
            Some(LayoutWarning::DuplicateLayout)
        }
    } else if config.base_layout.as_str().is_empty() && config.layout.as_str().is_empty() {
        Some(LayoutWarning::NoLayout)
    } else {
        None
    }
}

/// The template the final layout phase evaluates: an include of the base
/// layout when one is set, else of the layout, else the body itself.
pub open spec fn wrapper_source_model(cfg: ConfigModel, template: Seq<char>) -> Seq<char> {
    if cfg.base_layout.len() > 0 {
        "{%- include '"@ + cfg.base_layout + "' -%}"@
    } else if cfg.layout.len() > 0 {
        "{%- include '"@ + cfg.layout + "' -%}"@
    } else {
        template
    }
}

impl Article {
    /// A document as parsing builds it: the URL is derived from the
    /// configuration, and the binding snapshot is in step with the
    /// configuration, the URL, and the current body.
    pub open spec fn wf(&self) -> bool {
        &&& self.url@ == url_of(self.config@)
        &&& crate::bindings::binding_model(self.config_liquid)
            == crate::bindings::page_bindings_model(self.config@, self.url@, self.template@)
    }

    /// Parses a raw document: the front matter becomes the configuration,
    /// the trimmed remainder the template, and the URL and engine bindings
    /// are derived from both.
    pub fn parse(text: &str, path: &str) -> (r: Result<Article, ParseError>)
        ensures
            (match r {
                Ok(a) => spec_parse(text@, path@) matches Ok(p) && a.config@ == p.0 && a.template@
                    == trim_spec(p.1) && a.url@ == url_of(p.0) && a.wf(),
                Err(e) => spec_parse(text@, path@) == Err::<(ConfigModel, Seq<char>), _>(e@),
            }),
    {
        let parsed = parse(text, path);
        match parsed {
            Err(e) => Err(e),
            Ok(p) => {
                let (config, body) = p;
                let body_chars = str_to_chars(body.as_str());
                let trimmed = crate::text::trim_chars(&body_chars);
                let template = chars_to_string(&trimmed);
                let url = build_url(&config);
                let config_liquid = crate::bindings::page_bindings(&config, &url, &template);
                Ok(Article { template, config, url, config_liquid })
            },
        }
    }

    /// The source text the final layout phase will evaluate for this
    /// article.
    pub fn render_source(&self) -> (r: String)
        ensures
            r@ == wrapper_source_model(self.config@, self.template@),
    {
        if !self.config.base_layout.as_str().is_empty() {
            let mut s: Vec<char> = Vec::new();
            append_str(&mut s, "{%- include '");
            append_str(&mut s, self.config.base_layout.as_str());
            append_str(&mut s, "' -%}");
            chars_to_string(&s)
        } else if !self.config.layout.as_str().is_empty() {
            let mut s: Vec<char> = Vec::new();
            append_str(&mut s, "{%- include '");
            append_str(&mut s, self.config.layout.as_str());
            append_str(&mut s, "' -%}");
            chars_to_string(&s)
        } else {
            self.template.clone()
        }
    }

    /// The bindings object the engine renders against, the renderer's fixed
    /// envelope: the site-wide context under `global`, this document's
    /// binding snapshot under `page`, its layout name under `layout`, the
    /// site metadata under `site`, and the body of the current phase under
    /// `content` — those five keys in that order, no others, each value
    /// pinned to its model.
    fn render_envelope(
        &self,
        global: &crate::bindings::TemplateValue,
        site: &crate::bindings::TemplateValue,
    ) -> (r: Vec<(String, crate::bindings::TemplateValue)>)
        ensures
            r@.len() == 5,
            r@[0].0@ == "global"@ && crate::bindings::binding_model(r@[0].1)
                == crate::bindings::binding_model(*global),
            r@[1].0@ == "page"@ && crate::bindings::binding_model(r@[1].1)
                == crate::bindings::binding_model(self.config_liquid),
            r@[2].0@ == "layout"@ && crate::bindings::binding_model(r@[2].1)
                == crate::bindings::BindingModel::Str(self.config@.layout),
            r@[3].0@ == "site"@ && crate::bindings::binding_model(r@[3].1)
                == crate::bindings::binding_model(*site),
            r@[4].0@ == "content"@ && crate::bindings::binding_model(r@[4].1)
                == crate::bindings::BindingModel::Str(self.template@),
    {
        let mut env: Vec<(String, crate::bindings::TemplateValue)> = Vec::new();
        env.push((String::from_str("global"), crate::bindings::clone_value(global)));
        env.push((String::from_str("page"), crate::bindings::clone_value(&self.config_liquid)));
        env.push((
            String::from_str("layout"),
            crate::bindings::TemplateValue::Str(self.config.layout.clone()),
        ));
        env.push((String::from_str("site"), crate::bindings::clone_value(site)));
        env.push((
            String::from_str("content"),
            crate::bindings::TemplateValue::Str(self.template.clone()),
        ));
        env
    }

    /// The step after one engine expansion: the expansion becomes the new
    /// body — converted from Markdown when `md` is set, kept verbatim
    /// otherwise — and the binding snapshot is rebuilt from it; the
    /// configuration and the URL carry over untouched.
    fn finish_phase(self, expanded: String, md: bool) -> (a: Article)
        ensures
            a.config == self.config,
            a.url == self.url,
            !md ==> a.template@ == expanded@,
            md ==> a.template@ == crate::engine::md_to_html(expanded@),
            crate::bindings::binding_model(a.config_liquid)
                == crate::bindings::page_bindings_model(self.config@, self.url@, a.template@),
    {
        let template = if md {
            crate::engine::markdown_to_html(expanded.as_str())
        } else {
            expanded
        };
        let config_liquid = crate::bindings::page_bindings(&self.config, &self.url, &template);
        Article { template, config: self.config, url: self.url, config_liquid }
    }

    /// One expansion phase: the body is evaluated as a template against the
    /// envelope of [`Self::render_envelope`] — with the body itself under
    /// `content` — and the result moved in by [`Self::finish_phase`].
    /// Configuration and URL never change; a converted body is the Markdown
    /// converter's output; every failure is a template failure.
    fn pre_render(
        self,
        global: &crate::bindings::TemplateValue,
        site: &crate::bindings::TemplateValue,
        parser: &liquid::Parser,
        md: bool,
    ) -> (r: Result<Article, CustomError>)
        ensures
            (match r {
                Ok(a) => a.config == self.config && a.url == self.url
                    && crate::bindings::binding_model(a.config_liquid)
                    == crate::bindings::page_bindings_model(self.config@, self.url@, a.template@)
                    && (self.wf() ==> a.wf()) && (md ==> exists|e: Seq<char>|
                    a.template@ == crate::engine::md_to_html(e)),
                Err(e) => e@ matches CustomErrorModel::LiquidError(_),
            }),
    {
        let env = self.render_envelope(global, site);
        match crate::engine::liquid_render(parser, self.template.as_str(), &env) {
            Err(e) => Err(CustomError::LiquidError(e)),
            Ok(expanded) => Ok(self.finish_phase(expanded, md)),
        }
    }

    /// The final layout phase: evaluates the resolved wrapper template of
    /// [`Self::render_source`] — base layout, layout, or the bare body —
    /// against the envelope of [`Self::render_envelope`], with the current
    /// body under `content`.
    fn render(
        &self,
        global: &crate::bindings::TemplateValue,
        site: &crate::bindings::TemplateValue,
        parser: &liquid::Parser,
    ) -> (r: Result<String, CustomError>)
        ensures
            (match r {
                Ok(_) => true,
                Err(e) => e@ matches CustomErrorModel::LiquidError(_),
            }),
    {
        let source = self.render_source();
        let env = self.render_envelope(global, site);
        match crate::engine::liquid_render(parser, source.as_str(), &env) {
            Ok(out) => Ok(out),
            Err(e) => Err(CustomError::LiquidError(e)),
        }
    }

    /// The whole two-phase pipeline: expand the raw body, expand again and
    /// convert the result from Markdown to HTML, then wrap it in the
    /// resolved layout chain. Every failure is a template failure.
    pub fn true_render(
        self,
        global: &crate::bindings::TemplateValue,
        site: &crate::bindings::TemplateValue,
        parser: &liquid::Parser,
    ) -> (r: Result<String, CustomError>)
        ensures
            (match r {
                Ok(_) => true,
                Err(e) => e@ matches CustomErrorModel::LiquidError(_),
            }),
    {
        let once = match self.pre_render(global, site, parser, false) {
            Ok(a) => a,
            Err(e) => return Err(e),
        };
        let twice = match once.pre_render(global, site, parser, true) {
            Ok(a) => a,
            Err(e) => return Err(e),
        };
        twice.render(global, site, parser)
    }
}

/// Applies one recognized `key: value` line to the configuration, leaving it
/// unchanged when the value's grammar rejects.
fn apply_key(
    config: &mut Config,
    key: &Vec<char>,
    val: &Vec<char>,
    path: &str,
    line: &Vec<char>,
    ln: i8,
    Ghost(st): Ghost<ScanModel>,
) -> (r: Result<bool, ParseError>)
    requires
        st.cfg == old(config)@,
        ln as int == clamp_lineno(st.line_n),
    ensures
        (match r {
            Ok(_) => spec_apply_key(st, key@, val@, line@, path@) == Ok::<_, ParseErrorModel>(
                ScanModel { line_n: st.line_n + 1, cfg: final(config)@, ..st },
            ),
            Err(e) => spec_apply_key(st, key@, val@, line@, path@) == Err::<ScanModel, _>(e@),
        }),
{
    if crate::text::chars_eq_str(key, "layout") {
        match crate::parse::parse_value_string_chars(val, path, line, ln) {
            Ok(v) => {
                config.layout = chars_to_string(&v);
                proof {
                    assert(config@ =~= ConfigModel { layout: v@, ..st.cfg });
                }
                Ok(true)
            },
            Err(e) => Err(e),
        }
    } else if crate::text::chars_eq_str(key, "base_layout") {
        match crate::parse::parse_value_string_chars(val, path, line, ln) {
            Ok(v) => {
                config.base_layout = chars_to_string(&v);
                proof {
                    assert(config@ =~= ConfigModel { base_layout: v@, ..st.cfg });
                }
                Ok(true)
            },
            Err(e) => Err(e),
        }
    } else if crate::text::chars_eq_str(key, "title") {
        match crate::parse::parse_value_string_chars(val, path, line, ln) {
            Ok(v) => {
                config.title = chars_to_string(&v);
                proof {
                    assert(config@ =~= ConfigModel { title: v@, ..st.cfg });
                }
                Ok(true)
            },
            Err(e) => Err(e),
        }
    } else if crate::text::chars_eq_str(key, "description") {
        match crate::parse::parse_value_string_chars(val, path, line, ln) {
            Ok(v) => {
                config.description = chars_to_string(&v);
                proof {
                    assert(config@ =~= ConfigModel { description: v@, ..st.cfg });
                }
                Ok(true)
            },
            Err(e) => Err(e),
        }
    } else if crate::text::chars_eq_str(key, "permalink") {
        match crate::parse::parse_value_string_chars(val, path, line, ln) {
            Ok(v) => {
                config.permalink = chars_to_string(&v);
                proof {
                    assert(config@ =~= ConfigModel { permalink: v@, ..st.cfg });
                }
                Ok(true)
            },
            Err(e) => Err(e),
        }
    } else if crate::text::chars_eq_str(key, "categories") {
        match crate::parse::parse_value_list_chars(val, path, line, ln) {
            Ok(items) => {
                config.categories = crate::text::chars_to_strings(&items);
                proof {
                    assert(config@ =~= ConfigModel { categories: views_of(items@), ..st.cfg });
                }
                Ok(true)
            },
            Err(e) => Err(e),
        }
    } else if crate::text::chars_eq_str(key, "tags") {
        match crate::parse::parse_value_list_chars(val, path, line, ln) {
            Ok(items) => {
                config.tags = crate::text::chars_to_strings(&items);
                proof {
                    assert(config@ =~= ConfigModel { tags: views_of(items@), ..st.cfg });
                }
                Ok(true)
            },
            Err(e) => Err(e),
        }
    } else if crate::text::chars_eq_str(key, "titlebar") {
        match crate::parse::parse_value_boolean_chars(val, path, line, ln) {
            Ok(b) => {
                config.visible = b;
                proof {
                    assert(config@ =~= ConfigModel { visible: b, ..st.cfg });
                }
                Ok(true)
            },
            Err(e) => Err(e),
        }
    } else if crate::text::chars_eq_str(key, "date") {
        match crate::parse::parse_value_time_chars(val, path, line, ln) {
            Ok(t) => {
                let ghost tv = t@;
                config.date = Some(t);
                proof {
                    assert(config@ =~= ConfigModel { date: Some(tv), ..st.cfg });
                }
                Ok(true)
            },
            Err(e) => Err(e),
        }
    } else {
        Err(
            ParseError::InvalidKey(
                crate::parse::diag_chars(
                    "unknown key",
                    path,
                    line,
                    0,
                    crate::text::sat_sub(line.len(), 1),
                    ln,
                ),
            ),
        )
    }
}

} // verus!
