//! The front-matter value grammars and their rustc-style diagnostics.
//!
//! Every parser here is specified against a functional model of the grammar:
//! the exec code returns exactly what the model says, message text included.

use vstd::prelude::*;

use crate::text::{
    append_chars, append_str, cap_add, cap_sub, chars_to_string, dec_str, find_from, int_str,
    pad_left_spec, repeat_char, sat_add, sat_sub, str_to_chars, subvec, trim_spec,
};

verus! {

/// A line number held to the widest value the diagnostic's line-number type
/// carries.
pub open spec fn clamp_lineno(n: int) -> int {
    if n > 127 {
        127
    } else {
        n
    }
}

/// The gutter of the diagnostic: two spaces while the line number has up to
/// two digits, then one more space per digit. With the line-number type
/// topping out at three digits, the widest gutter in reach is three spaces.
pub open spec fn spacing_of(lineno: int) -> Seq<char> {
    if lineno < 100 {
        "  "@
    } else {
        "   "@
    }
}

/// The caret underline spanning `[start, end)`.
pub open spec fn underline_of(start: int, end: int) -> Seq<char> {
    repeat_char(' ', start) + repeat_char('^', end - start)
}

/// The whole diagnostic: the location header, the offending line in a
/// line-number gutter, and the caret underline, followed by the message.
pub open spec fn diag_msg(
    message: Seq<char>,
    path: Seq<char>,
    line: Seq<char>,
    start: int,
    end: int,
    lineno: int,
) -> Seq<char> {
    let sp = spacing_of(lineno);
    "\n"@ + sp + " --> "@ + path + " "@ + int_str(lineno) + ":"@ + dec_str(start) + "\n"@ + sp
        + " |\n"@ + pad_left_spec(int_str(lineno), sp.len() as int) + " | "@ + line + "\n"@ + sp
        + " | "@ + underline_of(start, end) + "\n"@ + sp + " |\n"@ + sp + message
}

/// What the front-matter parser reports: an unrecognized key, a value missing
/// where one is required, a value that fails its grammar, or a structural
/// failure of the configuration block. Each carries a formatted diagnostic.
#[derive(Debug, PartialEq)]
pub enum ParseError {
    InvalidKey(String),
    EmptyValue(String),
    InvalidValue(String),
    InvalidConfig(String),
}

/// The spec-level shape of a [`ParseError`].
pub enum ParseErrorModel {
    InvalidKey(Seq<char>),
    EmptyValue(Seq<char>),
    InvalidValue(Seq<char>),
    InvalidConfig(Seq<char>),
}

impl View for ParseError {
    type V = ParseErrorModel;

    open spec fn view(&self) -> ParseErrorModel {
        match self {
            ParseError::InvalidKey(s) => ParseErrorModel::InvalidKey(s@),
            ParseError::EmptyValue(s) => ParseErrorModel::EmptyValue(s@),
            ParseError::InvalidValue(s) => ParseErrorModel::InvalidValue(s@),
            ParseError::InvalidConfig(s) => ParseErrorModel::InvalidConfig(s@),
        }
    }
}

impl ParseError {
    /// The error's kind-prefixed report, one line per error.
    pub open spec fn describe_spec(&self) -> Seq<char> {
        match self {
            ParseError::InvalidKey(s) => "Invalid key: "@ + s@ + "\n"@,
            ParseError::EmptyValue(s) => "Empty value\n"@ + s@ + "\n"@,
            ParseError::InvalidValue(s) => "Invalid value: "@ + s@ + "\n"@,
            ParseError::InvalidConfig(s) => "Invalid configuration: "@ + s@ + "\n"@,
        }
    }

    /// Renders the error for reporting.
    pub fn describe(&self) -> (r: String)
        ensures
            r@ == self.describe_spec(),
    {
        match self {
            ParseError::InvalidKey(s) => String::from_str("Invalid key: ").concat(s.as_str())
                .concat("\n"),
            ParseError::EmptyValue(s) => String::from_str("Empty value\n").concat(s.as_str())
                .concat("\n"),
            ParseError::InvalidValue(s) => String::from_str("Invalid value: ").concat(s.as_str())
                .concat("\n"),
            ParseError::InvalidConfig(s) => String::from_str("Invalid configuration: ").concat(
                s.as_str(),
            ).concat("\n"),
        }
    }
}

/// Builds the caret-annotated diagnostic over an already decoded line.
pub(crate) fn diag_chars(
    message: &str,
    path: &str,
    line: &Vec<char>,
    start: usize,
    end: usize,
    lineno: i8,
) -> (r: String)
    ensures
        r@ == diag_msg(message@, path@, line@, start as int, end as int, lineno as int),
{
    let sp: &str = if lineno < 100 {
        "  "
    } else {
        "   "
    };
    let num = crate::text::i8_to_chars(lineno);
    let mut m: Vec<char> = Vec::new();
    append_str(&mut m, "\n");
    append_str(&mut m, sp);
    append_str(&mut m, " --> ");
    append_str(&mut m, path);
    append_str(&mut m, " ");
    append_chars(&mut m, &num);
    append_str(&mut m, ":");
    let st = crate::text::usize_to_chars(start);
    append_chars(&mut m, &st);
    append_str(&mut m, "\n");
    append_str(&mut m, sp);
    append_str(&mut m, " |\n");
    let padded = crate::text::pad_left_chars(&num, sp.unicode_len());
    append_chars(&mut m, &padded);
    append_str(&mut m, " | ");
    append_chars(&mut m, line);
    append_str(&mut m, "\n");
    append_str(&mut m, sp);
    append_str(&mut m, " | ");
    let spaces = crate::text::repeat_chars(' ', start);
    append_chars(&mut m, &spaces);
    let carets = crate::text::repeat_chars('^', if end > start {
        end - start
    } else {
        0
    });
    append_chars(&mut m, &carets);
    proof {
        if end <= start {
            assert(repeat_char('^', end - start) =~= repeat_char('^', 0));
        }
    }
    append_str(&mut m, "\n");
    append_str(&mut m, sp);
    append_str(&mut m, " |\n");
    append_str(&mut m, sp);
    append_str(&mut m, message);
    proof {
        assert(sp@ == spacing_of(lineno as int));
        assert(m@ =~= diag_msg(
            message@,
            path@,
            line@,
            start as int,
            end as int,
            lineno as int,
        ));
    }
    chars_to_string(&m)
}

/// Renders a human-readable, pointer-annotated message: the offending line is
/// reproduced with a `^` underline spanning `[start, end)`, in a line-number
/// gutter whose width follows the number of digits.
pub fn parse_error_message(
    message: &str,
    path: &str,
    line: &str,
    start: usize,
    end: usize,
    lineno: i8,
) -> (r: String)
    ensures
        r@ == diag_msg(message@, path@, line@, start as int, end as int, lineno as int),
{
    let line_chars = str_to_chars(line);
    diag_chars(message, path, &line_chars, start, end, lineno)
}

/// What [`parse_key`] returns: the text before the first `:` and the raw text
/// after it, or the diagnostic for a missing key or missing `:`.
pub open spec fn spec_parse_key(
    rest: Seq<char>,
    path: Seq<char>,
    line: Seq<char>,
    lineno: int,
) -> Result<(Seq<char>, Seq<char>), ParseErrorModel> {
    if rest.len() == 0 {
        Err(
            ParseErrorModel::EmptyValue(
                diag_msg(
                    "expected name of key"@,
                    path,
                    line,
                    line.len() as int,
                    cap_add(line.len() as int, 5),
                    lineno,
                ),
            ),
        )
    } else {
        match find_from(rest, ':', 0) {
            Some(i) => Ok((rest.subrange(0, i), rest.subrange(i + 1, rest.len() as int))),
            None => Err(
                ParseErrorModel::InvalidKey(
                    diag_msg(
                        "no semicolon found"@,
                        path,
                        line,
                        line.len() as int,
                        cap_add(line.len() as int, 1),
                        lineno,
                    ),
                ),
            ),
        }
    }
}

pub(crate) fn parse_key_chars(
    rest: &Vec<char>,
    path: &str,
    line: &Vec<char>,
    lineno: i8,
) -> (r: Result<(Vec<char>, Vec<char>), ParseError>)
    ensures
        (match r {
            Ok(kv) => spec_parse_key(rest@, path@, line@, lineno as int) == Ok::<
                _,
                ParseErrorModel,
            >((kv.0@, kv.1@)),
            Err(e) => spec_parse_key(rest@, path@, line@, lineno as int) == Err::<
                (Seq<char>, Seq<char>),
                _,
            >(e@),
        }),
{
    if rest.len() == 0 {
        return Err(
            ParseError::EmptyValue(
                diag_chars(
                    "expected name of key",
                    path,
                    line,
                    line.len(),
                    sat_add(line.len(), 5),
                    lineno,
                ),
            ),
        );
    }
    match crate::text::find_char(rest, ':', 0) {
        Some(i) => Ok((subvec(rest, 0, i), subvec(rest, i + 1, rest.len()))),
        None => Err(
            ParseError::InvalidKey(
                diag_chars(
                    "no semicolon found",
                    path,
                    line,
                    line.len(),
                    sat_add(line.len(), 1),
                    lineno,
                ),
            ),
        ),
    }
}

/// Splits a `key: value` line at its first `:`. The diagnostic points past the
/// end of the line when no `:` is present.
pub fn parse_key(rest: &str, path: &str, line: &str, lineno: i8) -> (r: Result<
    (String, String),
    ParseError,
>)
    ensures
        (match r {
            Ok(kv) => spec_parse_key(rest@, path@, line@, lineno as int) == Ok::<
                _,
                ParseErrorModel,
            >((kv.0@, kv.1@)),
            Err(e) => spec_parse_key(rest@, path@, line@, lineno as int) == Err::<
                (Seq<char>, Seq<char>),
                _,
            >(e@),
        }),
{
    let rest_chars = str_to_chars(rest);
    let line_chars = str_to_chars(line);
    match parse_key_chars(&rest_chars, path, &line_chars, lineno) {
        Ok(kv) => Ok((chars_to_string(&kv.0), chars_to_string(&kv.1))),
        Err(e) => Err(e),
    }
}

/// The value of the closing delimiter line, which no string value may equal.
pub open spec fn dashes() -> Seq<char> {
    seq!['-', '-', '-']
}

/// What [`parse_value_string`] returns: the trimmed value with one layer of
/// matching quotes removed, or the diagnostic for an empty value, an unclosed
/// quote, or a bare `---`.
pub open spec fn spec_parse_value_string(
    rest0: Seq<char>,
    path: Seq<char>,
    line: Seq<char>,
    lineno: int,
) -> Result<Seq<char>, ParseErrorModel> {
    let rest = trim_spec(rest0);
    if rest.len() == 0 {
        Err(
            ParseErrorModel::EmptyValue(
                diag_msg(
                    "empty value"@,
                    path,
                    line,
                    line.len() as int,
                    cap_add(line.len() as int, 5),
                    lineno,
                ),
            ),
        )
    } else if rest[0] == '"' {
        if rest.len() >= 2 && rest[rest.len() - 1] == '"' {
            Ok(rest.subrange(1, rest.len() - 1))
        } else {
            Err(
                ParseErrorModel::InvalidValue(
                    diag_msg(
                        "string started with \" character but did not close string at the end"@,
                        path,
                        line,
                        0,
                        line.len() as int,
                        lineno,
                    ),
                ),
            )
        }
    } else if rest[0] == '\'' {
        if rest.len() >= 2 && rest[rest.len() - 1] == '\'' {
            Ok(rest.subrange(1, rest.len() - 1))
        } else {
            Err(
                ParseErrorModel::InvalidValue(
                    diag_msg(
                        "string started with \" character but did not close string at the end"@,
                        path,
                        line,
                        0,
                        line.len() as int,
                        lineno,
                    ),
                ),
            )
        }
    } else if rest == dashes() {
        Err(
            ParseErrorModel::InvalidValue(
                diag_msg(
                    "found '---' can't use configuration start and end identifier as a value"@,
                    path,
                    line,
                    cap_sub(line.len() as int, 3),
                    line.len() as int,
                    lineno,
                ),
            ),
        )
    } else {
        Ok(rest)
    }
}

pub(crate) fn parse_value_string_chars(
    rest0: &Vec<char>,
    path: &str,
    line: &Vec<char>,
    lineno: i8,
) -> (r: Result<Vec<char>, ParseError>)
    ensures
        (match r {
            Ok(v) => spec_parse_value_string(rest0@, path@, line@, lineno as int) == Ok::<
                _,
                ParseErrorModel,
            >(v@),
            Err(e) => spec_parse_value_string(rest0@, path@, line@, lineno as int) == Err::<
                Seq<char>,
                _,
            >(e@),
        }),
{
    let rest = crate::text::trim_chars(rest0);
    if rest.len() == 0 {
        return Err(
            ParseError::EmptyValue(
                diag_chars("empty value", path, line, line.len(), sat_add(line.len(), 5), lineno),
            ),
        );
    }
    if rest[0] == '"' {
        if rest.len() >= 2 && rest[rest.len() - 1] == '"' {
            return Ok(subvec(&rest, 1, rest.len() - 1));
        }
        return Err(
            ParseError::InvalidValue(
                diag_chars(
                    "string started with \" character but did not close string at the end",
                    path,
                    line,
                    0,
                    line.len(),
                    lineno,
                ),
            ),
        );
    }
    if rest[0] == '\'' {
        if rest.len() >= 2 && rest[rest.len() - 1] == '\'' {
            return Ok(subvec(&rest, 1, rest.len() - 1));
        }
        return Err(
            ParseError::InvalidValue(
                diag_chars(
                    "string started with \" character but did not close string at the end",
                    path,
                    line,
                    0,
                    line.len(),
                    lineno,
                ),
            ),
        );
    }
    if rest.len() == 3 && rest[0] == '-' && rest[1] == '-' && rest[2] == '-' {
        proof {
            assert(rest@ =~= dashes());
        }
        return Err(
            ParseError::InvalidValue(
                diag_chars(
                    "found '---' can't use configuration start and end identifier as a value",
                    path,
                    line,
                    sat_sub(line.len(), 3),
                    line.len(),
                    lineno,
                ),
            ),
        );
    }
    proof {
        assert(rest@ != dashes());
    }
    Ok(rest)
}

/// Parses a string-typed value: quoted with matching `'…'` or `"…"`, or bare;
/// a bare value may not be `---`.
pub fn parse_value_string(rest: &str, path: &str, line: &str, lineno: i8) -> (r: Result<
    String,
    ParseError,
>)
    ensures
        (match r {
            Ok(v) => spec_parse_value_string(rest@, path@, line@, lineno as int) == Ok::<
                _,
                ParseErrorModel,
            >(v@),
            Err(e) => spec_parse_value_string(rest@, path@, line@, lineno as int) == Err::<
                Seq<char>,
                _,
            >(e@),
        }),
{
    let rest_chars = str_to_chars(rest);
    let line_chars = str_to_chars(line);
    match parse_value_string_chars(&rest_chars, path, &line_chars, lineno) {
        Ok(v) => Ok(chars_to_string(&v)),
        Err(e) => Err(e),
    }
}

/// Whether the string grammar accepts a raw value: non-blank after
/// trimming, an opening quote matched by the same closing quote, and a bare
/// value that is not the delimiter word.
pub open spec fn accepts_string(rest0: Seq<char>) -> bool {
    let t = trim_spec(rest0);
    &&& t.len() > 0
    &&& if t[0] == '"' || t[0] == '\'' {
        t.len() >= 2 && t[t.len() - 1] == t[0]
    } else {
        t != dashes()
    }
}

/// The value the string grammar reads from a raw value it accepts: the
/// trimmed text, with one layer of matching quotes removed.
pub open spec fn string_value(rest0: Seq<char>) -> Seq<char> {
    let t = trim_spec(rest0);
    if t.len() > 0 && (t[0] == '"' || t[0] == '\'') {
        t.subrange(1, t.len() - 1)
    } else {
        t
    }
}

/// On an accepted raw value the string grammar returns exactly
/// [`string_value`], whatever the diagnostic context.
pub proof fn lemma_string_value(rest0: Seq<char>, path: Seq<char>, line: Seq<char>, lineno: int)
    requires
        accepts_string(rest0),
    ensures
        spec_parse_value_string(rest0, path, line, lineno) == Ok::<Seq<char>, ParseErrorModel>(
            string_value(rest0),
        ),
{
}

/// What [`parse_value_boolean`] returns: `true` or `false` for exactly those
/// words, the underline pointing at the value's width otherwise.
pub open spec fn spec_parse_value_boolean(
    rest: Seq<char>,
    path: Seq<char>,
    line: Seq<char>,
    lineno: int,
) -> Result<bool, ParseErrorModel> {
    if rest == "true"@ {
        Ok(true)
    } else if rest == "false"@ {
        Ok(false)
    } else {
        Err(
            ParseErrorModel::InvalidValue(
                diag_msg(
                    ""@,
                    path,
                    line,
                    cap_sub(line.len() as int, rest.len() as int),
                    line.len() as int,
                    lineno,
                ),
            ),
        )
    }
}

pub(crate) fn parse_value_boolean_chars(
    rest: &Vec<char>,
    path: &str,
    line: &Vec<char>,
    lineno: i8,
) -> (r: Result<bool, ParseError>)
    ensures
        (match r {
            Ok(b) => spec_parse_value_boolean(rest@, path@, line@, lineno as int) == Ok::<
                _,
                ParseErrorModel,
            >(b),
            Err(e) => spec_parse_value_boolean(rest@, path@, line@, lineno as int) == Err::<
                bool,
                _,
            >(e@),
        }),
{
    if crate::text::chars_eq_str(rest, "true") {
        Ok(true)
    } else if crate::text::chars_eq_str(rest, "false") {
        Ok(false)
    } else {
        Err(
            ParseError::InvalidValue(
                diag_chars("", path, line, sat_sub(line.len(), rest.len()), line.len(), lineno),
            ),
        )
    }
}

/// Parses a boolean-typed value: only the words `true` and `false` are
/// accepted.
pub fn parse_value_boolean(rest: &str, path: &str, line: &str, lineno: i8) -> (r: Result<
    bool,
    ParseError,
>)
    ensures
        (match r {
            Ok(b) => spec_parse_value_boolean(rest@, path@, line@, lineno as int) == Ok::<
                _,
                ParseErrorModel,
            >(b),
            Err(e) => spec_parse_value_boolean(rest@, path@, line@, lineno as int) == Err::<
                bool,
                _,
            >(e@),
        }),
{
    let rest_chars = str_to_chars(rest);
    let line_chars = str_to_chars(line);
    parse_value_boolean_chars(&rest_chars, path, &line_chars, lineno)
}

/// The scanner state while a list value is split at commas: `prev` is the
/// index after the last comma taken, the two flags say whether the scan stands
/// inside a double- or single-quoted span, and `items` holds the values parsed
/// so far.
pub struct ListScan {
    pub prev: int,
    pub in_dq: bool,
    pub in_sq: bool,
    pub items: Seq<Seq<char>>,
}

/// One character of the list scan: a comma outside quotes ends an element,
/// a quote character toggles its span unless the other kind is open.
pub open spec fn spec_list_step(
    rest: Seq<char>,
    st: ListScan,
    i: int,
    path: Seq<char>,
    line: Seq<char>,
    lineno: int,
) -> Result<ListScan, ParseErrorModel> {
    let c = rest[i];
    if c == ',' && !st.in_dq && !st.in_sq {
        match spec_parse_value_string(rest.subrange(st.prev, i), path, line, lineno) {
            Ok(v) => Ok(
                ListScan { prev: i + 1, in_dq: st.in_dq, in_sq: st.in_sq, items: st.items.push(v) },
            ),
            Err(e) => Err(e),
        }
    } else if c == '"' && !st.in_sq {
        Ok(ListScan { in_dq: !st.in_dq, ..st })
    } else if c == '\'' && !st.in_dq {
        Ok(ListScan { in_sq: !st.in_sq, ..st })
    } else {
        Ok(st)
    }
}

/// The list scan state after the first `i` characters of `rest`.
pub open spec fn spec_list_scan(
    rest: Seq<char>,
    i: int,
    path: Seq<char>,
    line: Seq<char>,
    lineno: int,
) -> Result<ListScan, ParseErrorModel>
    decreases i,
{
    if i <= 0 {
        Ok(ListScan { prev: 0, in_dq: false, in_sq: false, items: Seq::empty() })
    } else {
        match spec_list_scan(rest, i - 1, path, line, lineno) {
            Ok(st) => spec_list_step(rest, st, i - 1, path, line, lineno),
            Err(e) => Err(e),
        }
    }
}

proof fn lemma_list_scan_err(
    rest: Seq<char>,
    i: int,
    j: int,
    path: Seq<char>,
    line: Seq<char>,
    lineno: int,
)
    requires
        0 <= i <= j,
        spec_list_scan(rest, i, path, line, lineno) is Err,
    ensures
        spec_list_scan(rest, j, path, line, lineno) == spec_list_scan(rest, i, path, line, lineno),
    decreases j,
{
    if j > i {
        lemma_list_scan_err(rest, i, j - 1, path, line, lineno);
    }
}

/// What [`parse_value_list`] returns: the comma-separated elements, each under
/// the string grammar, quotes suppressing the comma split; or the diagnostic
/// for an empty value, an unclosed bracket or quote, or a trailing comma.
pub open spec fn spec_parse_value_list(
    rest0: Seq<char>,
    path: Seq<char>,
    line: Seq<char>,
    lineno: int,
) -> Result<Seq<Seq<char>>, ParseErrorModel> {
    let rest1 = trim_spec(rest0);
    if rest1.len() == 0 {
        Err(
            ParseErrorModel::EmptyValue(
                diag_msg(
                    "empty"@,
                    path,
                    line,
                    line.len() as int,
                    cap_add(line.len() as int, 5),
                    lineno,
                ),
            ),
        )
    } else if rest1[0] == '[' && rest1[rest1.len() - 1] != ']' {
        Err(
            ParseErrorModel::InvalidValue(
                diag_msg(
                    "found opening square bracket for list but no opening bracket"@,
                    path,
                    line,
                    0,
                    line.len() as int,
                    lineno,
                ),
            ),
        )
    } else {
        let rest = if rest1[0] == '[' {
            crate::text::trim_end_matches_char(
                crate::text::trim_start_matches_char(rest1, '['),
                ']',
            )
        } else {
            rest1
        };
        match spec_list_scan(rest, rest.len() as int, path, line, lineno) {
            Err(e) => Err(e),
            Ok(st) => {
                if st.prev == rest.len() {
                    Err(
                        ParseErrorModel::InvalidValue(
                            diag_msg(
                                "value expected after semi-colon"@,
                                path,
                                line,
                                line.len() as int,
                                cap_add(line.len() as int, 5),
                                lineno,
                            ),
                        ),
                    )
                } else if st.in_dq {
                    Err(
                        ParseErrorModel::InvalidValue(
                            diag_msg(
                                "found a string but no closing \""@,
                                path,
                                line,
                                cap_sub(line.len() as int, 1),
                                line.len() as int,
                                lineno,
                            ),
                        ),
                    )
                } else if st.in_sq {
                    Err(
                        ParseErrorModel::InvalidValue(
                            diag_msg(
                                "found a string but no closing '"@,
                                path,
                                line,
                                cap_sub(line.len() as int, 1),
                                line.len() as int,
                                lineno,
                            ),
                        ),
                    )
                } else {
                    match spec_parse_value_string(
                        rest.subrange(st.prev, rest.len() as int),
                        path,
                        line,
                        lineno,
                    ) {
                        Ok(v) => Ok(st.items.push(v)),
                        Err(e) => Err(e),
                    }
                }
            },
        }
    }
}

#[verifier::loop_isolation(false)]
pub(crate) fn parse_value_list_chars(
    rest0: &Vec<char>,
    path: &str,
    line: &Vec<char>,
    lineno: i8,
) -> (r: Result<Vec<Vec<char>>, ParseError>)
    ensures
        (match r {
            Ok(items) => spec_parse_value_list(rest0@, path@, line@, lineno as int) == Ok::<
                _,
                ParseErrorModel,
            >(crate::text::views_of(items@)),
            Err(e) => spec_parse_value_list(rest0@, path@, line@, lineno as int) == Err::<
                Seq<Seq<char>>,
                _,
            >(e@),
        }),
{
    let rest1 = crate::text::trim_chars(rest0);
    if rest1.len() == 0 {
        return Err(
            ParseError::EmptyValue(
                diag_chars("empty", path, line, line.len(), sat_add(line.len(), 5), lineno),
            ),
        );
    }
    if rest1[0] == '[' && rest1[rest1.len() - 1] != ']' {
        return Err(
            ParseError::InvalidValue(
                diag_chars(
                    "found opening square bracket for list but no opening bracket",
                    path,
                    line,
                    0,
                    line.len(),
                    lineno,
                ),
            ),
        );
    }
    let rest = if rest1[0] == '[' {
        crate::text::trim_matches_chars(&rest1, '[', ']')
    } else {
        rest1
    };
    let ghost gpath = path@;
    let ghost gline = line@;
    let ghost glineno = lineno as int;
    let mut items: Vec<Vec<char>> = Vec::new();
    let mut prev: usize = 0;
    let mut in_dq: bool = false;
    let mut in_sq: bool = false;
    let mut i: usize = 0;
    proof {
        assert(crate::text::views_of(items@) =~= Seq::<Seq<char>>::empty());
    }
    while i < rest.len()
        invariant
            0 <= i <= rest@.len(),
            prev <= i,
            spec_list_scan(rest@, i as int, gpath, gline, glineno) == Ok::<_, ParseErrorModel>(
                ListScan {
                    prev: prev as int,
                    in_dq: in_dq,
                    in_sq: in_sq,
                    items: crate::text::views_of(items@),
                },
            ),
            gpath == path@,
            gline == line@,
            glineno == lineno as int,
        decreases rest@.len() - i,
    {
        let c = rest[i];
        if c == ',' && !in_dq && !in_sq {
            let seg = subvec(&rest, prev, i);
            match parse_value_string_chars(&seg, path, line, lineno) {
                Ok(v) => {
                    let ghost items0 = items@;
                    items.push(v);
                    proof {
                        assert(crate::text::views_of(items@) =~= crate::text::views_of(
                            items0,
                        ).push(items@[items0.len() as int]@));
                    }
                    prev = i + 1;
                },
                Err(e) => {
                    proof {
                        let st = ListScan {
                            prev: prev as int,
                            in_dq: in_dq,
                            in_sq: in_sq,
                            items: crate::text::views_of(items@),
                        };
                        assert(spec_list_step(rest@, st, i as int, gpath, gline, glineno) == Err::<
                            ListScan,
                            _,
                        >(e@));
                        assert(spec_list_scan(rest@, i + 1, gpath, gline, glineno) == Err::<
                            ListScan,
                            _,
                        >(e@));
                        lemma_list_scan_err(rest@, i + 1, rest@.len() as int, gpath, gline, glineno);
                    }
                    return Err(e);
                },
            }
        } else if c == '"' && !in_sq {
            in_dq = !in_dq;
        } else if c == '\'' && !in_dq {
            in_sq = !in_sq;
        }
        i = i + 1;
    }
    if prev == rest.len() {
        return Err(
            ParseError::InvalidValue(
                diag_chars(
                    "value expected after semi-colon",
                    path,
                    line,
                    line.len(),
                    sat_add(line.len(), 5),
                    lineno,
                ),
            ),
        );
    }
    if in_dq {
        return Err(
            ParseError::InvalidValue(
                diag_chars(
                    "found a string but no closing \"",
                    path,
                    line,
                    sat_sub(line.len(), 1),
                    line.len(),
                    lineno,
                ),
            ),
        );
    }
    if in_sq {
        return Err(
            ParseError::InvalidValue(
                diag_chars(
                    "found a string but no closing '",
                    path,
                    line,
                    sat_sub(line.len(), 1),
                    line.len(),
                    lineno,
                ),
            ),
        );
    }
    let seg = subvec(&rest, prev, rest.len());
    match parse_value_string_chars(&seg, path, line, lineno) {
        Ok(v) => {
            let ghost items0 = items@;
            items.push(v);
            proof {
                assert(crate::text::views_of(items@) =~= crate::text::views_of(items0).push(
                    items@[items0.len() as int]@,
                ));
            }
            Ok(items)
        },
        Err(e) => Err(e),
    }
}

/// Parses a comma-separated list value, optionally enclosed in `[...]`, each
/// element under the string grammar; quotes keep a comma from splitting.
pub fn parse_value_list(rest: &str, path: &str, line: &str, lineno: i8) -> (r: Result<
    Vec<String>,
    ParseError,
>)
    ensures
        (match r {
            Ok(items) => spec_parse_value_list(rest@, path@, line@, lineno as int) == Ok::<
                _,
                ParseErrorModel,
            >(crate::text::views_of_strs(items@)),
            Err(e) => spec_parse_value_list(rest@, path@, line@, lineno as int) == Err::<
                Seq<Seq<char>>,
                _,
            >(e@),
        }),
{
    let rest_chars = str_to_chars(rest);
    let line_chars = str_to_chars(line);
    match parse_value_list_chars(&rest_chars, path, &line_chars, lineno) {
        Ok(items) => {
            let mut out: Vec<String> = Vec::new();
            let mut k: usize = 0;
            while k < items.len()
                invariant
                    0 <= k <= items@.len(),
                    out@.len() == k,
                    forall|j: int| 0 <= j < k ==> out@[j]@ == items@[j]@,
                decreases items@.len() - k,
            {
                out.push(chars_to_string(&items[k]));
                k = k + 1;
            }
            proof {
                assert(crate::text::views_of_strs(out@) =~= crate::text::views_of(items@));
            }
            Ok(out)
        },
        Err(e) => Err(e),
    }
}

/// The normalized timestamp that `chrono` reads from a `YYYY-MM-DD` value, if
/// the value parses as such a date.
pub uninterp spec fn ymd_datetime(s: Seq<char>) -> Option<Seq<char>>;

/// The normalized timestamp that `chrono` reads from a `YYYY-MM-DD HH:MM`
/// value, if the value parses in that format.
pub uninterp spec fn ymd_hm_datetime(s: Seq<char>) -> Option<Seq<char>>;

/// The message of `chrono`'s parse error on a value that fits neither format.
pub uninterp spec fn ymd_hm_error(s: Seq<char>) -> Seq<char>;

/// Relies on `chrono::NaiveDate::parse_from_str` with the `%Y-%m-%d` format:
/// whether a value parses, and as what date, depends on its characters alone.
/// An accepted date is given midnight and printed with `NaiveDateTime`'s
/// `Display`.
#[verifier::external_body]
fn parse_date_ymd(s: &str) -> (r: Option<String>)
    ensures
        (match r {
            Some(t) => ymd_datetime(s@) == Some(t@),
            None => ymd_datetime(s@) is None,
        }),
{
    match chrono::NaiveDate::parse_from_str(s, "%Y-%m-%d") {
        Ok(d) => Some(d.and_time(chrono::NaiveTime::from_hms_milli(0, 0, 0, 0)).to_string()),
        Err(_) => None,
    }
}

/// Relies on `chrono::NaiveDateTime::parse_from_str` with the `%Y-%m-%d %H:%M`
/// format, and on its error's `Display`: both depend on the input characters
/// alone.
#[verifier::external_body]
fn parse_date_ymd_hm(s: &str) -> (r: Result<String, String>)
    ensures
        (match r {
            Ok(t) => ymd_hm_datetime(s@) == Some(t@),
            Err(e) => ymd_hm_datetime(s@) is None && e@ == ymd_hm_error(s@),
        }),
{
    match chrono::NaiveDateTime::parse_from_str(s, "%Y-%m-%d %H:%M") {
        Ok(d) => Ok(d.to_string()),
        Err(e) => Err(e.to_string()),
    }
}

/// What [`parse_value_time`] returns: the normalized timestamp under the first
/// format that accepts the value, else the diagnostic carrying the date
/// error's own message.
pub open spec fn spec_parse_value_time(
    rest: Seq<char>,
    path: Seq<char>,
    line: Seq<char>,
    lineno: int,
) -> Result<Seq<char>, ParseErrorModel> {
    match ymd_datetime(rest) {
        Some(t) => Ok(t),
        None => match ymd_hm_datetime(rest) {
            Some(t) => Ok(t),
            None => Err(
                ParseErrorModel::InvalidValue(
                    diag_msg(
                        "date error: "@ + ymd_hm_error(rest) + " expected Y-m-d or Y-m-d h:m"@,
                        path,
                        line,
                        cap_sub(line.len() as int, rest.len() as int),
                        line.len() as int,
                        lineno,
                    ),
                ),
            ),
        },
    }
}

pub(crate) fn parse_value_time_chars(
    rest: &Vec<char>,
    path: &str,
    line: &Vec<char>,
    lineno: i8,
) -> (r: Result<String, ParseError>)
    ensures
        (match r {
            Ok(t) => spec_parse_value_time(rest@, path@, line@, lineno as int) == Ok::<
                _,
                ParseErrorModel,
            >(t@),
            Err(e) => spec_parse_value_time(rest@, path@, line@, lineno as int) == Err::<
                Seq<char>,
                _,
            >(e@),
        }),
{
    let rest_s = chars_to_string(rest);
    match parse_date_ymd(rest_s.as_str()) {
        Some(t) => Ok(t),
        None => match parse_date_ymd_hm(rest_s.as_str()) {
            Ok(t) => Ok(t),
            Err(e) => {
                let mut msg: Vec<char> = Vec::new();
                append_str(&mut msg, "date error: ");
                append_str(&mut msg, e.as_str());
                append_str(&mut msg, " expected Y-m-d or Y-m-d h:m");
                let msg_s = chars_to_string(&msg);
                Err(
                    ParseError::InvalidValue(
                        diag_chars(
                            msg_s.as_str(),
                            path,
                            line,
                            sat_sub(line.len(), rest.len()),
                            line.len(),
                            lineno,
                        ),
                    ),
                )
            },
        },
    }
}

/// Parses a date value: `YYYY-MM-DD` (midnight implied), else
/// `YYYY-MM-DD HH:MM`; the result is the normalized timestamp string.
pub fn parse_value_time(rest: &str, path: &str, line: &str, lineno: i8) -> (r: Result<
    String,
    ParseError,
>)
    ensures
        (match r {
            Ok(t) => spec_parse_value_time(rest@, path@, line@, lineno as int) == Ok::<
                _,
                ParseErrorModel,
            >(t@),
            Err(e) => spec_parse_value_time(rest@, path@, line@, lineno as int) == Err::<
                Seq<char>,
                _,
            >(e@),
        }),
{
    let rest_chars = str_to_chars(rest);
    let line_chars = str_to_chars(line);
    parse_value_time_chars(&rest_chars, path, &line_chars, lineno)
}

} // verus!
