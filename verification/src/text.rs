//! Character-sequence utilities shared by the parser and the renderer.
//!
//! Exec code works on `Vec<char>` so that every step is visible to the
//! verifier; `&str` values cross the boundary through [`str_to_chars`] and
//! [`chars_to_string`].

use vstd::prelude::*;

verus! {

/// The whitespace characters that trimming strips from both ends of a
/// value: Unicode's White_Space set, as `char::is_whitespace` tests it.
pub open spec fn is_space(c: char) -> bool {
    ('\u{09}' <= c && c <= '\u{0D}') || c == ' ' || c == '\u{85}' || c == '\u{A0}' || c
        == '\u{1680}' || ('\u{2000}' <= c && c <= '\u{200A}') || c == '\u{2028}' || c
        == '\u{2029}' || c == '\u{202F}' || c == '\u{205F}' || c == '\u{3000}'
}

/// The smallest index `j >= i` with `s[j] == c`, if any.
pub open spec fn find_from(s: Seq<char>, c: char, i: int) -> Option<int>
    decreases s.len() - i,
{
    if i < 0 || i >= s.len() {
        None
    } else if s[i] == c {
        Some(i)
    } else {
        find_from(s, c, i + 1)
    }
}

pub proof fn lemma_find_from(s: Seq<char>, c: char, i: int)
    requires
        0 <= i <= s.len(),
    ensures
        (match find_from(s, c, i) {
            Some(j) => i <= j < s.len() && s[j] == c && (forall|k: int| i <= k < j ==> s[k] != c),
            None => forall|k: int| i <= k < s.len() ==> s[k] != c,
        }),
    decreases s.len() - i,
{
    if i < s.len() && s[i] != c {
        lemma_find_from(s, c, i + 1);
    }
}

pub open spec fn trim_start_spec(s: Seq<char>) -> Seq<char>
    decreases s.len(),
{
    if s.len() == 0 {
        s
    } else if is_space(s[0]) {
        trim_start_spec(s.drop_first())
    } else {
        s
    }
}

pub open spec fn trim_end_spec(s: Seq<char>) -> Seq<char>
    decreases s.len(),
{
    if s.len() == 0 {
        s
    } else if is_space(s[s.len() - 1]) {
        trim_end_spec(s.drop_last())
    } else {
        s
    }
}

/// What `str::trim` leaves of `s` (over the plain whitespace of [`is_space`]).
pub open spec fn trim_spec(s: Seq<char>) -> Seq<char> {
    trim_end_spec(trim_start_spec(s))
}

proof fn lemma_trim_start_prefix(s: Seq<char>, a: int)
    requires
        0 <= a <= s.len(),
        forall|k: int| 0 <= k < a ==> is_space(s[k]),
        a < s.len() ==> !is_space(s[a]),
    ensures
        trim_start_spec(s) =~= s.subrange(a, s.len() as int),
    decreases a,
{
    if a == 0 {
    } else {
        assert(is_space(s[0]));
        assert(s.drop_first() =~= s.subrange(1, s.len() as int));
        lemma_trim_start_prefix(s.drop_first(), a - 1);
        assert(s.drop_first().subrange(a - 1, s.drop_first().len() as int) =~= s.subrange(
            a,
            s.len() as int,
        ));
    }
}

proof fn lemma_trim_end_suffix(s: Seq<char>, b: int)
    requires
        0 <= b <= s.len(),
        forall|k: int| b <= k < s.len() ==> is_space(s[k]),
        b > 0 ==> !is_space(s[b - 1]),
    ensures
        trim_end_spec(s) =~= s.subrange(0, b),
    decreases s.len(),
{
    if b == s.len() {
    } else {
        assert(is_space(s[s.len() - 1]));
        assert(s.drop_last() =~= s.subrange(0, s.len() - 1));
        lemma_trim_end_suffix(s.drop_last(), b);
        assert(s.drop_last().subrange(0, b) =~= s.subrange(0, b));
    }
}

pub proof fn lemma_trim_start_head(s: Seq<char>)
    ensures
        trim_start_spec(s).len() > 0 ==> !is_space(trim_start_spec(s)[0]),
    decreases s.len(),
{
    if s.len() > 0 && is_space(s[0]) {
        lemma_trim_start_head(s.drop_first());
    }
}

pub proof fn lemma_trim_end_last(s: Seq<char>)
    ensures
        trim_end_spec(s).len() > 0 ==> !is_space(
            trim_end_spec(s)[trim_end_spec(s).len() - 1],
        ),
    decreases s.len(),
{
    if s.len() > 0 && is_space(s[s.len() - 1]) {
        lemma_trim_end_last(s.drop_last());
    }
}

pub proof fn lemma_trim_end_prefix(s: Seq<char>)
    ensures
        trim_end_spec(s).len() <= s.len(),
        forall|i: int|
            0 <= i < trim_end_spec(s).len() ==> #[trigger] trim_end_spec(s)[i] == s[i],
    decreases s.len(),
{
    if s.len() > 0 && is_space(s[s.len() - 1]) {
        lemma_trim_end_prefix(s.drop_last());
    }
}

/// Trimming an already trimmed value changes nothing.
pub proof fn lemma_trim_idempotent(s: Seq<char>)
    ensures
        trim_spec(trim_spec(s)) == trim_spec(s),
{
    let t1 = trim_start_spec(s);
    let t = trim_end_spec(t1);
    lemma_trim_start_head(s);
    lemma_trim_end_prefix(t1);
    lemma_trim_end_last(t1);
    if t.len() > 0 {
        assert(t[0] == t1[0]);
        assert(!is_space(t[0]));
        assert(trim_start_spec(t) == t);
        assert(!is_space(t[t.len() - 1]));
        assert(trim_end_spec(t) == t);
    } else {
        assert(trim_start_spec(t) == t);
        assert(trim_end_spec(t) == t);
    }
}

pub fn is_space_char(c: char) -> (r: bool)
    ensures
        r == is_space(c),
{
    ('\u{09}' <= c && c <= '\u{0D}') || c == ' ' || c == '\u{85}' || c == '\u{A0}' || c
        == '\u{1680}' || ('\u{2000}' <= c && c <= '\u{200A}') || c == '\u{2028}' || c
        == '\u{2029}' || c == '\u{202F}' || c == '\u{205F}' || c == '\u{3000}'
}

/// `str::trim` on a character vector.
pub fn trim_chars(s: &Vec<char>) -> (r: Vec<char>)
    ensures
        r@ == trim_spec(s@),
{
    let mut a: usize = 0;
    while a < s.len() && is_space_char(s[a])
        invariant
            0 <= a <= s@.len(),
            forall|k: int| 0 <= k < a ==> is_space(s@[k]),
        decreases s@.len() - a,
    {
        a = a + 1;
    }
    proof {
        lemma_trim_start_prefix(s@, a as int);
    }
    let mut b: usize = s.len();
    while b > a && is_space_char(s[b - 1])
        invariant
            a <= b <= s@.len(),
            forall|k: int| b <= k < s@.len() ==> is_space(s@[k]),
        decreases b,
    {
        b = b - 1;
    }
    let ghost t = trim_start_spec(s@);
    proof {
        assert(t =~= s@.subrange(a as int, s@.len() as int));
        lemma_trim_end_suffix(t, b - a);
        assert(t.subrange(0, b - a) =~= s@.subrange(a as int, b as int));
    }
    let mut r: Vec<char> = Vec::new();
    let mut i: usize = a;
    while i < b
        invariant
            a <= i <= b <= s@.len(),
            r@ =~= s@.subrange(a as int, i as int),
        decreases b - i,
    {
        r.push(s[i]);
        proof {
            assert(r@ =~= s@.subrange(a as int, i + 1));
        }
        i = i + 1;
    }
    proof {
        assert(r@ =~= trim_spec(s@));
    }
    r
}

/// The characters of `s`, in order.
pub fn str_to_chars(s: &str) -> (r: Vec<char>)
    ensures
        r@ == s@,
{
    let n = s.unicode_len();
    let mut r: Vec<char> = Vec::new();
    let mut i: usize = 0;
    while i < n
        invariant
            0 <= i <= n,
            n == s@.len(),
            r@ =~= s@.subrange(0, i as int),
        decreases n - i,
    {
        r.push(s.get_char(i));
        proof {
            assert(r@ =~= s@.subrange(0, i + 1));
        }
        i = i + 1;
    }
    proof {
        assert(r@ =~= s@);
    }
    r
}

/// Relies on `String`'s `FromIterator<char>`: collecting characters yields the
/// string of exactly those characters in order.
#[verifier::external_body]
pub(crate) fn chars_to_string(v: &Vec<char>) -> (r: String)
    ensures
        r@ == v@,
{
    v.iter().collect()
}

/// Appends every character of `src` to `dst`.
pub fn append_chars(dst: &mut Vec<char>, src: &Vec<char>)
    ensures
        final(dst)@ == old(dst)@ + src@,
{
    let mut i: usize = 0;
    while i < src.len()
        invariant
            0 <= i <= src@.len(),
            dst@ =~= old(dst)@ + src@.subrange(0, i as int),
        decreases src@.len() - i,
    {
        dst.push(src[i]);
        proof {
            assert(dst@ =~= old(dst)@ + src@.subrange(0, i + 1));
        }
        i = i + 1;
    }
    proof {
        assert(dst@ =~= old(dst)@ + src@);
    }
}

/// Appends every character of the string slice `src` to `dst`.
pub fn append_str(dst: &mut Vec<char>, src: &str)
    ensures
        final(dst)@ == old(dst)@ + src@,
{
    let n = src.unicode_len();
    let mut i: usize = 0;
    while i < n
        invariant
            0 <= i <= n,
            n == src@.len(),
            dst@ =~= old(dst)@ + src@.subrange(0, i as int),
        decreases n - i,
    {
        dst.push(src.get_char(i));
        proof {
            assert(dst@ =~= old(dst)@ + src@.subrange(0, i + 1));
        }
        i = i + 1;
    }
    proof {
        assert(dst@ =~= old(dst)@ + src@);
    }
}

/// `a + b` held to the machine's largest index, as the saturating addition
/// computes it.
pub open spec fn cap_add(a: int, b: int) -> int {
    if a + b <= usize::MAX {
        a + b
    } else {
        usize::MAX as int
    }
}

/// `a - b` held at zero, as the saturating subtraction computes it.
pub open spec fn cap_sub(a: int, b: int) -> int {
    if a - b >= 0 {
        a - b
    } else {
        0
    }
}

pub fn sat_add(a: usize, b: usize) -> (r: usize)
    ensures
        r == cap_add(a as int, b as int),
{
    if a > usize::MAX - b {
        usize::MAX
    } else {
        a + b
    }
}

pub fn sat_sub(a: usize, b: usize) -> (r: usize)
    ensures
        r == cap_sub(a as int, b as int),
{
    if a >= b {
        a - b
    } else {
        0
    }
}

/// The decimal digit character for `d` in `0 ..= 9`.
pub open spec fn dec_digit(d: int) -> char {
    if d == 0 {
        '0'
    } else if d == 1 {
        '1'
    } else if d == 2 {
        '2'
    } else if d == 3 {
        '3'
    } else if d == 4 {
        '4'
    } else if d == 5 {
        '5'
    } else if d == 6 {
        '6'
    } else if d == 7 {
        '7'
    } else if d == 8 {
        '8'
    } else {
        '9'
    }
}

/// The decimal digits of a non-negative number, most significant first.
pub open spec fn dec_str(n: int) -> Seq<char>
    decreases n,
{
    if n < 10 {
        seq![dec_digit(n)]
    } else {
        dec_str(n / 10).push(dec_digit(n % 10))
    }
}

/// The decimal rendering of a possibly negative number.
pub open spec fn int_str(n: int) -> Seq<char> {
    if n < 0 {
        seq!['-'] + dec_str(-n)
    } else {
        dec_str(n)
    }
}

pub open spec fn repeat_char(c: char, n: int) -> Seq<char>
    decreases n,
{
    if n <= 0 {
        Seq::empty()
    } else {
        repeat_char(c, n - 1).push(c)
    }
}

/// `s` right-aligned in a field of `w` spaces.
pub open spec fn pad_left_spec(s: Seq<char>, w: int) -> Seq<char> {
    if s.len() >= w {
        s
    } else {
        repeat_char(' ', w - s.len()) + s
    }
}

fn dec_digit_char(d: usize) -> (r: char)
    requires
        d < 10,
    ensures
        r == dec_digit(d as int),
{
    if d == 0 {
        '0'
    } else if d == 1 {
        '1'
    } else if d == 2 {
        '2'
    } else if d == 3 {
        '3'
    } else if d == 4 {
        '4'
    } else if d == 5 {
        '5'
    } else if d == 6 {
        '6'
    } else if d == 7 {
        '7'
    } else if d == 8 {
        '8'
    } else {
        '9'
    }
}

pub fn usize_to_chars(n: usize) -> (r: Vec<char>)
    ensures
        r@ == dec_str(n as int),
    decreases n,
{
    if n < 10 {
        let mut r: Vec<char> = Vec::new();
        r.push(dec_digit_char(n));
        proof {
            assert(r@ =~= seq![dec_digit(n as int)]);
        }
        r
    } else {
        let mut r = usize_to_chars(n / 10);
        r.push(dec_digit_char(n % 10));
        r
    }
}

pub fn i8_to_chars(n: i8) -> (r: Vec<char>)
    ensures
        r@ == int_str(n as int),
{
    if n < 0 {
        let m: i32 = -(n as i32);
        let mut r: Vec<char> = Vec::new();
        r.push('-');
        let digits = usize_to_chars(m as usize);
        append_chars(&mut r, &digits);
        proof {
            assert(seq!['-'] + digits@ =~= r@);
        }
        r
    } else {
        usize_to_chars(n as usize)
    }
}

pub fn repeat_chars(c: char, n: usize) -> (r: Vec<char>)
    ensures
        r@ == repeat_char(c, n as int),
{
    let mut r: Vec<char> = Vec::new();
    let mut i: usize = 0;
    while i < n
        invariant
            0 <= i <= n,
            r@ =~= repeat_char(c, i as int),
        decreases n - i,
    {
        r.push(c);
        i = i + 1;
    }
    r
}

pub fn pad_left_chars(s: &Vec<char>, w: usize) -> (r: Vec<char>)
    ensures
        r@ == pad_left_spec(s@, w as int),
{
    if s.len() >= w {
        let mut r: Vec<char> = Vec::new();
        append_chars(&mut r, s);
        proof {
            assert(r@ =~= s@);
        }
        r
    } else {
        let mut r = repeat_chars(' ', w - s.len());
        append_chars(&mut r, s);
        r
    }
}

/// A copy of `s[a .. b]`.
pub fn subvec(s: &Vec<char>, a: usize, b: usize) -> (r: Vec<char>)
    requires
        a <= b <= s@.len(),
    ensures
        r@ == s@.subrange(a as int, b as int),
{
    let mut r: Vec<char> = Vec::new();
    let mut i: usize = a;
    while i < b
        invariant
            a <= i <= b <= s@.len(),
            r@ =~= s@.subrange(a as int, i as int),
        decreases b - i,
    {
        r.push(s[i]);
        proof {
            assert(r@ =~= s@.subrange(a as int, i + 1));
        }
        i = i + 1;
    }
    r
}

/// Whether `pat` occurs in `s` starting at `i`.
pub fn window_eq(s: &Vec<char>, i: usize, pat: &str) -> (r: bool)
    requires
        i <= s@.len(),
    ensures
        r == (i + pat@.len() <= s@.len() && s@.subrange(i as int, i + pat@.len()) == pat@),
{
    let n = pat.unicode_len();
    let slen = s.len();
    if n > slen - i {
        return false;
    }
    let mut k: usize = 0;
    while k < n
        invariant
            0 <= k <= n,
            n == pat@.len(),
            slen == s@.len(),
            i + n <= slen,
            forall|j: int| 0 <= j < k ==> s@[i + j] == pat@[j],
        decreases n - k,
    {
        if s[i + k] != pat.get_char(k) {
            proof {
                assert(s@.subrange(i as int, i + pat@.len())[k as int] != pat@[k as int]);
            }
            return false;
        }
        k = k + 1;
    }
    proof {
        assert(s@.subrange(i as int, i + pat@.len()) =~= pat@);
    }
    true
}

/// `s` with every occurrence of `pat` removed, scanning left to right as
/// `str::replace` does.
pub open spec fn remove_all(s: Seq<char>, pat: Seq<char>) -> Seq<char>
    decreases s.len(),
{
    if pat.len() == 0 || s.len() < pat.len() {
        s
    } else if s.subrange(0, pat.len() as int) == pat {
        remove_all(s.subrange(pat.len() as int, s.len() as int), pat)
    } else {
        seq![s[0]] + remove_all(s.subrange(1, s.len() as int), pat)
    }
}

pub fn remove_all_chars(s: &Vec<char>, pat: &str) -> (r: Vec<char>)
    requires
        pat@.len() > 0,
    ensures
        r@ == remove_all(s@, pat@),
{
    let mut r: Vec<char> = Vec::new();
    let mut i: usize = 0;
    let n = pat.unicode_len();
    proof {
        assert(s@.subrange(0, s@.len() as int) =~= s@);
        assert(Seq::<char>::empty() + remove_all(s@, pat@) =~= remove_all(s@, pat@));
    }
    while i < s.len()
        invariant
            0 <= i <= s@.len(),
            n == pat@.len(),
            n > 0,
            remove_all(s@, pat@) == r@ + remove_all(s@.subrange(i as int, s@.len() as int), pat@),
        decreases s@.len() - i,
    {
        let ghost rest = s@.subrange(i as int, s@.len() as int);
        if window_eq(s, i, pat) {
            proof {
                assert(rest.subrange(0, pat@.len() as int) =~= s@.subrange(i as int, i + pat@.len()));
                assert(rest.subrange(pat@.len() as int, rest.len() as int) =~= s@.subrange(
                    i + pat@.len(),
                    s@.len() as int,
                ));
            }
            i = i + n;
        } else {
            let ghost r0 = r@;
            r.push(s[i]);
            proof {
                let rest2 = s@.subrange(i + 1, s@.len() as int);
                if rest.len() < pat@.len() {
                    assert(remove_all(rest, pat@) == rest);
                    assert(remove_all(rest2, pat@) == rest2);
                    assert(rest =~= seq![s@[i as int]] + rest2);
                } else {
                    assert(rest.subrange(0, pat@.len() as int) != pat@) by {
                        assert(rest.subrange(0, pat@.len() as int) =~= s@.subrange(
                            i as int,
                            i + pat@.len(),
                        ));
                    }
                    assert(rest.subrange(1, rest.len() as int) =~= rest2);
                    assert(seq![rest[0]] =~= seq![s@[i as int]]);
                    assert(remove_all(rest, pat@) == seq![s@[i as int]] + remove_all(rest2, pat@));
                }
                assert(r@ + remove_all(rest2, pat@) =~= r0 + remove_all(rest, pat@));
            }
            i = i + 1;
        }
    }
    proof {
        assert(s@.subrange(s@.len() as int, s@.len() as int) =~= Seq::<char>::empty());
        assert(remove_all(Seq::<char>::empty(), pat@) == Seq::<char>::empty());
        assert(r@ =~= r@ + Seq::<char>::empty());
    }
    r
}

/// Whether the character vector holds exactly the characters of `s`.
pub fn chars_eq_str(v: &Vec<char>, s: &str) -> (r: bool)
    ensures
        r == (v@ == s@),
{
    let n = s.unicode_len();
    if v.len() != n {
        proof {
            assert(v@ != s@);
        }
        return false;
    }
    let mut i: usize = 0;
    while i < n
        invariant
            0 <= i <= n,
            n == s@.len(),
            n == v@.len(),
            forall|k: int| 0 <= k < i ==> v@[k] == s@[k],
        decreases n - i,
    {
        if v[i] != s.get_char(i) {
            return false;
        }
        i = i + 1;
    }
    proof {
        assert(v@ =~= s@);
    }
    true
}

/// `s` with every leading `c` removed, as `str::trim_start_matches` strips a
/// repeated one-character pattern.
pub open spec fn trim_start_matches_char(s: Seq<char>, c: char) -> Seq<char>
    decreases s.len(),
{
    if s.len() > 0 && s[0] == c {
        trim_start_matches_char(s.drop_first(), c)
    } else {
        s
    }
}

/// `s` with every trailing `c` removed.
pub open spec fn trim_end_matches_char(s: Seq<char>, c: char) -> Seq<char>
    decreases s.len(),
{
    if s.len() > 0 && s[s.len() - 1] == c {
        trim_end_matches_char(s.drop_last(), c)
    } else {
        s
    }
}

proof fn lemma_trim_start_matches_prefix(s: Seq<char>, c: char, a: int)
    requires
        0 <= a <= s.len(),
        forall|k: int| 0 <= k < a ==> s[k] == c,
        a < s.len() ==> s[a] != c,
    ensures
        trim_start_matches_char(s, c) =~= s.subrange(a, s.len() as int),
    decreases a,
{
    if a == 0 {
    } else {
        assert(s.drop_first() =~= s.subrange(1, s.len() as int));
        lemma_trim_start_matches_prefix(s.drop_first(), c, a - 1);
        assert(s.drop_first().subrange(a - 1, s.drop_first().len() as int) =~= s.subrange(
            a,
            s.len() as int,
        ));
    }
}

proof fn lemma_trim_end_matches_suffix(s: Seq<char>, c: char, b: int)
    requires
        0 <= b <= s.len(),
        forall|k: int| b <= k < s.len() ==> s[k] == c,
        b > 0 ==> s[b - 1] != c,
    ensures
        trim_end_matches_char(s, c) =~= s.subrange(0, b),
    decreases s.len(),
{
    if b == s.len() {
    } else {
        assert(s.drop_last() =~= s.subrange(0, s.len() - 1));
        lemma_trim_end_matches_suffix(s.drop_last(), c, b);
        assert(s.drop_last().subrange(0, b) =~= s.subrange(0, b));
    }
}

/// `str::trim_start_matches` then `str::trim_end_matches`, each with a
/// one-character pattern.
pub fn trim_matches_chars(s: &Vec<char>, open_c: char, close_c: char) -> (r: Vec<char>)
    ensures
        r@ == trim_end_matches_char(trim_start_matches_char(s@, open_c), close_c),
{
    let mut a: usize = 0;
    while a < s.len() && s[a] == open_c
        invariant
            0 <= a <= s@.len(),
            forall|k: int| 0 <= k < a ==> s@[k] == open_c,
        decreases s@.len() - a,
    {
        a = a + 1;
    }
    proof {
        lemma_trim_start_matches_prefix(s@, open_c, a as int);
    }
    let ghost t = trim_start_matches_char(s@, open_c);
    let mut b: usize = s.len();
    while b > a && s[b - 1] == close_c
        invariant
            a <= b <= s@.len(),
            forall|k: int| b <= k < s@.len() ==> s@[k] == close_c,
        decreases b,
    {
        b = b - 1;
    }
    proof {
        assert(t =~= s@.subrange(a as int, s@.len() as int));
        lemma_trim_end_matches_suffix(t, close_c, b - a);
        assert(t.subrange(0, b - a) =~= s@.subrange(a as int, b as int));
    }
    subvec(s, a, b)
}

/// The views of a sequence of strings.
pub open spec fn views_of_strs(v: Seq<String>) -> Seq<Seq<char>> {
    Seq::new(v.len(), |i: int| v[i]@)
}

/// The views of a sequence of character vectors.
pub open spec fn views_of(v: Seq<Vec<char>>) -> Seq<Seq<char>> {
    Seq::new(v.len(), |i: int| v[i]@)
}

/// `line` with one trailing carriage return removed, as `BufRead::lines` strips it.
pub open spec fn drop_cr(line: Seq<char>) -> Seq<char> {
    if line.len() > 0 && line[line.len() - 1] == '\r' {
        line.drop_last()
    } else {
        line
    }
}

/// The lines of `s[i ..]` given the pending characters `cur` of the current line:
/// lines are cut at each newline, a carriage return just before a newline is
/// dropped, and a final segment without a newline is kept as it stands.
pub open spec fn split_acc(s: Seq<char>, i: int, cur: Seq<char>) -> Seq<Seq<char>>
    decreases s.len() - i,
{
    if i < 0 || i >= s.len() {
        if cur.len() == 0 {
            Seq::empty()
        } else {
            seq![cur]
        }
    } else if s[i] == '\n' {
        seq![drop_cr(cur)] + split_acc(s, i + 1, Seq::empty())
    } else {
        split_acc(s, i + 1, cur.push(s[i]))
    }
}

/// How `BufRead::lines` cuts `s` into lines.
pub open spec fn split_lines_spec(s: Seq<char>) -> Seq<Seq<char>> {
    split_acc(s, 0, Seq::empty())
}

pub fn split_lines(s: &Vec<char>) -> (r: Vec<Vec<char>>)
    ensures
        views_of(r@) == split_lines_spec(s@),
{
    let mut out: Vec<Vec<char>> = Vec::new();
    let mut cur: Vec<char> = Vec::new();
    let mut i: usize = 0;
    while i < s.len()
        invariant
            0 <= i <= s@.len(),
            split_lines_spec(s@) == views_of(out@) + split_acc(s@, i as int, cur@),
        decreases s@.len() - i,
    {
        if s[i] == '\n' {
            let ghost cur0 = cur@;
            let mut line = cur;
            cur = Vec::new();
            if line.len() > 0 && line[line.len() - 1] == '\r' {
                line.pop();
            }
            proof {
                assert(line@ == drop_cr(cur0));
            }
            let ghost out0 = out@;
            out.push(line);
            proof {
                assert(views_of(out@) =~= views_of(out0).push(line@));
                assert(views_of(out0) + (seq![line@] + split_acc(s@, i + 1, Seq::empty()))
                    =~= views_of(out@) + split_acc(s@, i + 1, Seq::empty()));
            }
        } else {
            cur.push(s[i]);
        }
        i = i + 1;
    }
    if cur.len() > 0 {
        let ghost out0 = out@;
        out.push(cur);
        proof {
            assert(views_of(out@) =~= views_of(out0).push(out@[out0.len() as int]@));
            assert(views_of(out0) + seq![out@[out0.len() as int]@] =~= views_of(out@));
        }
    } else {
        proof {
            assert(views_of(out@) + Seq::<Seq<char>>::empty() =~= views_of(out@));
        }
    }
    out
}

/// `s` with every space written as `%20`, as `str::replace(" ", "%20")`
/// rewrites it.
pub open spec fn escape_spaces(s: Seq<char>) -> Seq<char>
    decreases s.len(),
{
    if s.len() == 0 {
        s
    } else if s[0] == ' ' {
        seq!['%', '2', '0'] + escape_spaces(s.drop_first())
    } else {
        seq![s[0]] + escape_spaces(s.drop_first())
    }
}

pub fn escape_spaces_chars(s: &Vec<char>) -> (r: Vec<char>)
    ensures
        r@ == escape_spaces(s@),
{
    let mut r: Vec<char> = Vec::new();
    let mut i: usize = 0;
    proof {
        assert(s@.subrange(0, s@.len() as int) =~= s@);
        assert(Seq::<char>::empty() + escape_spaces(s@) =~= escape_spaces(s@));
    }
    while i < s.len()
        invariant
            0 <= i <= s@.len(),
            escape_spaces(s@) == r@ + escape_spaces(s@.subrange(i as int, s@.len() as int)),
        decreases s@.len() - i,
    {
        let ghost r0 = r@;
        let ghost rest = s@.subrange(i as int, s@.len() as int);
        if s[i] == ' ' {
            r.push('%');
            r.push('2');
            r.push('0');
            proof {
                assert(rest.drop_first() =~= s@.subrange(i + 1, s@.len() as int));
                assert(escape_spaces(rest) == seq!['%', '2', '0'] + escape_spaces(
                    rest.drop_first(),
                ));
                assert(r@ + escape_spaces(rest.drop_first()) =~= r0 + escape_spaces(rest));
            }
        } else {
            r.push(s[i]);
            proof {
                assert(rest.drop_first() =~= s@.subrange(i + 1, s@.len() as int));
                assert(seq![rest[0]] =~= seq![s@[i as int]]);
                assert(escape_spaces(rest) == seq![s@[i as int]] + escape_spaces(
                    rest.drop_first(),
                ));
                assert(r@ + escape_spaces(rest.drop_first()) =~= r0 + escape_spaces(rest));
            }
        }
        i = i + 1;
    }
    proof {
        assert(s@.subrange(s@.len() as int, s@.len() as int) =~= Seq::<char>::empty());
        assert(r@ =~= r@ + Seq::<char>::empty());
    }
    r
}

/// Each character vector turned into a string, in order.
pub fn chars_to_strings(items: &Vec<Vec<char>>) -> (r: Vec<String>)
    ensures
        views_of_strs(r@) == views_of(items@),
{
    let mut out: Vec<String> = Vec::new();
    let mut k: usize = 0;
    while k < items.len()
        invariant
            0 <= k <= items@.len(),
            out@.len() == k,
            forall|j: int| 0 <= j < k ==> out@[j]@ == items@[j]@,
        decreases items@.len() - k,
    {
        out.push(chars_to_string(&items[k]));
        k = k + 1;
    }
    proof {
        assert(views_of_strs(out@) =~= views_of(items@));
    }
    out
}

/// The segments of `s[i ..]` between newlines, given the pending characters
/// `cur`: every segment is kept, the empty ones and a final one included, as
/// `str::split('\n')` cuts a string.
pub open spec fn split_plain_acc(s: Seq<char>, i: int, cur: Seq<char>) -> Seq<Seq<char>>
    decreases s.len() - i,
{
    if i < 0 || i >= s.len() {
        seq![cur]
    } else if s[i] == '\n' {
        seq![cur] + split_plain_acc(s, i + 1, Seq::empty())
    } else {
        split_plain_acc(s, i + 1, cur.push(s[i]))
    }
}

/// How `str::split('\n')` cuts `s`.
pub open spec fn split_plain(s: Seq<char>) -> Seq<Seq<char>> {
    split_plain_acc(s, 0, Seq::empty())
}

pub fn split_plain_chars(s: &Vec<char>) -> (r: Vec<Vec<char>>)
    ensures
        views_of(r@) == split_plain(s@),
{
    let mut out: Vec<Vec<char>> = Vec::new();
    let mut cur: Vec<char> = Vec::new();
    let mut i: usize = 0;
    while i < s.len()
        invariant
            0 <= i <= s@.len(),
            split_plain(s@) == views_of(out@) + split_plain_acc(s@, i as int, cur@),
        decreases s@.len() - i,
    {
        if s[i] == '\n' {
            let line = cur;
            cur = Vec::new();
            let ghost out0 = out@;
            out.push(line);
            proof {
                assert(views_of(out@) =~= views_of(out0).push(out@[out0.len() as int]@));
                assert(views_of(out0) + (seq![out@[out0.len() as int]@] + split_plain_acc(
                    s@,
                    i + 1,
                    Seq::empty(),
                )) =~= views_of(out@) + split_plain_acc(s@, i + 1, Seq::empty()));
            }
        } else {
            cur.push(s[i]);
        }
        i = i + 1;
    }
    let ghost out0 = out@;
    let ghost curv = cur@;
    out.push(cur);
    proof {
        assert(views_of(out@) =~= views_of(out0).push(curv));
        assert(views_of(out0) + seq![curv] =~= views_of(out@));
    }
    out
}

/// The largest index at which `c` stands in `s`, if any.
pub open spec fn find_last(s: Seq<char>, c: char) -> Option<int>
    decreases s.len(),
{
    if s.len() == 0 {
        None
    } else if s[s.len() - 1] == c {
        Some(s.len() - 1)
    } else {
        find_last(s.drop_last(), c)
    }
}

pub fn find_last_char(s: &Vec<char>, c: char) -> (r: Option<usize>)
    ensures
        (match r {
            Some(j) => find_last(s@, c) == Some(j as int) && j < s@.len(),
            None => find_last(s@, c) is None,
        }),
{
    let mut b: usize = s.len();
    proof {
        assert(s@.subrange(0, s@.len() as int) =~= s@);
    }
    while b > 0
        invariant
            0 <= b <= s@.len(),
            find_last(s@, c) == find_last(s@.subrange(0, b as int), c),
        decreases b,
    {
        proof {
            assert(s@.subrange(0, b as int).drop_last() =~= s@.subrange(0, b - 1));
        }
        if s[b - 1] == c {
            return Some(b - 1);
        }
        b = b - 1;
    }
    proof {
        assert(s@.subrange(0, 0).len() == 0);
    }
    None
}

pub fn find_char(s: &Vec<char>, c: char, from: usize) -> (r: Option<usize>)
    requires
        from <= s@.len(),
    ensures
        (match r {
            Some(j) => find_from(s@, c, from as int) == Some(j as int) && from <= j < s@.len(),
            None => find_from(s@, c, from as int) is None,
        }),
{
    let mut j: usize = from;
    while j < s.len()
        invariant
            from <= j <= s@.len(),
            find_from(s@, c, from as int) == find_from(s@, c, j as int),
        decreases s@.len() - j,
    {
        if s[j] == c {
            return Some(j);
        }
        j = j + 1;
    }
    None
}

} // verus!
