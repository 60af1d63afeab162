//! Character-level helpers: Unicode whitespace, decimal digits, escape sequences.
use vstd::prelude::*;

verus! {

/// Unicode `White_Space`, the class that `char::is_whitespace` tests.
pub open spec fn is_ws(c: char) -> bool {
    ('\u{9}' <= c && c <= '\u{d}') || c == ' ' || c == '\u{85}' || c == '\u{a0}' || c == '\u{1680}'
        || ('\u{2000}' <= c && c <= '\u{200a}') || c == '\u{2028}' || c == '\u{2029}' || c
        == '\u{202f}' || c == '\u{205f}' || c == '\u{3000}'
}

pub fn is_whitespace(c: char) -> (r: bool)
    ensures
        r == is_ws(c),
{
    ('\u{9}' <= c && c <= '\u{d}') || c == ' ' || c == '\u{85}' || c == '\u{a0}' || c == '\u{1680}'
        || ('\u{2000}' <= c && c <= '\u{200a}') || c == '\u{2028}' || c == '\u{2029}' || c
        == '\u{202f}' || c == '\u{205f}' || c == '\u{3000}'
}

/// Every character of `s` is whitespace.
pub open spec fn all_ws(s: Seq<char>) -> bool {
    forall|i: int| 0 <= i < s.len() ==> is_ws(#[trigger] s[i])
}

/// The index of the first character at or after `i` that is not whitespace (or the length).
pub open spec fn skip_ws(s: Seq<char>, i: int) -> int
    decreases s.len() - i,
{
    if 0 <= i < s.len() && is_ws(s[i]) {
        skip_ws(s, i + 1)
    } else {
        i
    }
}

/// The end of `s[..j]` once its trailing whitespace is dropped.
pub open spec fn trim_end_at(s: Seq<char>, j: int) -> int
    decreases j,
{
    if 0 < j <= s.len() && is_ws(s[j - 1]) {
        trim_end_at(s, j - 1)
    } else {
        j
    }
}

/// `s` without its leading and trailing whitespace.
pub open spec fn trimmed(s: Seq<char>) -> Seq<char> {
    let a = skip_ws(s, 0);
    let b = trim_end_at(s, s.len() as int);
    if a < b {
        s.subrange(a, b)
    } else {
        Seq::empty()
    }
}

pub proof fn lemma_skip_ws_bounds(s: Seq<char>, i: int)
    requires
        0 <= i <= s.len(),
    ensures
        i <= skip_ws(s, i) <= s.len(),
        forall|k: int| i <= k < skip_ws(s, i) ==> is_ws(#[trigger] s[k]),
        skip_ws(s, i) < s.len() ==> !is_ws(s[skip_ws(s, i)]),
    decreases s.len() - i,
{
    if i < s.len() && is_ws(s[i]) {
        lemma_skip_ws_bounds(s, i + 1);
    }
}

pub proof fn lemma_trim_end_bounds(s: Seq<char>, j: int)
    requires
        0 <= j <= s.len(),
    ensures
        0 <= trim_end_at(s, j) <= j,
        forall|k: int| trim_end_at(s, j) <= k < j ==> is_ws(#[trigger] s[k]),
        trim_end_at(s, j) > 0 ==> !is_ws(s[trim_end_at(s, j) - 1]),
    decreases j,
{
    if 0 < j && is_ws(s[j - 1]) {
        lemma_trim_end_bounds(s, j - 1);
    }
}

/// Index of the first non-whitespace character of `s` at or after `i`.
pub fn skip_whitespace(s: &Vec<char>, i: usize) -> (r: usize)
    requires
        i <= s@.len(),
    ensures
        r == skip_ws(s@, i as int),
        i <= r <= s@.len(),
{
    let mut k = i;
    while k < s.len() && is_whitespace(s[k])
        invariant
            i <= k <= s@.len(),
            skip_ws(s@, k as int) == skip_ws(s@, i as int),
        decreases s@.len() - k,
    {
        k = k + 1;
    }
    k
}

/// End of `s[..j]` without its trailing whitespace.
pub fn trim_end_index(s: &Vec<char>, j: usize) -> (r: usize)
    requires
        j <= s@.len(),
    ensures
        r == trim_end_at(s@, j as int),
        r <= j,
{
    let mut k = j;
    while k > 0 && is_whitespace(s[k - 1])
        invariant
            k <= j <= s@.len(),
            trim_end_at(s@, k as int) == trim_end_at(s@, j as int),
        decreases k,
    {
        k = k - 1;
    }
    k
}

/// Whether every character of `s` is whitespace.
pub fn is_blank_text(s: &Vec<char>) -> (r: bool)
    ensures
        r == all_ws(s@),
{
    let mut k: usize = 0;
    while k < s.len()
        invariant
            k <= s@.len(),
            forall|i: int| 0 <= i < k ==> is_ws(#[trigger] s@[i]),
        decreases s@.len() - k,
    {
        if !is_whitespace(s[k]) {
            return false;
        }
        k = k + 1;
    }
    true
}

/// Relies on `str::chars`: the characters of `s`, in order.
#[verifier::external_body]
pub(crate) fn chars_of(s: &str) -> (r: Vec<char>)
    ensures
        r@ == s@,
{
    s.chars().collect()
}

/// Relies on `String`'s `FromIterator<char>`: the string made of `v`'s characters.
#[verifier::external_body]
pub(crate) fn string_of(v: &[char]) -> (r: String)
    ensures
        r@ == v@,
{
    v.iter().collect()
}

/// A copy of `s[from..to]`.
pub fn slice_chars(s: &Vec<char>, from: usize, to: usize) -> (r: Vec<char>)
    requires
        from <= to <= s@.len(),
    ensures
        r@ == s@.subrange(from as int, to as int),
{
    let mut r: Vec<char> = Vec::new();
    let mut k = from;
    while k < to
        invariant
            from <= k <= to <= s@.len(),
            r@ == s@.subrange(from as int, k as int),
        decreases to - k,
    {
        r.push(s[k]);
        k = k + 1;
    }
    r
}

/// The string `s[from..to]`.
pub fn substring(s: &Vec<char>, from: usize, to: usize) -> (r: String)
    requires
        from <= to <= s@.len(),
    ensures
        r@ == s@.subrange(from as int, to as int),
{
    let v = slice_chars(s, from, to);
    string_of(v.as_slice())
}

pub open spec fn is_digit(c: char) -> bool {
    '0' <= c && c <= '9'
}

pub open spec fn digit_value(c: char) -> nat {
    (c as int - '0' as int) as nat
}

/// Every character of `s` is an ASCII digit.
pub open spec fn all_digits(s: Seq<char>) -> bool {
    forall|i: int| 0 <= i < s.len() ==> is_digit(#[trigger] s[i])
}

/// The number that the decimal digits `s` write.
pub open spec fn digits_value(s: Seq<char>) -> nat
    decreases s.len(),
{
    if s.len() == 0 {
        0
    } else {
        digits_value(s.drop_last()) * 10 + digit_value(s.last())
    }
}

/// The shortest decimal writing of `n`.
pub open spec fn decimal(n: nat) -> Seq<char>
    decreases n,
{
    if n < 10 {
        seq![(n + '0' as nat) as char]
    } else {
        decimal(n / 10).push(((n % 10) + '0' as nat) as char)
    }
}

/// Reads the decimal number `s[from..to]`, all of whose characters are digits; `None` when it
/// exceeds `limit`.
pub fn read_decimal(s: &Vec<char>, from: usize, to: usize, limit: u64) -> (r: Option<u64>)
    requires
        from <= to <= s@.len(),
        all_digits(s@.subrange(from as int, to as int)),
    ensures
        r == (if digits_value(s@.subrange(from as int, to as int)) <= limit {
            Some(digits_value(s@.subrange(from as int, to as int)) as u64)
        } else {
            None::<u64>
        }),
{
    let mut v: u64 = 0;
    let mut k = from;
    while k < to
        invariant
            from <= k <= to <= s@.len(),
            all_digits(s@.subrange(from as int, to as int)),
            v as nat == digits_value(s@.subrange(from as int, k as int)),
            v <= limit,
        decreases to - k,
    {
        let ghost prefix = s@.subrange(from as int, k as int);
        let ghost next = s@.subrange(from as int, k + 1);
        assert(next.drop_last() == prefix);
        assert(next.last() == s@[k as int]);
        assert(is_digit(s@.subrange(from as int, to as int)[k - from]));
        let d = (s[k] as u32 - '0' as u32) as u64;
        assert(digits_value(next) == v * 10 + d);
        if d > limit || v > (limit - d) / 10 {
            assert(digits_value(next) > limit) by (nonlinear_arith)
                requires
                    digits_value(next) == v * 10 + d,
                    d > limit || v > (limit - d) / 10,
            ;
            proof {
                lemma_digits_value_grows(s@.subrange(from as int, to as int), k - from + 1);
                assert(s@.subrange(from as int, to as int).subrange(0, k - from + 1) == next);
            }
            return None;
        }
        assert(v * 10 + d <= limit) by (nonlinear_arith)
            requires
                d <= limit,
                v <= (limit - d) / 10,
        ;
        v = v * 10 + d;
        k = k + 1;
    }
    assert(s@.subrange(from as int, k as int) == s@.subrange(from as int, to as int));
    Some(v)
}

/// The value of a digit string is at least that of any of its prefixes.
pub proof fn lemma_digits_value_grows(s: Seq<char>, j: int)
    requires
        0 <= j <= s.len(),
    ensures
        digits_value(s.subrange(0, j)) <= digits_value(s),
    decreases s.len() - j,
{
    if j < s.len() {
        lemma_digits_value_grows(s, j + 1);
        assert(s.subrange(0, j + 1).drop_last() == s.subrange(0, j));
    } else {
        assert(s.subrange(0, j) == s);
    }
}

/// The decimal writing of `n`.
pub fn decimal_text(n: usize) -> (r: String)
    ensures
        r@ == decimal(n as nat),
{
    let mut digits: Vec<char> = Vec::new();
    let mut m = n;
    while m >= 10
        invariant
            decimal(n as nat) == decimal(m as nat) + digits@.reverse(),
        decreases m,
    {
        let c = ((m % 10) as u8 + 48u8) as char;
        proof {
            assert(decimal(m as nat) == decimal((m / 10) as nat).push(c));
            assert(decimal(m as nat) + digits@.reverse() == decimal((m / 10) as nat) + digits@.push(
                c,
            ).reverse()) by {
                assert(digits@.push(c).reverse() == seq![c] + digits@.reverse());
            }
        }
        digits.push(c);
        m = m / 10;
    }
    let first = (m as u8 + 48u8) as char;
    assert(decimal(m as nat) == seq![first]);
    let mut out: Vec<char> = Vec::new();
    out.push(first);
    let mut k = digits.len();
    while k > 0
        invariant
            k <= digits@.len(),
            out@ == seq![first] + digits@.subrange(k as int, digits@.len() as int).reverse(),
        decreases k,
    {
        k = k - 1;
        proof {
            assert(digits@.subrange(k as int, digits@.len() as int) == seq![digits@[k as int]]
                + digits@.subrange(k + 1, digits@.len() as int));
        }
        out.push(digits[k]);
    }
    assert(digits@.subrange(0, digits@.len() as int) == digits@);
    string_of(out.as_slice())
}

/// The character that the escape `\c` stands for, if `c` starts one of the recognised escapes.
pub open spec fn escaped(c: char) -> Option<char> {
    if c == '"' {
        Some('"')
    } else if c == '\\' {
        Some('\\')
    } else if c == 'n' {
        Some('\n')
    } else if c == 'r' {
        Some('\r')
    } else if c == 't' {
        Some('\t')
    } else {
        None
    }
}

/// `s` with the two-character escapes `\"`, `\\`, `\n`, `\r` and `\t` replaced, left to right;
/// any other backslash stays as it is.
pub open spec fn unescaped(s: Seq<char>) -> Seq<char>
    decreases s.len(),
{
    if s.len() == 0 {
        s
    } else if s.len() >= 2 && s[0] == '\\' && escaped(s[1]) is Some {
        seq![escaped(s[1])->Some_0] + unescaped(s.subrange(2, s.len() as int))
    } else {
        seq![s[0]] + unescaped(s.subrange(1, s.len() as int))
    }
}

/// The character for an escape letter: `Some` for `"`, `\`, `n`, `r` and `t`.
pub fn replace_char(c: char) -> (r: Option<char>)
    ensures
        r == escaped(c),
{
    if c == '"' {
        Some('"')
    } else if c == '\\' {
        Some('\\')
    } else if c == 'n' {
        Some('\n')
    } else if c == 'r' {
        Some('\r')
    } else if c == 't' {
        Some('\t')
    } else {
        None
    }
}

/// Decodes the escapes of `s[from..to]`.
pub fn unescape_chars(s: &Vec<char>, from: usize, to: usize) -> (r: Vec<char>)
    requires
        from <= to <= s@.len(),
    ensures
        r@ == unescaped(s@.subrange(from as int, to as int)),
{
    let mut out: Vec<char> = Vec::new();
    let mut k = from;
    while k < to
        invariant
            from <= k <= to <= s@.len(),
            out@ + unescaped(s@.subrange(k as int, to as int)) == unescaped(
                s@.subrange(from as int, to as int),
            ),
        decreases to - k,
    {
        let ghost rest = s@.subrange(k as int, to as int);
        if k + 1 < to && s[k] == '\\' {
            match replace_char(s[k + 1]) {
                Some(c) => {
                    assert(rest.subrange(2, rest.len() as int) == s@.subrange(k + 2, to as int));
                    assert(out@.push(c) + unescaped(s@.subrange(k + 2, to as int)) == out@ + (seq![c]
                        + unescaped(s@.subrange(k + 2, to as int))));
                    out.push(c);
                    k = k + 2;
                    continue ;
                },
                None => {},
            }
        }
        assert(rest.subrange(1, rest.len() as int) == s@.subrange(k + 1, to as int));
        assert(out@.push(s@[k as int]) + unescaped(s@.subrange(k + 1, to as int)) == out@ + (seq![
            s@[k as int],
        ] + unescaped(s@.subrange(k + 1, to as int))));
        out.push(s[k]);
        k = k + 1;
    }
    out
}

/// Decodes the escapes of `text`.
pub fn unescape(text: &str) -> (r: String)
    ensures
        r@ == unescaped(text@),
{
    let v = chars_of(text);
    let u = unescape_chars(&v, 0, v.len());
    assert(v@.subrange(0, v@.len() as int) == v@);
    string_of(u.as_slice())
}


/// A copy of `b[from..to]`.
pub fn slice_bytes(b: &Vec<u8>, from: usize, to: usize) -> (r: Vec<u8>)
    requires
        from <= to <= b@.len(),
    ensures
        r@ == b@.subrange(from as int, to as int),
{
    let mut r: Vec<u8> = Vec::new();
    let mut k = from;
    while k < to
        invariant
            from <= k <= to <= b@.len(),
            r@ == b@.subrange(from as int, k as int),
        decreases to - k,
    {
        r.push(b[k]);
        k = k + 1;
    }
    r
}

} // verus!
