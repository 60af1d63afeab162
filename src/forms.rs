//! The `Plural-Forms` header: a `key=value;` list giving the number of variants and the
//! selector expression.
use crate::error::Error;
use crate::formula::{eval, formula_of, index_of_value, Formula, Node};
use crate::text::{
    all_digits, chars_of, digits_value, is_digit, is_whitespace, is_ws, read_decimal, skip_whitespace,
    skip_ws, string_of, substring, trim_end_at, trim_end_index, trimmed,
};
use vstd::prelude::*;
use vstd::string::StringExecFns;

verus! {

/// Index of the first `;` at or after `i` (the length if there is none).
pub open spec fn find_semicolon(s: Seq<char>, i: int) -> int
    decreases s.len() - i,
{
    if 0 <= i < s.len() && s[i] != ';' {
        find_semicolon(s, i + 1)
    } else {
        i
    }
}

/// End of the key that starts at `i`: the first whitespace or `=` at or after `i`.
pub open spec fn key_end(s: Seq<char>, i: int) -> int
    decreases s.len() - i,
{
    if 0 <= i < s.len() && !is_ws(s[i]) && s[i] != '=' {
        key_end(s, i + 1)
    } else {
        i
    }
}

/// One `key = value` item (the text before its `;`): a non-empty key of non-whitespace
/// characters other than `=`, then `=`, then the value with its outer whitespace dropped.
pub open spec fn entry_of(seg: Seq<char>) -> Option<(Seq<char>, Seq<char>)> {
    let a = skip_ws(seg, 0);
    let k = key_end(seg, a);
    let e = skip_ws(seg, k);
    if k == a || e >= seg.len() || seg[e] != '=' {
        None
    } else {
        Some((seg.subrange(a, k), trimmed(seg.subrange(e + 1, seg.len() as int))))
    }
}

/// The items of `s[i..]`, a sequence of `key = value;` items and whitespace; `None` when it is
/// not of that shape.
pub open spec fn entries_from(s: Seq<char>, i: int) -> Option<Seq<(Seq<char>, Seq<char>)>>
    decreases s.len() - i,
{
    if i < 0 || skip_ws(s, i) >= s.len() {
        Some(Seq::empty())
    } else {
        let semi = find_semicolon(s, i);
        if i <= semi < s.len() {
            match entry_of(s.subrange(i, semi)) {
                Some(p) => match entries_from(s, semi + 1) {
                    Some(rest) => Some(seq![p] + rest),
                    None => None,
                },
                None => None,
            }
        } else {
            None
        }
    }
}

/// The value of the last item named `key`.
pub open spec fn last_value(entries: Seq<(Seq<char>, Seq<char>)>, key: Seq<char>) -> Option<Seq<char>>
    decreases entries.len(),
{
    if entries.len() == 0 {
        None
    } else if entries.last().0 == key {
        Some(entries.last().1)
    } else {
        last_value(entries.drop_last(), key)
    }
}

/// The views of the pairs of strings.
pub open spec fn pairs_view(v: Seq<(String, String)>) -> Seq<(Seq<char>, Seq<char>)> {
    v.map_values(|p: (String, String)| (p.0@, p.1@))
}

pub proof fn lemma_find_semicolon(s: Seq<char>, i: int)
    requires
        0 <= i <= s.len(),
    ensures
        i <= find_semicolon(s, i) <= s.len(),
        find_semicolon(s, i) < s.len() ==> s[find_semicolon(s, i)] == ';',
    decreases s.len() - i,
{
    if i < s.len() && s[i] != ';' {
        lemma_find_semicolon(s, i + 1);
    }
}

pub proof fn lemma_key_end(s: Seq<char>, i: int)
    requires
        0 <= i <= s.len(),
    ensures
        i <= key_end(s, i) <= s.len(),
    decreases s.len() - i,
{
    if i < s.len() && !is_ws(s[i]) && s[i] != '=' {
        lemma_key_end(s, i + 1);
    }
}

/// Reads one item `s[from..to]` (see `entry_of`).
fn read_entry(s: &Vec<char>, from: usize, to: usize) -> (r: Option<(String, String)>)
    requires
        from <= to <= s@.len(),
    ensures
        match entry_of(s@.subrange(from as int, to as int)) {
            Some(p) => r matches Some(q) && q.0@ == p.0 && q.1@ == p.1,
            None => r is None,
        },
{
    let seg = crate::text::slice_chars(s, from, to);
    let a = skip_whitespace(&seg, 0);
    let mut k = a;
    while k < seg.len() && !is_whitespace(seg[k]) && seg[k] != '='
        invariant
            a <= k <= seg@.len(),
            key_end(seg@, k as int) == key_end(seg@, a as int),
        decreases seg@.len() - k,
    {
        k = k + 1;
    }
    let e = skip_whitespace(&seg, k);
    if k == a || e >= seg.len() || seg[e] != '=' {
        return None;
    }
    let key = substring(&seg, a, k);
    let rest = crate::text::slice_chars(&seg, e + 1, seg.len());
    let v0 = skip_whitespace(&rest, 0);
    let v1 = trim_end_index(&rest, rest.len());
    let value = if v0 < v1 {
        substring(&rest, v0, v1)
    } else {
        String::new()
    };
    Some((key, value))
}

/// Reads a `key = value;` list such as `nplurals=2; plural=n>1;`: the items in order. The
/// whole text must have that shape, else the error is `Unexpected` at line 0.
pub fn parse_map(text: &str) -> (r: Result<Vec<(String, String)>, Error>)
    ensures
        match entries_from(text@, 0) {
            Some(es) => r matches Ok(v) && pairs_view(v@) == es,
            None => r matches Err(Error::Unexpected(0, _)),
        },
{
    let s = chars_of(text);
    let mut out: Vec<(String, String)> = Vec::new();
    let mut i: usize = 0;
    loop
        invariant
            i <= s@.len(),
            s@ == text@,
            forall|rest: Seq<(Seq<char>, Seq<char>)>|
                entries_from(s@, i as int) == Some(rest) ==> entries_from(s@, 0) == Some(
                    pairs_view(out@) + rest,
                ),
            entries_from(s@, i as int) is None ==> entries_from(s@, 0) is None,
        decreases s@.len() - i,
    {
        let j = skip_whitespace(&s, i);
        if j >= s.len() {
            assert(pairs_view(out@) + Seq::<(Seq<char>, Seq<char>)>::empty() == pairs_view(out@));
            return Ok(out);
        }
        let mut semi = i;
        while semi < s.len() && s[semi] != ';'
            invariant
                i <= semi <= s@.len(),
                find_semicolon(s@, semi as int) == find_semicolon(s@, i as int),
            decreases s@.len() - semi,
        {
            semi = semi + 1;
        }
        if semi >= s.len() {
            let msg = String::from_str("Bad value list definition: `").concat(text).concat("`");
            return Err(Error::Unexpected(0, msg));
        }
        match read_entry(&s, i, semi) {
            None => {
                let msg = String::from_str("Bad value list definition: `").concat(text).concat("`");
                return Err(Error::Unexpected(0, msg));
            },
            Some(p) => {
                proof {
                    let pv = (p.0@, p.1@);
                    assert(pairs_view(out@.push(p)) == pairs_view(out@).push(pv));
                    assert forall|rest: Seq<(Seq<char>, Seq<char>)>|
                        entries_from(s@, semi + 1) == Some(rest) implies entries_from(s@, 0)
                        == Some(pairs_view(out@.push(p)) + rest) by {
                        assert(pairs_view(out@) + (seq![pv] + rest) == pairs_view(out@).push(pv)
                            + rest);
                    }
                }
                out.push(p);
                i = semi + 1;
            },
        }
    }
}

/// Finds the value of the last item named `key`.
fn find_last(entries: &Vec<(String, String)>, key: &str) -> (r: Option<String>)
    ensures
        match last_value(pairs_view(entries@), key@) {
            Some(v) => r matches Some(s) && s@ == v,
            None => r is None,
        },
{
    let k = String::from_str(key);
    let mut i = entries.len();
    assert(entries@.subrange(0, i as int) == entries@);
    while i > 0
        invariant
            i <= entries@.len(),
            k@ == key@,
            last_value(pairs_view(entries@), key@) == last_value(
                pairs_view(entries@.subrange(0, i as int)),
                key@,
            ),
        decreases i,
    {
        let ghost sub = entries@.subrange(0, i as int);
        let ghost pv = pairs_view(sub);
        assert(pv.len() == i);
        assert(sub[i - 1] == entries@[i - 1]);
        assert(pv[i - 1] == (sub[i - 1].0@, sub[i - 1].1@));
        assert(pv.last() == (entries@[i - 1].0@, entries@[i - 1].1@));
        if entries[i - 1].0 == k {
            return Some(entries[i - 1].1.clone());
        }
        assert(pv.drop_last() =~= pairs_view(entries@.subrange(0, i - 1)));
        i = i - 1;
    }
    None
}

/// The number that `s` writes as `usize::from_str` reads it: an optional `+`, then one or more
/// ASCII digits, the value fitting a `usize`.
pub open spec fn count_of(s: Seq<char>) -> Option<usize> {
    let d = if s.len() > 0 && s[0] == '+' {
        s.subrange(1, s.len() as int)
    } else {
        s
    };
    if d.len() > 0 && all_digits(d) && digits_value(d) <= usize::MAX {
        Some(digits_value(d) as usize)
    } else {
        None
    }
}

/// Reads a variant count, with the message that `usize::from_str` gives on failure.
fn read_count(s: &str) -> (r: Result<usize, String>)
    ensures
        match count_of(s@) {
            Some(n) => r == Ok::<usize, String>(n),
            None => r is Err,
        },
{
    let v = chars_of(s);
    if v.len() == 0 {
        return Err(String::from_str("cannot parse integer from empty string"));
    }
    let start: usize = if v[0] == '+' {
        1
    } else {
        0
    };
    assert(v@.subrange(start as int, v@.len() as int) == (if v@.len() > 0 && v@[0] == '+' {
        v@.subrange(1, v@.len() as int)
    } else {
        v@
    }));
    if start == v.len() {
        return Err(String::from_str("invalid digit found in string"));
    }
    let mut k = start;
    while k < v.len()
        invariant
            start <= k <= v@.len(),
            v@ == s@,
            v@.len() > 0,
            start == (if v@[0] == '+' {
                1usize
            } else {
                0usize
            }),
            all_digits(v@.subrange(start as int, k as int)),
        decreases v@.len() - k,
    {
        if !('0' <= v[k] && v[k] <= '9') {
            assert(v@.subrange(start as int, v@.len() as int)[k - start] == v@[k as int]);
            assert(!is_digit(v@.subrange(start as int, v@.len() as int)[k - start]));
            return Err(String::from_str("invalid digit found in string"));
        }
        assert forall|j: int| 0 <= j < k + 1 - start implies is_digit(
            #[trigger] v@.subrange(start as int, k + 1)[j],
        ) by {
            if j < k - start {
                assert(v@.subrange(start as int, k + 1)[j] == v@.subrange(start as int, k as int)[j]);
            }
        }
        k = k + 1;
    }
    match read_decimal(&v, start, v.len(), usize::MAX as u64) {
        Some(n) => Ok(n as usize),
        None => Err(String::from_str("number too large to fit in target type")),
    }
}

/// What a `Plural-Forms` header value decodes to: the expression text, the expression, and
/// the variant count (2 when absent).
pub open spec fn plural_forms_of(s: Seq<char>) -> Option<(Seq<char>, Node, usize)> {
    match entries_from(s, 0) {
        Some(es) => {
            let src = match last_value(es, "plural"@) {
                Some(v) => v,
                None => Seq::empty(),
            };
            match formula_of(src) {
                Some(f) => match last_value(es, "nplurals"@) {
                    None => Some((src, f, 2usize)),
                    Some(c) => match count_of(c) {
                        Some(n) => Some((src, f, n)),
                        None => None,
                    },
                },
                None => None,
            }
        },
        None => None,
    }
}

/// The variant that the forms select for `count`: the expression's value, when it is not
/// negative and is below the declared count.
pub open spec fn variant_index(f: PluralForms, count: usize) -> Option<usize> {
    match index_of_value(eval(f.formula.expr, count as i64)) {
        Some(i) => if i < f.count {
            Some(i)
        } else {
            None
        },
        None => None,
    }
}

/// Decoded `Plural-Forms` header.
#[derive(Clone, Debug, PartialEq, Eq)]
pub struct PluralForms {
    /// The selector expression.
    pub formula: Formula,
    /// The declared number of variants.
    pub count: usize,
    /// The whole header value.
    pub definition: String,
    /// The text of the selector expression.
    pub formula_source: String,
}

impl PluralForms {
    /// Decodes a header value such as `nplurals=3; plural=(n==1) ? 0 : 1;`. `plural` defaults
    /// to the identity and `nplurals` to 2; the last item of a repeated key counts.
    pub fn parse(input: &str) -> (r: Result<PluralForms, Error>)
        ensures
            match plural_forms_of(input@) {
                Some((src, f, n)) => r matches Ok(pf) && pf.formula.expr == f && pf.count == n
                    && pf.definition@ == input@ && pf.formula_source@ == src,
                None => r is Err,
            },
    {
        let values = parse_map(input)?;
        let formula_source = match find_last(&values, "plural") {
            Some(v) => v,
            None => String::new(),
        };
        proof {
            reveal_strlit("plural");
            reveal_strlit("nplurals");
        }
        let formula = Formula::parse(formula_source.as_str())?;
        let count: usize = match find_last(&values, "nplurals") {
            None => 2,
            Some(s) => match read_count(s.as_str()) {
                Ok(v) => v,
                Err(msg) => {
                    return Err(Error::PluralForms(msg));
                },
            },
        };
        Ok(PluralForms { formula, count, definition: String::from_str(input), formula_source })
    }

    /// The variant for `count`: the expression's value, when it is not negative and is below
    /// the declared count.
    pub fn get_value(&self, count: usize) -> (r: Option<usize>)
        ensures
            r == variant_index(*self, count),
    {
        match self.formula.execute(count) {
            Some(v) => if v < self.count {
                Some(v)
            } else {
                None
            },
            None => None,
        }
    }

    /// The declared number of variants.
    pub fn get_count(&self) -> (r: usize)
        ensures
            r == self.count,
    {
        self.count
    }

    /// The whole header value.
    pub fn get_definition(&self) -> (r: &str)
        ensures
            r@ == self.definition@,
    {
        self.definition.as_str()
    }

    /// The text of the selector expression.
    pub fn get_formula(&self) -> (r: &str)
        ensures
            r@ == self.formula_source@,
    {
        self.formula_source.as_str()
    }
}

} // verus!
