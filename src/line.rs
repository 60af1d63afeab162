//! Classification of one catalogue line into a token.
use crate::text::{
    all_digits, all_ws, chars_of, is_blank_text, is_digit, is_ws, skip_whitespace, skip_ws,
    substring, trim_end_at, trim_end_index, unescape_chars, unescaped, string_of, lemma_skip_ws_bounds,
    lemma_trim_end_bounds,
};
use vstd::prelude::*;
use vstd::string::StringExecFns;

verus! {

/// A classified line.
#[derive(Clone, Debug, PartialEq, Eq)]
pub enum PoLine {
    /// Only whitespace.
    Blank,
    /// Line number, kind (a space for a translator comment) and content.
    Comment(usize, char, String),
    /// Line number, flag prefix (`~` obsolete, `|` previous value), tag and decoded string.
    Message(usize, String, String, String),
    /// Line number, flag prefix and decoded string.
    Continuation(usize, String, String),
}

/// The shape of a line, its line number aside.
pub enum Shape {
    Blank,
    Comment(char, Seq<char>),
    Message(Seq<char>, Seq<char>, Seq<char>),
    Continuation(Seq<char>, Seq<char>),
}

/// The shape of a token.
pub open spec fn shape_of(l: PoLine) -> Shape {
    match l {
        PoLine::Blank => Shape::Blank,
        PoLine::Comment(_, k, c) => Shape::Comment(k, c@),
        PoLine::Message(_, f, t, s) => Shape::Message(f@, t@, s@),
        PoLine::Continuation(_, f, s) => Shape::Continuation(f@, s@),
    }
}

/// The line number a token carries (0 for a blank line).
pub open spec fn line_of(l: PoLine) -> usize {
    match l {
        PoLine::Blank => 0,
        PoLine::Comment(n, _, _) => n,
        PoLine::Message(n, _, _, _) => n,
        PoLine::Continuation(n, _, _) => n,
    }
}

/// `msgstr[N]` with `N` written without leading zeros.
pub open spec fn is_indexed_msgstr(x: Seq<char>) -> bool {
    let d = x.subrange(7, x.len() - 1);
    &&& x.len() > 8
    &&& x.subrange(0, 7) == "msgstr["@
    &&& x.last() == ']'
    &&& all_digits(d)
    &&& (d.len() == 1 || d[0] != '0')
}

/// The tags of message lines.
pub open spec fn is_tag(x: Seq<char>) -> bool {
    x == "msgctxt"@ || x == "msgid"@ || x == "msgid_plural"@ || x == "msgstr"@ || is_indexed_msgstr(x)
}

/// Index of the first `"` in `t` (its length if there is none).
pub open spec fn first_quote(t: Seq<char>, i: int) -> int
    decreases t.len() - i,
{
    if 0 <= i < t.len() && t[i] != '"' {
        first_quote(t, i + 1)
    } else {
        i
    }
}

/// Where the flag prefix ends in the head of a message line that starts with `#`: after an
/// optional `~` and an optional `|`.
pub open spec fn flags_end(head: Seq<char>) -> int {
    let i1 = if head.len() > 1 && head[1] == '~' {
        2int
    } else {
        1int
    };
    if head.len() > i1 && head[i1] == '|' {
        i1 + 1
    } else {
        i1
    }
}

/// The text of a line between its outer whitespace.
pub open spec fn inner(s: Seq<char>) -> Seq<char> {
    s.subrange(skip_ws(s, 0), trim_end_at(s, s.len() as int))
}

/// The message shape of a line `t` without outer whitespace: an optional `#` with the flag
/// prefix `~`, `|` or `~|`, an optional tag, then a string between double quotes, whose escapes
/// are decoded, with whitespace allowed between the parts.
pub open spec fn message_shape(t: Seq<char>) -> Option<Shape> {
    let q = first_quote(t, 0);
    if q + 1 >= t.len() || t.last() != '"' {
        None
    } else {
        let head = t.subrange(0, q);
        let content = unescaped(t.subrange(q + 1, t.len() - 1));
        let fe = if head.len() > 0 && head[0] == '#' {
            flags_end(head)
        } else {
            0
        };
        let flags = if fe > 0 {
            head.subrange(1, fe)
        } else {
            Seq::empty()
        };
        let j = skip_ws(head, fe);
        let k = trim_end_at(head, head.len() as int);
        if j >= k {
            Some(Shape::Continuation(flags, content))
        } else if is_tag(head.subrange(j, k)) {
            let tag = if flags.len() > 0 && flags.last() == '|' {
                "|"@ + head.subrange(j, k)
            } else {
                head.subrange(j, k)
            };
            Some(Shape::Message(flags, tag, content))
        } else {
            None
        }
    }
}

/// The comment shape: `#`, then the kind (the next character, a space when there is none),
/// then the content after any whitespace, to the end of the line.
pub open spec fn comment_shape(s: Seq<char>) -> Option<Shape> {
    let a = skip_ws(s, 0);
    if a < s.len() && s[a] == '#' {
        if a + 1 < s.len() {
            Some(Shape::Comment(s[a + 1], s.subrange(skip_ws(s, a + 2), s.len() as int)))
        } else {
            Some(Shape::Comment(' ', Seq::empty()))
        }
    } else {
        None
    }
}

/// How a line is classified: blank, else a message line, else a comment; `None` for a line of
/// none of these shapes.
pub open spec fn classify(s: Seq<char>) -> Option<Shape> {
    if all_ws(s) {
        Some(Shape::Blank)
    } else if message_shape(inner(s)) is Some {
        message_shape(inner(s))
    } else {
        comment_shape(s)
    }
}

impl PoLine {
    /// The line number (0 for a blank line).
    pub fn line(&self) -> (r: usize)
        ensures
            r == line_of(*self),
    {
        match self {
            PoLine::Blank => 0,
            PoLine::Comment(l, ..) => *l,
            PoLine::Message(l, ..) => *l,
            PoLine::Continuation(l, ..) => *l,
        }
    }
}

impl Default for PoLine {
    fn default() -> (r: Self)
        ensures
            r is Blank,
    {
        PoLine::Blank
    }
}

fn is_tag_text(x: &String) -> (r: bool)
    ensures
        r == is_tag(x@),
{
    if *x == String::from_str("msgctxt") || *x == String::from_str("msgid") || *x
        == String::from_str("msgid_plural") || *x == String::from_str("msgstr") {
        return true;
    }
    let v = chars_of(x.as_str());
    if v.len() <= 8 || v[v.len() - 1] != ']' {
        return false;
    }
    let prefix = substring(&v, 0, 7);
    if !(prefix == String::from_str("msgstr[")) {
        return false;
    }
    let ghost d = v@.subrange(7, v@.len() - 1);
    let mut k: usize = 7;
    while k < v.len() - 1
        invariant
            7 <= k <= v@.len() - 1,
            v@.len() > 8,
            d == v@.subrange(7, v@.len() - 1),
            v@ == x@,
            x@ != "msgctxt"@ && x@ != "msgid"@ && x@ != "msgid_plural"@ && x@ != "msgstr"@,
            forall|i: int| 0 <= i < k - 7 ==> is_digit(#[trigger] d[i]),
        decreases v@.len() - k,
    {
        if !('0' <= v[k] && v[k] <= '9') {
            assert(d[k - 7] == v@[k as int]);
            assert(!is_digit(d[k - 7]));
            assert(!all_digits(d));
            return false;
        }
        assert(d[k - 7] == v@[k as int]);
        k = k + 1;
    }
    assert(all_digits(d));
    v.len() == 9 || v[7] != '0'
}

/// Classifies line `n`: a blank line, a message or continuation line, or a comment; `Err` for
/// a line of none of these shapes.
pub fn parse_line(line: &str, n: usize) -> (r: Result<PoLine, ()>)
    ensures
        match classify(line@) {
            Some(sh) => r matches Ok(l) && shape_of(l) == sh && (!(sh is Blank) ==> line_of(l) == n),
            None => r is Err,
        },
{
    let s = chars_of(line);
    if is_blank_text(&s) {
        return Ok(PoLine::Blank);
    }
    proof {
        lemma_skip_ws_bounds(s@, 0);
        lemma_trim_end_bounds(s@, s@.len() as int);
    }
    let a = skip_whitespace(&s, 0);
    let b = trim_end_index(&s, s.len());
    if a < b {
        let t = crate::text::slice_chars(&s, a, b);
        assert(t@ == inner(s@));
        if let Some(l) = message_line(&t, n) {
            return Ok(l);
        }
    } else {
        assert(all_ws(s@)) by {
            assert forall|i: int| 0 <= i < s@.len() implies is_ws(#[trigger] s@[i]) by {
                if i < a {
                } else {
                    assert(b <= i);
                }
            }
        }
    }
    if a < s.len() && s[a] == '#' {
        if a + 1 < s.len() {
            let c = skip_whitespace(&s, a + 2);
            Ok(PoLine::Comment(n, s[a + 1], substring(&s, c, s.len())))
        } else {
            proof {
                reveal_strlit("");
            }
            Ok(PoLine::Comment(n, ' ', String::new()))
        }
    } else {
        Err(())
    }
}

/// Reads the message shape of the trimmed line `t`.
fn message_line(t: &Vec<char>, n: usize) -> (r: Option<PoLine>)
    requires
        t@.len() > 0,
    ensures
        match message_shape(t@) {
            Some(sh) => r matches Some(l) && shape_of(l) == sh && line_of(l) == n,
            None => r is None,
        },
{
    let mut q: usize = 0;
    while q < t.len() && t[q] != '"'
        invariant
            q <= t@.len(),
            first_quote(t@, q as int) == first_quote(t@, 0),
        decreases t@.len() - q,
    {
        q = q + 1;
    }
    if t.len() - q <= 1 || t[t.len() - 1] != '"' {
        return None;
    }
    let ghost hd = t@.subrange(0, q as int);
    let ghost spec_fe = if hd.len() > 0 && hd[0] == '#' {
        flags_end(hd)
    } else {
        0
    };
    let head = crate::text::slice_chars(t, 0, q);
    let content_chars = unescape_chars(t, q + 1, t.len() - 1);
    let content = string_of(content_chars.as_slice());
    let mut fe: usize = 0;
    if head.len() > 0 && head[0] == '#' {
        fe = 1;
        if head.len() > 1 && head[1] == '~' {
            fe = 2;
        }
        if head.len() > fe && head[fe] == '|' {
            fe = fe + 1;
        }
    }
    assert(head@ == hd);
    assert(fe == spec_fe);
    let flags = if fe > 0 {
        substring(&head, 1, fe)
    } else {
        String::new()
    };
    assert(flags@ == (if spec_fe > 0 {
        hd.subrange(1, spec_fe)
    } else {
        Seq::empty()
    }));
    let j = skip_whitespace(&head, fe);
    let k = trim_end_index(&head, head.len());
    if j >= k {
        return Some(PoLine::Continuation(n, flags, content));
    }
    let tag_text = substring(&head, j, k);
    if !is_tag_text(&tag_text) {
        return None;
    }
    assert(fe > 1 ==> flags@.last() == head@[fe - 1]);
    let tag = if fe > 0 && head[fe - 1] == '|' {
        String::from_str("|").concat(tag_text.as_str())
    } else {
        tag_text
    };
    Some(PoLine::Message(n, flags, tag, content))
}

} // verus!
