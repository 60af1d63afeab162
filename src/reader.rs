//! Reading a catalogue: comments, the header entry, and the units one at a time.
use crate::comment::Comment;
use crate::error::Error;
use crate::extractor::{
    assemble, assembly_post, failure_matches, message_matches, opt_view, previous_matches, variant_count, Assembled,
    Failure, Fields, MessageExtractor, Pending,
};
use crate::forms::{plural_forms_of, PluralForms};
use crate::header::Header;
use crate::line::{PoLine, Shape};
use crate::message::{blank_message, empty_message, Message};
use crate::note::Note;
use crate::origin::Origin;
use crate::state::State;
use crate::stream::{error_matches, message_is_obsolete, scan, End, Tok, TokenStream};
use crate::text::{
    chars_of, is_whitespace, is_ws, lemma_skip_ws_bounds, lemma_trim_end_bounds, skip_whitespace,
    skip_ws, slice_chars, substring, trim_end_at, trim_end_index, trimmed,
};
use crate::unit::Unit;
use std::rc::Rc;
use vstd::prelude::*;
use vstd::string::StringExecFns;

verus! {

/// Index of the first `c` in `s` at or after `i` (the length if there is none).
pub open spec fn find_char(s: Seq<char>, c: char, i: int) -> int
    decreases s.len() - i,
{
    if 0 <= i < s.len() && s[i] != c {
        find_char(s, c, i + 1)
    } else {
        i
    }
}

/// The pieces of `s[i..]` between the separators `c`, as `str::split` gives them.
pub open spec fn split_from(s: Seq<char>, c: char, i: int) -> Seq<Seq<char>>
    decreases s.len() - i,
{
    let k = find_char(s, c, i);
    if i < 0 || i > s.len() || k < i || k >= s.len() {
        seq![s.subrange(i, s.len() as int)]
    } else {
        seq![s.subrange(i, k)] + split_from(s, c, k + 1)
    }
}

/// End of the run of non-whitespace characters from `i` on.
pub open spec fn word_end(s: Seq<char>, i: int) -> int
    decreases s.len() - i,
{
    if 0 <= i < s.len() && !is_ws(s[i]) {
        word_end(s, i + 1)
    } else {
        i
    }
}

/// The whitespace-separated words of `s[i..]`.
pub open spec fn words_from(s: Seq<char>, i: int) -> Seq<Seq<char>>
    decreases s.len() - i,
{
    let j = skip_ws(s, i);
    let k = word_end(s, j);
    if i < 0 || j < i || j >= s.len() || k <= j || k > s.len() {
        Seq::empty()
    } else {
        seq![s.subrange(j, k)] + words_from(s, k)
    }
}

/// What the comments of a unit give it.
pub struct Meta {
    pub flags: Seq<Seq<char>>,
    pub locations: Seq<Seq<char>>,
    pub notes: Seq<(Origin, Seq<char>)>,
    pub comments: Seq<(char, Seq<char>)>,
    pub state: State,
}

/// The origins and texts of notes.
pub open spec fn notes_view(v: Seq<Note>) -> Seq<(Origin, Seq<char>)> {
    v.map_values(|n: Note| (n.origin, n.value@))
}

/// The kinds and texts of comments.
pub open spec fn comments_view(v: Seq<Comment>) -> Seq<(char, Seq<char>)> {
    v.map_values(|c: Comment| (c.kind, c.content@))
}

pub open spec fn meta_of(u: Unit) -> Meta {
    Meta {
        flags: u.flags@.map_values(|s: String| s@),
        locations: u.locations@.map_values(|s: String| s@),
        notes: notes_view(u.notes@),
        comments: comments_view(u.comments@),
        state: u.state,
    }
}

/// Adds the flags of `pieces` (trimmed), each once; `fuzzy` marks the unit as needing work.
pub open spec fn add_flags(m: Meta, pieces: Seq<Seq<char>>) -> Meta
    decreases pieces.len(),
{
    if pieces.len() == 0 {
        m
    } else {
        let m1 = add_flags(m, pieces.drop_last());
        let f = trimmed(pieces.last());
        Meta {
            flags: if m1.flags.contains(f) {
                m1.flags
            } else {
                m1.flags.push(f)
            },
            state: if f == "fuzzy"@ {
                State::NeedsWork
            } else {
                m1.state
            },
            ..m1
        }
    }
}

/// What one comment gives: `,` comma-separated flags, `:` whitespace-separated locations,
/// `.` a developer note, a space a translator note, any other kind a comment kept verbatim.
pub open spec fn apply_comment(m: Meta, kind: char, text: Seq<char>) -> Meta {
    if kind == ',' {
        add_flags(m, split_from(text, ',', 0))
    } else if kind == ':' {
        Meta { locations: m.locations + words_from(text, 0), ..m }
    } else if kind == '.' {
        Meta { notes: m.notes.push((Origin::Developer, text)), ..m }
    } else if kind == ' ' {
        Meta { notes: m.notes.push((Origin::Translator, text)), ..m }
    } else {
        Meta { comments: m.comments.push((kind, text)), ..m }
    }
}

/// End of the run of comment tokens from `i` on.
pub open spec fn comment_run(toks: Seq<Tok>, i: int) -> int
    decreases toks.len() - i,
{
    if 0 <= i < toks.len() && toks[i].shape is Comment {
        comment_run(toks, i + 1)
    } else {
        i
    }
}

/// What the comment tokens `toks[..j]` give.
pub open spec fn apply_comments(m: Meta, toks: Seq<Tok>, j: int) -> Meta
    decreases j,
{
    if j <= 0 || j > toks.len() {
        m
    } else {
        let m1 = apply_comments(m, toks, j - 1);
        match toks[j - 1].shape {
            Shape::Comment(k, t) => apply_comment(m1, k, t),
            _ => m1,
        }
    }
}


/// The fields that comments do not touch are those of `b`.
pub open spec fn same_frame(a: Unit, b: Unit) -> bool {
    &&& a.context == b.context
    &&& a.message == b.message
    &&& a.prev_context == b.prev_context
    &&& a.prev_message == b.prev_message
    &&& a.obsolete == b.obsolete
}

/// Adds one flag (trimmed `text[from..to]`) to the unit.
fn add_flag(unit: &mut Unit, text: &Vec<char>, from: usize, to: usize)
    requires
        from <= to <= text@.len(),
    ensures
        same_frame(*final(unit), *old(unit)),
        meta_of(*final(unit)) == add_flags(meta_of(*old(unit)), seq![text@.subrange(from as int, to as int)]),
{
    let piece = slice_chars(text, from, to);
    let a = skip_whitespace(&piece, 0);
    let b = trim_end_index(&piece, piece.len());
    let flag = if a < b {
        substring(&piece, a, b)
    } else {
        String::new()
    };
    let ghost f = trimmed(piece@);
    assert(flag@ == f);
    let ghost m0 = meta_of(*unit);
    assert(seq![piece@].drop_last() =~= Seq::<Seq<char>>::empty());
    let mut i: usize = 0;
    let mut found = false;
    while i < unit.flags.len()
        invariant
            i <= unit.flags@.len(),
            unit.flags@ == old(unit).flags@,
            m0 == meta_of(*old(unit)),
            flag@ == f,
            f == trimmed(piece@),
            piece@ == text@.subrange(from as int, to as int),
            found == (exists|k: int| 0 <= k < i && unit.flags@[k]@ == f),
        decreases unit.flags@.len() - i,
    {
        if unit.flags[i] == flag {
            found = true;
            assert(unit.flags@[i as int]@ == f);
        }
        i = i + 1;
    }
    proof {
        let fv = m0.flags;
        assert(fv.len() == unit.flags@.len());
        if found {
            let k = choose|k: int| 0 <= k < i && unit.flags@[k]@ == f;
            assert(fv[k] == f);
        } else {
            assert forall|k: int| 0 <= k < fv.len() implies fv[k] != f by {
                assert(fv[k] == unit.flags@[k]@);
            }
        }
    }
    let is_fuzzy = flag == String::from_str("fuzzy");
    if !found {
        let ghost before = unit.flags@;
        unit.flags.push(flag);
        assert(unit.flags@.map_values(|s: String| s@) =~= before.map_values(|s: String| s@).push(f));
    }
    if is_fuzzy {
        unit.state = State::NeedsWork;
    }
    proof {
        assert(seq![text@.subrange(from as int, to as int)].drop_last() =~= Seq::<Seq<char>>::empty());
        assert(add_flags(m0, Seq::<Seq<char>>::empty()) == m0);
        assert(seq![text@.subrange(from as int, to as int)].last() == piece@);
        assert(meta_of(*unit).locations == m0.locations);
        assert(meta_of(*unit).notes == m0.notes);
        assert(meta_of(*unit).comments == m0.comments);
        if found {
            assert(m0.flags.contains(f));
            assert(meta_of(*unit).flags == m0.flags);
        } else {
            assert(!m0.flags.contains(f));
        }
    }
}

/// Applies a `,` comment: its comma-separated flags.
fn add_flags_of(unit: &mut Unit, text: &Vec<char>)
    ensures
        same_frame(*final(unit), *old(unit)),
        meta_of(*final(unit)) == add_flags(meta_of(*old(unit)), split_from(text@, ',', 0)),
{
    let ghost m0 = meta_of(*unit);
    let ghost mut done: Seq<Seq<char>> = Seq::empty();
    let mut i: usize = 0;
    assert(split_from(text@, ',', 0) == done + split_from(text@, ',', 0));
    loop
        invariant
            i <= text@.len(),
            same_frame(*unit, *old(unit)),
            m0 == meta_of(*old(unit)),
            split_from(text@, ',', 0) == done + split_from(text@, ',', i as int),
            meta_of(*unit) == add_flags(m0, done),
        decreases text@.len() - i,
    {
        let mut k = i;
        while k < text.len() && text[k] != ','
            invariant
                i <= k <= text@.len(),
                find_char(text@, ',', k as int) == find_char(text@, ',', i as int),
            decreases text@.len() - k,
        {
            k = k + 1;
        }
        let ghost piece = text@.subrange(i as int, k as int);
        let ghost m1 = meta_of(*unit);
        add_flag(unit, text, i, k);
        proof {
            assert(done.push(piece).drop_last() == done);
            assert(seq![piece].drop_last() =~= Seq::<Seq<char>>::empty());
            assert(add_flags(m1, Seq::<Seq<char>>::empty()) == m1);
            assert(done.push(piece).last() == piece);
            assert(add_flags(m1, seq![piece]) == add_flags(m0, done.push(piece)));
        }
        if k >= text.len() {
            proof {
                assert(split_from(text@, ',', i as int) == seq![piece]);
                assert(done + seq![piece] =~= done.push(piece));
                done = done.push(piece);
            }
            return;
        }
        proof {
            assert(split_from(text@, ',', i as int) == seq![piece] + split_from(text@, ',', k + 1));
            assert(done + (seq![piece] + split_from(text@, ',', k + 1)) == done.push(piece) + split_from(text@, ',', k + 1));
            done = done.push(piece);
        }
        i = k + 1;
    }
}

/// Applies a `:` comment: its whitespace-separated locations.
fn add_locations(unit: &mut Unit, text: &Vec<char>)
    ensures
        same_frame(*final(unit), *old(unit)),
        meta_of(*final(unit)) == (Meta { locations: meta_of(*old(unit)).locations + words_from(text@, 0), ..meta_of(*old(unit)) }),
{
    let ghost m0 = meta_of(*unit);
    let mut i: usize = 0;
    proof {
        assert(m0.locations + Seq::<Seq<char>>::empty() == m0.locations);
    }
    loop
        invariant
            i <= text@.len(),
            same_frame(*unit, *old(unit)),
            m0 == meta_of(*old(unit)),
            meta_of(*unit) == (Meta { locations: meta_of(*unit).locations, ..m0 }),
            m0.locations + words_from(text@, 0) == meta_of(*unit).locations + words_from(text@, i as int),
        decreases text@.len() - i,
    {
        let j = skip_whitespace(text, i);
        proof {
            lemma_skip_ws_bounds(text@, i as int);
        }
        if j >= text.len() {
            assert(words_from(text@, i as int) == Seq::<Seq<char>>::empty());
            assert(meta_of(*unit).locations + Seq::<Seq<char>>::empty() == meta_of(*unit).locations);
            return;
        }
        let mut k = j;
        while k < text.len() && !is_whitespace(text[k])
            invariant
                j <= k <= text@.len(),
                word_end(text@, k as int) == word_end(text@, j as int),
            decreases text@.len() - k,
        {
            k = k + 1;
        }
        let w = substring(text, j, k);
        let ghost before = meta_of(*unit).locations;
        proof {
            assert(words_from(text@, i as int) == seq![w@] + words_from(text@, k as int));
        }
        unit.locations.push(w);
        proof {
            assert(meta_of(*unit).locations =~= before.push(w@));
            assert(before + (seq![w@] + words_from(text@, k as int)) == before.push(w@) + words_from(text@, k as int));
        }
        i = k;
    }
}

/// Applies one comment to the unit (see `apply_comment`).
fn apply_comment_to(unit: &mut Unit, kind: char, text: String)
    ensures
        same_frame(*final(unit), *old(unit)),
        meta_of(*final(unit)) == apply_comment(meta_of(*old(unit)), kind, text@),
{
    let ghost m0 = meta_of(*unit);
    if kind == ',' {
        let v = chars_of(text.as_str());
        add_flags_of(unit, &v);
    } else if kind == ':' {
        let v = chars_of(text.as_str());
        add_locations(unit, &v);
    } else if kind == '.' {
        let n = Note::new(Origin::Developer, text);
        unit.notes.push(n);
        assert(meta_of(*unit).notes =~= m0.notes.push((Origin::Developer, n.value@)));
    } else if kind == ' ' {
        let n = Note::new(Origin::Translator, text);
        unit.notes.push(n);
        assert(meta_of(*unit).notes =~= m0.notes.push((Origin::Translator, n.value@)));
    } else {
        let c = Comment::new(kind, text);
        unit.comments.push(c);
        assert(meta_of(*unit).comments =~= m0.comments.push((kind, c.content@)));
    }
}

pub proof fn lemma_comment_run(toks: Seq<Tok>, i: int)
    requires
        0 <= i <= toks.len(),
    ensures
        i <= comment_run(toks, i) <= toks.len(),
    decreases toks.len() - i,
{
    if i < toks.len() && toks[i].shape is Comment {
        lemma_comment_run(toks, i + 1);
    }
}

/// Applies the comments that come next in the stream to the unit; fails with the stream's
/// error when the stream ends on one right after them.
pub fn parse_comments(stream: &mut TokenStream, unit: &mut Unit) -> (r: Result<(), Error>)
    requires
        old(stream).wf(),
    ensures
        final(stream).wf(),
        same_frame(*final(unit), *old(unit)),
        ({
            let toks = old(stream).view().0;
            let end = old(stream).view().1;
            let j = comment_run(toks, 0);
            &&& meta_of(*final(unit)) == apply_comments(meta_of(*old(unit)), toks, j)
            &&& if j == toks.len() && !(end is Eof) {
                r matches Err(e) && error_matches(e, end) && final(stream).view() == (Seq::<Tok>::empty(), End::Eof)
            } else {
                r is Ok && final(stream).view() == (toks.subrange(j, toks.len() as int), end)
            }
        }),
{
    let ghost toks = stream.view().0;
    let ghost end = stream.view().1;
    let ghost m0 = meta_of(*unit);
    let ghost mut k: int = 0;
    proof {
        lemma_comment_run(toks, 0);
    }
    assert(toks.subrange(0, toks.len() as int) == toks);
    loop
        invariant
            stream.wf(),
            toks == old(stream).view().0,
            end == old(stream).view().1,
            m0 == meta_of(*old(unit)),
            0 <= k <= comment_run(toks, 0) <= toks.len(),
            comment_run(toks, k) == comment_run(toks, 0),
            stream.view() == (toks.subrange(k, toks.len() as int), end),
            same_frame(*unit, *old(unit)),
            meta_of(*unit) == apply_comments(m0, toks, k),
        ensures
            stream.wf(),
            k == comment_run(toks, 0),
            stream.view() == (toks.subrange(k, toks.len() as int), end),
            same_frame(*unit, *old(unit)),
            meta_of(*unit) == apply_comments(m0, toks, k),
        decreases toks.len() - k,
    {
        if !stream.at_comment() {
            proof {
                if k < toks.len() {
                    assert(toks.subrange(k, toks.len() as int)[0] == toks[k]);
                }
            }
            break;
        }
        proof {
            assert(toks.subrange(k, toks.len() as int)[0] == toks[k]);
            lemma_comment_run(toks, k + 1);
        }
        match stream.next_token() {
            Some(Ok(PoLine::Comment(_, kind, text))) => {
                apply_comment_to(unit, kind, text);
                proof {
                    assert(toks.subrange(k + 1, toks.len() as int) =~= toks.subrange(k, toks.len() as int).drop_first());
                    k = k + 1;
                }
            },
            _ => {
                break;
            },
        }
    }
    match stream.take_error() {
        Some(e) => Err(e),
        None => Ok(()),
    }
}


/// The `Name: value` entries of header text: each line with a `:` gives the text before the
/// first `:` and the text after it, both without outer whitespace.
pub open spec fn header_entries(lines: Seq<Seq<char>>) -> Seq<(Seq<char>, Seq<char>)>
    decreases lines.len(),
{
    if lines.len() == 0 {
        Seq::empty()
    } else {
        let rest = header_entries(lines.drop_last());
        let l = lines.last();
        let n = find_char(l, ':', 0);
        if n < l.len() {
            rest.push((trimmed(l.subrange(0, n)), trimmed(l.subrange(n + 1, l.len() as int))))
        } else {
            rest
        }
    }
}

/// The entries of a list of headers.
pub open spec fn headers_view(v: Seq<Header>) -> Seq<(Seq<char>, Seq<char>)> {
    v.map_values(|h: Header| (h.name@, h.value@))
}

/// The values of the entries named `name`, in order.
pub open spec fn values_named(es: Seq<(Seq<char>, Seq<char>)>, name: Seq<char>) -> Seq<Seq<char>>
    decreases es.len(),
{
    if es.len() == 0 {
        Seq::empty()
    } else {
        let rest = values_named(es.drop_last(), name);
        if es.last().0 == name {
            rest.push(es.last().1)
        } else {
            rest
        }
    }
}

/// Values joined with single spaces.
pub open spec fn joined_values(vals: Seq<Seq<char>>) -> Seq<char>
    decreases vals.len(),
{
    if vals.len() == 0 {
        Seq::empty()
    } else if vals.len() == 1 {
        vals[0]
    } else {
        joined_values(vals.drop_last()) + " "@ + vals.last()
    }
}

/// Reads the entries of header text.
pub fn parse_header_text(text: &str) -> (r: Vec<Header>)
    ensures
        headers_view(r@) == header_entries(split_from(text@, '\n', 0)),
{
    let t = chars_of(text);
    let mut out: Vec<Header> = Vec::new();
    let ghost mut done: Seq<Seq<char>> = Seq::empty();
    let mut i: usize = 0;
    assert(split_from(t@, '\n', 0) == done + split_from(t@, '\n', 0));
    loop
        invariant
            i <= t@.len(),
            t@ == text@,
            split_from(t@, '\n', 0) == done + split_from(t@, '\n', i as int),
            headers_view(out@) == header_entries(done),
        decreases t@.len() - i,
    {
        let mut k = i;
        while k < t.len() && t[k] != '\n'
            invariant
                i <= k <= t@.len(),
                find_char(t@, '\n', k as int) == find_char(t@, '\n', i as int),
            decreases t@.len() - k,
        {
            k = k + 1;
        }
        let line = slice_chars(&t, i, k);
        let ghost l = line@;
        let mut n: usize = 0;
        while n < line.len() && line[n] != ':'
            invariant
                n <= line@.len(),
                find_char(line@, ':', n as int) == find_char(line@, ':', 0),
            decreases line@.len() - n,
        {
            n = n + 1;
        }
        assert(done.push(l).drop_last() == done);
        if n < line.len() {
            let a = skip_whitespace(&line, 0);
            let b = trim_end_index(&line, n);
            let name = if a < b {
                substring(&line, a, b)
            } else {
                String::new()
            };
            let c = skip_whitespace(&line, n + 1);
            let d = trim_end_index(&line, line.len());
            let value = if c < d {
                substring(&line, c, d)
            } else {
                String::new()
            };
            proof {
                lemma_trim_end_bounds(line@, n as int);
                lemma_skip_ws_bounds(line@, 0);
                lemma_skip_ws_bounds(line@, n + 1);
                lemma_trim_end_bounds(line@, line@.len() as int);
                let pre = line@.subrange(0, n as int);
                let post = line@.subrange(n + 1, line@.len() as int);
                lemma_skip_ws_sub(line@, 0, n as int, 0);
                assert(trim_end_at(pre, n as int) == b) by {
                    lemma_trim_end_sub(line@, 0, n as int, n as int);
                }
                assert(name@ == trimmed(pre)) by {
                    if a < b {
                        assert(skip_ws(pre, 0) == a);
                        assert(line@.subrange(a as int, b as int) =~= pre.subrange(a as int, b as int));
                    }
                }
                assert(value@ == trimmed(post)) by {
                    lemma_skip_ws_sub(line@, n + 1, line@.len() as int, n + 1);
                    lemma_trim_end_sub(line@, n + 1, line@.len() as int, line@.len() as int);
                    if c < d {
                        assert(line@.subrange(c as int, d as int) =~= post.subrange(c - n - 1, d - n - 1));
                    }
                }
            }
            let h = Header::new(name, value);
            let ghost before = out@;
            out.push(h);
            assert(headers_view(out@) =~= headers_view(before).push((h.name@, h.value@)));
        }
        if k >= t.len() {
            proof {
                assert(split_from(t@, '\n', i as int) == seq![l]);
                assert(done + seq![l] =~= done.push(l));
                done = done.push(l);
            }
            return out;
        }
        proof {
            assert(split_from(t@, '\n', i as int) == seq![l] + split_from(t@, '\n', k + 1));
            assert(done + (seq![l] + split_from(t@, '\n', k + 1)) == done.push(l) + split_from(t@, '\n', k + 1));
            done = done.push(l);
        }
        i = k + 1;
    }
}

/// Skipping whitespace in a window `s[from..to]` agrees with skipping it in `s`, shifted.
pub proof fn lemma_skip_ws_sub(s: Seq<char>, from: int, to: int, i: int)
    requires
        0 <= from <= i <= to <= s.len(),
    ensures
        skip_ws(s.subrange(from, to), i - from) + from == (if skip_ws(s, i) < to {
            skip_ws(s, i)
        } else {
            to
        }),
    decreases to - i,
{
    if i < to && is_ws(s[i]) {
        assert(s.subrange(from, to)[i - from] == s[i]);
        lemma_skip_ws_sub(s, from, to, i + 1);
    } else if i < to {
        assert(s.subrange(from, to)[i - from] == s[i]);
    } else {
        lemma_skip_ws_bounds(s, i);
    }
}

/// Trimming trailing whitespace in a window `s[from..to]` agrees with doing it in `s`.
pub proof fn lemma_trim_end_sub(s: Seq<char>, from: int, to: int, j: int)
    requires
        0 <= from <= j <= to <= s.len(),
    ensures
        trim_end_at(s.subrange(from, to), j - from) + from == (if trim_end_at(s, j) > from {
            trim_end_at(s, j)
        } else {
            from
        }),
    decreases j,
{
    if j > from && is_ws(s[j - 1]) {
        assert(s.subrange(from, to)[j - 1 - from] == s[j - 1]);
        lemma_trim_end_sub(s, from, to, j - 1);
    } else if j > from {
        assert(s.subrange(from, to)[j - 1 - from] == s[j - 1]);
    } else {
        lemma_trim_end_bounds(s, j);
    }
}

/// The values of the headers named `name`, in order.
pub fn header_values(headers: &Vec<Header>, name: &str) -> (r: Vec<String>)
    ensures
        r@.map_values(|s: String| s@) == values_named(headers_view(headers@), name@),
{
    let key = String::from_str(name);
    let mut out: Vec<String> = Vec::new();
    let mut i: usize = 0;
    while i < headers.len()
        invariant
            i <= headers@.len(),
            key@ == name@,
            out@.map_values(|s: String| s@) == values_named(headers_view(headers@.subrange(0, i as int)), name@),
        decreases headers@.len() - i,
    {
        let ghost hv = headers_view(headers@.subrange(0, i + 1));
        assert(hv.drop_last() =~= headers_view(headers@.subrange(0, i as int)));
        assert(hv.last() == (headers@[i as int].name@, headers@[i as int].value@));
        if headers[i].name == key {
            let ghost before = out@;
            out.push(headers[i].value.clone());
            assert(out@.map_values(|s: String| s@) =~= before.map_values(|s: String| s@).push(headers@[i as int].value@));
        }
        i = i + 1;
    }
    assert(headers@.subrange(0, headers@.len() as int) == headers@);
    out
}

/// Joins values with single spaces.
pub fn join_values(vals: &Vec<String>) -> (r: String)
    ensures
        r@ == joined_values(vals@.map_values(|s: String| s@)),
{
    let mut out = String::new();
    let mut i: usize = 0;
    while i < vals.len()
        invariant
            i <= vals@.len(),
            out@ == joined_values(vals@.subrange(0, i as int).map_values(|s: String| s@)),
        decreases vals@.len() - i,
    {
        let ghost pv = vals@.subrange(0, i + 1).map_values(|s: String| s@);
        assert(pv.drop_last() =~= vals@.subrange(0, i as int).map_values(|s: String| s@));
        assert(pv.last() == vals@[i as int]@);
        if i > 0 {
            out.append(" ");
        } else {
            assert(pv =~= seq![vals@[0]@]);
        }
        out.append(vals[i].as_str());
        i = i + 1;
    }
    assert(vals@.subrange(0, vals@.len() as int) == vals@);
    out
}

/// What `locale_config::LanguageRange::new` makes of a tag: the canonical tag, if the tag is
/// well formed.
pub uninterp spec fn language_range_tag(s: Seq<char>) -> Option<Seq<char>>;

/// What `locale_config::LanguageRange::from_unix` makes of a Unix locale name: the
/// canonical tag, if the name is well formed.
pub uninterp spec fn unix_range_tag(s: Seq<char>) -> Option<Seq<char>>;

/// Relies on `locale_config::LanguageRange::new`: the canonical form of a language tag, if it
/// is well formed (the empty tag is kept as it is).
#[verifier::external_body]
fn language_range(s: &str) -> (r: Option<String>)
    ensures
        crate::extractor::opt_view(r) == language_range_tag(s@),
        s@.len() == 0 ==> crate::extractor::opt_view(r) == Some(Seq::<char>::empty()),
{
    match locale_config::LanguageRange::new(s) {
        Ok(l) => Some(l.as_ref().to_string()),
        Err(_) => None,
    }
}

/// Relies on `locale_config::LanguageRange::from_unix`: the language tag of a Unix locale
/// name, if it is well formed.
#[verifier::external_body]
fn unix_language_range(s: &str) -> (r: Option<String>)
    ensures
        crate::extractor::opt_view(r) == unix_range_tag(s@),
{
    match locale_config::LanguageRange::from_unix(s) {
        Ok(l) => Some(l.as_ref().to_string()),
        Err(_) => None,
    }
}

/// The target language of a `Language` value: its canonical tag, else the tag of it read as a
/// Unix locale name, else the invariant (empty) tag.
pub open spec fn target_language_of(v: Seq<char>) -> Seq<char> {
    match language_range_tag(v) {
        Some(t) => t,
        None => match unix_range_tag(v) {
            Some(t) => t,
            None => Seq::empty(),
        },
    }
}

/// Finds the target language for a `Language` value.
pub fn target_language_for(v: &str) -> (r: String)
    ensures
        r@ == target_language_of(v@),
{
    match language_range(v) {
        Some(t) => t,
        None => match unix_language_range(v) {
            Some(t) => t,
            None => String::new(),
        },
    }
}


/// The flags of a unit include `fuzzy`.
pub open spec fn has_fuzzy(u: Unit) -> bool {
    u.flags@.map_values(|s: String| s@).contains("fuzzy"@)
}

/// The state a unit ends with: `NeedsWork` when flagged `fuzzy`, else `Empty` when it has no
/// translation, else `Final`.
pub open spec fn settled(u: Unit) -> bool {
    u.state == (if has_fuzzy(u) {
        State::NeedsWork
    } else if blank_message(u.message) {
        State::Empty
    } else {
        State::Final
    })
}

/// The state reflects the `fuzzy` flag, and nothing else has set it.
pub open spec fn fuzzy_consistent(m: Meta) -> bool {
    &&& (m.state == State::NeedsWork <==> m.flags.contains("fuzzy"@))
    &&& (m.state == State::Empty || m.state == State::NeedsWork)
}

pub proof fn lemma_add_flags_consistent(m: Meta, pieces: Seq<Seq<char>>)
    requires
        fuzzy_consistent(m),
    ensures
        fuzzy_consistent(add_flags(m, pieces)),
    decreases pieces.len(),
{
    if pieces.len() > 0 {
        lemma_add_flags_consistent(m, pieces.drop_last());
        let m1 = add_flags(m, pieces.drop_last());
        let f = trimmed(pieces.last());
        if !m1.flags.contains(f) {
            let fl = m1.flags.push(f);
            assert(fl.contains("fuzzy"@) <==> (m1.flags.contains("fuzzy"@) || f == "fuzzy"@)) by {
                if fl.contains("fuzzy"@) {
                    let k = choose|k: int| 0 <= k < fl.len() && fl[k] == "fuzzy"@;
                    if k < m1.flags.len() {
                        assert(m1.flags[k] == "fuzzy"@);
                    }
                }
                if m1.flags.contains("fuzzy"@) {
                    let k = choose|k: int| 0 <= k < m1.flags.len() && m1.flags[k] == "fuzzy"@;
                    assert(fl[k] == "fuzzy"@);
                }
                if f == "fuzzy"@ {
                    assert(fl[m1.flags.len() as int] == "fuzzy"@);
                }
            }
        } else if f == "fuzzy"@ {
            assert(m1.flags.contains("fuzzy"@));
        }
    }
}

pub proof fn lemma_apply_comments_consistent(m: Meta, toks: Seq<Tok>, j: int)
    requires
        fuzzy_consistent(m),
    ensures
        fuzzy_consistent(apply_comments(m, toks, j)),
    decreases j,
{
    if 0 < j <= toks.len() {
        lemma_apply_comments_consistent(m, toks, j - 1);
        let m1 = apply_comments(m, toks, j - 1);
        match toks[j - 1].shape {
            Shape::Comment(k, t) => {
                if k == ',' {
                    lemma_add_flags_consistent(m1, split_from(t, ',', 0));
                }
            },
            _ => {},
        }
    }
}

/// What the comments of a new unit start from.
pub open spec fn blank_meta() -> Meta {
    Meta {
        flags: Seq::empty(),
        locations: Seq::empty(),
        notes: Seq::empty(),
        comments: Seq::empty(),
        state: State::Empty,
    }
}

/// What reading one unit gives.
pub enum ReadOutcome {
    /// No unit starts here: the input is over, or a unit other than the first has no `msgid`.
    Nothing,
    Failed(Failure),
    /// A unit: what its comments give, whether it is obsolete, and its message fields.
    Read(Meta, bool, Fields),
}

/// Reading one unit from the tokens `v`: its comments, then (obsolete when its first message
/// line is) its message fields; a unit other than the first may not have an empty source id.
pub open spec fn read_spec(v: Pending, first: bool, count: nat) -> (ReadOutcome, Pending) {
    let j = comment_run(v.0, 0);
    let meta = apply_comments(blank_meta(), v.0, j);
    let v1 = (v.0.subrange(j, v.0.len() as int), v.1);
    if j == v.0.len() && !(v.1 is Eof) {
        (ReadOutcome::Failed(Failure::Stream(v.1)), (Seq::empty(), End::Eof))
    } else if v1.0.len() == 0 {
        (ReadOutcome::Nothing, v1)
    } else {
        let obsolete = message_is_obsolete(v1.0[0]);
        let (a, v2) = assemble(v1, obsolete, first, count);
        match a {
            Assembled::Failed(f) => (ReadOutcome::Failed(f), v2),
            Assembled::NoUnit => (ReadOutcome::Nothing, v2),
            Assembled::Built(fl) => if !first && fl.plural is None && fl.id == Some(Seq::<char>::empty()) {
                (ReadOutcome::Failed(Failure::EmptySource(v1.0[0].line as nat)), v2)
            } else {
                (ReadOutcome::Read(meta, obsolete, fl), v2)
            },
        }
    }
}

/// The unit `u` is the one that comments `m`, obsoleteness `obsolete` and fields `f` make, its
/// state settled.
pub open spec fn unit_read(u: Unit, m: Meta, obsolete: bool, f: Fields, forms: Option<Rc<PluralForms>>) -> bool {
    &&& meta_of(u).flags == m.flags
    &&& meta_of(u).locations == m.locations
    &&& meta_of(u).notes == m.notes
    &&& meta_of(u).comments == m.comments
    &&& u.obsolete == obsolete
    &&& opt_view(u.prev_context) == f.prev_context
    &&& opt_view(u.context) == f.context
    &&& message_matches(u.message, f, forms)
    &&& previous_matches(u.prev_message, f, forms)
    &&& settled(u)
}

/// The result of reading a unit agrees with the outcome `o`.
pub open spec fn read_matches(r: Result<Option<Unit>, Error>, o: ReadOutcome, forms: Option<Rc<PluralForms>>) -> bool {
    match o {
        ReadOutcome::Nothing => r matches Ok(None),
        ReadOutcome::Failed(f) => r matches Err(e) && failure_matches(e, f),
        ReadOutcome::Read(m, obs, fl) => r matches Ok(Some(u)) && unit_read(u, m, obs, fl, forms),
    }
}

/// The same as `read_matches`, for what the reader holds for its next call.
pub open spec fn pending_matches(p: Option<Result<Unit, Error>>, o: ReadOutcome, forms: Option<Rc<PluralForms>>) -> bool {
    match o {
        ReadOutcome::Nothing => p is None,
        ReadOutcome::Failed(f) => p matches Some(Err(e)) && failure_matches(e, f),
        ReadOutcome::Read(m, obs, fl) => p matches Some(Ok(u)) && unit_read(u, m, obs, fl, forms),
    }
}

/// The first unit read is the header entry: it has no source id, or an empty one.
pub open spec fn is_header(f: Fields) -> bool {
    f.id is None || (f.id == Some(Seq::<char>::empty()) && f.plural is None)
}

/// What the header entries set: the target language from the `Language` values, and the
/// plural forms from the `Plural-Forms` values, each list joined by spaces.
pub open spec fn header_settings(ok: bool, rd: PoReader) -> bool {
    let langs = values_named(rd.properties(), "Language"@);
    let forms = joined_values(values_named(rd.properties(), "Plural-Forms"@));
    &&& langs.len() > 0 ==> rd.language() == target_language_of(joined_values(langs))
    &&& langs.len() == 0 ==> rd.language().len() == 0
    &&& ok ==> if forms.len() > 0 {
        rd.forms() matches Some(f) && plural_forms_of(forms) == Some(
            (f.formula_source@, f.formula.expr, f.count),
        )
    } else {
        rd.forms() is None
    }
    &&& !ok ==> forms.len() > 0 && plural_forms_of(forms) is None
}

/// The `Plural-Forms` values of header text, joined by spaces, are absent or decode.
pub open spec fn header_forms_readable(text: Seq<char>) -> bool {
    let forms = joined_values(values_named(header_entries(split_from(text, '\n', 0)), "Plural-Forms"@));
    forms.len() == 0 || plural_forms_of(forms) is Some
}

/// The text of the header entry: its translation, empty without a source id.
pub open spec fn header_text(f: Fields) -> Seq<char> {
    if f.id is None {
        Seq::empty()
    } else {
        f.text
    }
}

/// How reading a catalogue starts: the first unit is read; an error there is the result. A
/// header entry is consumed (its text gives the header entries) and the unit after it is read
/// with the header's `Plural-Forms`; any other first unit is kept for the first call of `next`.
pub open spec fn started(r: Result<PoReader, Error>, input: Seq<u8>) -> bool {
    let (o, rest) = read_spec(scan(input, 0, 1), true, 2);
    match o {
        ReadOutcome::Failed(f) => r matches Err(e) && failure_matches(e, f),
        ReadOutcome::Nothing => r matches Ok(rd) && rd.pending() is None,
        ReadOutcome::Read(m, obs, fl) => if is_header(fl) {
            &&& (r is Ok <==> header_forms_readable(header_text(fl)))
            &&& r matches Ok(rd) ==> {
                let (o2, rest2) = read_spec(rest, false, variant_count(rd.shared_forms()));
                &&& rd.properties() == header_entries(split_from(header_text(fl), '\n', 0))
                &&& header_settings(true, rd)
                &&& notes_view(rd.notes_of_header()) == m.notes
                &&& comments_view(rd.comments_of_header()) == m.comments
                &&& rd.remaining() == rest2
                &&& pending_matches(rd.pending(), o2, rd.shared_forms())
            }
        } else {
            r matches Ok(rd) && rd.remaining() == rest && rd.shared_forms() is None
                && pending_matches(rd.pending(), o, None)
        },
    }
}

/// Reads catalogues.
pub struct PoParser {}

impl PoParser {
    pub fn new() -> (r: PoParser) {
        PoParser {  }
    }

    /// Starts reading the catalogue `input`: reads the first unit and, when its id is empty,
    /// takes it as the header.
    pub fn parse(&self, input: &[u8]) -> (r: Result<PoReader, Error>)
        requires
            input@.len() < usize::MAX,
        ensures
            r matches Ok(rd) ==> rd.wf(),
            started(r, input@),
    {
        PoReader::new(vstd::slice::slice_to_vec(input))
    }
}

/// Reads the units of a catalogue one at a time, after its header.
pub struct PoReader {
    lines: TokenStream,
    next_unit: Option<Result<Unit, Error>>,
    header_notes: Vec<Note>,
    header_comments: Vec<Comment>,
    header_properties: Vec<Header>,
    target_language: String,
    plural_forms: Option<Rc<PluralForms>>,
}

impl PoReader {
    /// The reader is consistent, and the unit it holds for the next call is settled and has a
    /// non-empty id.
    pub closed spec fn wf(&self) -> bool {
        &&& self.lines.wf()
        &&& self.next_unit matches Some(Ok(u)) ==> settled(u) && !empty_message(u.message)
    }

    /// The unit or error that the next call of `next` returns.
    pub closed spec fn pending(&self) -> Option<Result<Unit, Error>> {
        self.next_unit
    }

    /// The target language tag.
    pub closed spec fn language(&self) -> Seq<char> {
        self.target_language@
    }

    /// The notes of the header entry.
    pub closed spec fn notes_of_header(&self) -> Seq<Note> {
        self.header_notes@
    }

    /// The comments of the header entry.
    pub closed spec fn comments_of_header(&self) -> Seq<Comment> {
        self.header_comments@
    }

    /// The decoded `Plural-Forms` header.
    pub closed spec fn forms(&self) -> Option<PluralForms> {
        match self.plural_forms {
            Some(f) => Some(*f),
            None => None,
        }
    }

    /// The tokens still to read.
    pub closed spec fn remaining(&self) -> Pending {
        self.lines.view()
    }

    /// The `Plural-Forms` shared by the plural units read.
    pub closed spec fn shared_forms(&self) -> Option<Rc<PluralForms>> {
        self.plural_forms
    }

    /// The header entries, in order.
    pub closed spec fn properties(&self) -> Seq<(Seq<char>, Seq<char>)> {
        headers_view(self.header_properties@)
    }

    fn read_unit(&mut self, first: bool) -> (r: Result<Option<Unit>, Error>)
        requires
            old(self).lines.wf(),
        ensures
            final(self).lines.wf(),
            final(self).next_unit == old(self).next_unit,
            final(self).header_properties == old(self).header_properties,
            final(self).header_notes == old(self).header_notes,
            final(self).header_comments == old(self).header_comments,
            final(self).target_language == old(self).target_language,
            final(self).plural_forms == old(self).plural_forms,
            r matches Ok(Some(u)) ==> settled(u) && (!first ==> !empty_message(u.message)),
            read_spec(old(self).lines.view(), first, variant_count(old(self).plural_forms)).1
                == final(self).lines.view(),
            read_matches(
                r,
                read_spec(old(self).lines.view(), first, variant_count(old(self).plural_forms)).0,
                old(self).plural_forms,
            ),
    {
        let mut unit = Unit::default();
        let ghost toks = self.lines.view().0;
        let ghost m0 = meta_of(unit);
        let ghost v0 = self.lines.view();
        proof {
            assert(!m0.flags.contains("fuzzy"@));
            assert(m0.flags =~= blank_meta().flags);
            assert(m0.locations =~= blank_meta().locations);
            assert(m0.notes =~= blank_meta().notes);
            assert(m0.comments =~= blank_meta().comments);
            assert(m0 == blank_meta());
        }
        match parse_comments(&mut self.lines, &mut unit) {
            Err(e) => {
                return Err(e);
            },
            Ok(()) => {},
        }
        proof {
            lemma_apply_comments_consistent(m0, toks, comment_run(toks, 0));
        }
        let ghost v1 = self.lines.view();
        let (line, obsolete) = match self.lines.peek_line() {
            None => {
                return Ok(None);
            },
            Some(p) => p,
        };
        unit.obsolete = obsolete;
        let forms = match &self.plural_forms {
            Some(f) => Some(Rc::clone(f)),
            None => None,
        };
        let ex = MessageExtractor::new(unit, forms);
        match ex.parse_message_fields(&mut self.lines, first) {
            Err(e) => Err(e),
            Ok(None) => Ok(None),
            Ok(Some(u)) => {
                let mut u = u;
                proof {
                    if !first {
                        if u.message is Simple && u.message->Simple_id@.len() == 0 {
                            assert(u.message->Simple_id@ =~= Seq::<char>::empty());
                        }
                    }
                }
                if !first && u.message.is_empty() {
                    return Err(Error::Unexpected(line, String::from_str("Source should not be empty")));
                }
                if u.state == State::Empty && !u.message.is_blank() {
                    u.state = State::Final;
                }
                proof {
                    assert(meta_of(u).flags == u.flags@.map_values(|s: String| s@));
                }
                Ok(Some(u))
            },
        }
    }

    fn next_unit(&mut self, first: bool) -> (r: Option<Result<Unit, Error>>)
        requires
            old(self).lines.wf(),
        ensures
            final(self).lines.wf(),
            final(self).next_unit == old(self).next_unit,
            final(self).header_properties == old(self).header_properties,
            final(self).header_notes == old(self).header_notes,
            final(self).header_comments == old(self).header_comments,
            final(self).target_language == old(self).target_language,
            final(self).plural_forms == old(self).plural_forms,
            r matches Some(Ok(u)) ==> settled(u) && (!first ==> !empty_message(u.message)),
            read_spec(old(self).lines.view(), first, variant_count(old(self).plural_forms)).1
                == final(self).lines.view(),
            pending_matches(
                r,
                read_spec(old(self).lines.view(), first, variant_count(old(self).plural_forms)).0,
                old(self).plural_forms,
            ),
    {
        match self.read_unit(first) {
            Ok(None) => None,
            Ok(Some(u)) => Some(Ok(u)),
            Err(e) => Some(Err(e)),
        }
    }

    /// Takes the header entry `u`: its text's `Name: value` lines, notes and comments; the
    /// `Language` values select the target language, and non-empty `Plural-Forms` values
    /// (joined by spaces) are decoded for the plural units that follow.
    fn parse_po_header(&mut self, u: Unit) -> (r: Result<(), Error>)
        requires
            old(self).target_language@.len() == 0,
            old(self).plural_forms is None,
        ensures
            final(self).lines == old(self).lines,
            final(self).next_unit == old(self).next_unit,
            u.message is Simple ==> final(self).properties() == header_entries(split_from(
                crate::message::text_view(u.message->Simple_text),
                '\n',
                0,
            )),
            final(self).notes_of_header() == u.notes@,
            final(self).comments_of_header() == u.comments@,
            header_settings(r is Ok, *final(self)),
    {
        let text = String::from_str(u.message.get_text());
        self.header_properties = parse_header_text(text.as_str());
        self.header_notes = u.notes;
        self.header_comments = u.comments;
        proof {
            reveal_strlit("Language");
            reveal_strlit("Plural-Forms");
        }
        let langs = header_values(&self.header_properties, "Language");
        assert(langs@.map_values(|s: String| s@).len() == langs@.len());
        if langs.len() > 0 {
            let v = join_values(&langs);
            self.target_language = target_language_for(v.as_str());
        }
        let forms = header_values(&self.header_properties, "Plural-Forms");
        let v = join_values(&forms);
        if forms.len() > 0 {
            if !v.as_str().is_empty() {
                match PluralForms::parse(v.as_str()) {
                    Ok(f) => {
                        self.plural_forms = Some(Rc::new(f));
                    },
                    Err(e) => {
                        return Err(e);
                    },
                }
            }
        }
        Ok(())
    }

    fn new(input: Vec<u8>) -> (r: Result<PoReader, Error>)
        requires
            input@.len() < usize::MAX,
        ensures
            r matches Ok(rd) ==> rd.wf(),
            started(r, input@),
    {
        let mut res = PoReader {
            lines: TokenStream::new(input),
            next_unit: None,
            header_notes: Vec::new(),
            header_comments: Vec::new(),
            header_properties: Vec::new(),
            target_language: String::new(),
            plural_forms: None,
        };
        let ghost start = res.lines.view();
        match res.read_unit(true) {
            Err(e) => Err(e),
            Ok(None) => Ok(res),
            Ok(Some(u)) => {
                proof {
                    let fl = read_spec(start, true, 2).0->Read_2;
                    if u.message is Simple && u.message->Simple_id@.len() == 0 {
                        assert(u.message->Simple_id@ =~= Seq::<char>::empty());
                    }
                    assert(empty_message(u.message) <==> is_header(fl));
                    if is_header(fl) {
                        assert(u.message is Simple);
                        if fl.id is Some {
                            assert(crate::message::text_view(u.message->Simple_text) =~= fl.text);
                        }
                        assert(crate::message::text_view(u.message->Simple_text) == header_text(fl));
                    }
                }
                if u.message.is_empty() {
                    match res.parse_po_header(u) {
                        Err(e) => {
                            return Err(e);
                        },
                        Ok(()) => {},
                    }
                    res.next_unit = res.next_unit(false);
                } else {
                    res.next_unit = Some(Ok(u));
                }
                Ok(res)
            },
        }
    }

    /// The next unit, or the error reading met. After an error, and at the end, there is
    /// nothing more. No unit returned has an empty id, and each is settled: `NeedsWork` when
    /// flagged `fuzzy`, else `Empty` without translation, else `Final`.
    pub fn next(&mut self) -> (r: Option<Result<Unit, Error>>)
        requires
            old(self).wf(),
        ensures
            final(self).wf(),
            r == old(self).pending(),
            r matches Some(Ok(u)) ==> settled(u) && !empty_message(u.message),
            !(r matches Some(Ok(_))) ==> final(self).pending() is None,
            final(self).shared_forms() == old(self).shared_forms(),
            r matches Some(Ok(_)) ==> ({
                let (o, rest) = read_spec(old(self).remaining(), false, variant_count(old(self).shared_forms()));
                &&& final(self).remaining() == rest
                &&& pending_matches(final(self).pending(), o, old(self).shared_forms())
            }),
    {
        match self.next_unit.take() {
            None => None,
            Some(Err(e)) => Some(Err(e)),
            Some(Ok(u)) => {
                self.next_unit = self.next_unit(false);
                Some(Ok(u))
            },
        }
    }

    /// The target language tag (empty when the header names none that can be read).
    pub fn target_language(&self) -> (r: &str)
        ensures
            r@ == self.language(),
    {
        self.target_language.as_str()
    }

    /// The notes of the header entry.
    pub fn header_notes(&self) -> (r: &Vec<Note>)
        ensures
            r@ == self.notes_of_header(),
    {
        &self.header_notes
    }

    /// The comments of the header entry.
    pub fn header_comments(&self) -> (r: &Vec<Comment>)
        ensures
            r@ == self.comments_of_header(),
    {
        &self.header_comments
    }

    /// The header entries, in the order of the header, repeated names included.
    pub fn header_property_list(&self) -> (r: &Vec<Header>)
        ensures
            headers_view(r@) == self.properties(),
    {
        &self.header_properties
    }

    /// The values of the header entries named `name`, in order.
    pub fn header_property(&self, name: &str) -> (r: Vec<String>)
        ensures
            r@.map_values(|s: String| s@) == values_named(self.properties(), name@),
    {
        header_values(&self.header_properties, name)
    }

    /// The decoded `Plural-Forms` header, if there is one.
    pub fn plural_forms(&self) -> (r: Option<&PluralForms>)
        ensures
            match self.forms() {
                Some(f) => r matches Some(g) && *g == f,
                None => r is None,
            },
    {
        match &self.plural_forms {
            Some(f) => Some(&**f),
            None => None,
        }
    }
}

} // verus!

verus! {

/// A header line `name: value` adds its value after those of the earlier lines with the same
/// name: a repeated name appends, it never overwrites, and the order of the lines is kept.
pub proof fn lemma_header_line_appends(lines: Seq<Seq<char>>, l: Seq<char>, name: Seq<char>)
    requires
        find_char(l, ':', 0) < l.len(),
        trimmed(l.subrange(0, find_char(l, ':', 0))) == name,
    ensures
        values_named(header_entries(lines.push(l)), name) == values_named(header_entries(lines), name).push(
            trimmed(l.subrange(find_char(l, ':', 0) + 1, l.len() as int)),
        ),
        header_entries(lines.push(l)).drop_last() == header_entries(lines),
{
    assert(lines.push(l).drop_last() == lines);
    let n = find_char(l, ':', 0);
    let e = (trimmed(l.subrange(0, n)), trimmed(l.subrange(n + 1, l.len() as int)));
    assert(header_entries(lines.push(l)) == header_entries(lines).push(e));
    assert(header_entries(lines).push(e).drop_last() == header_entries(lines));
}

/// A header line without `:` adds no entry.
pub proof fn lemma_header_line_without_colon(lines: Seq<Seq<char>>, l: Seq<char>)
    requires
        find_char(l, ':', 0) >= l.len(),
    ensures
        header_entries(lines.push(l)) == header_entries(lines),
{
    assert(lines.push(l).drop_last() == lines);
}

/// Adding flags keeps the flags already there.
proof fn lemma_add_flags_keeps(m: Meta, pieces: Seq<Seq<char>>, f: Seq<char>)
    requires
        m.flags.contains(f),
    ensures
        add_flags(m, pieces).flags.contains(f),
    decreases pieces.len(),
{
    if pieces.len() > 0 {
        lemma_add_flags_keeps(m, pieces.drop_last(), f);
        let m1 = add_flags(m, pieces.drop_last());
        let g = trimmed(pieces.last());
        if !m1.flags.contains(g) {
            let k = choose|k: int| 0 <= k < m1.flags.len() && m1.flags[k] == f;
            assert(m1.flags.push(g)[k] == f);
        }
    }
}

/// A flag among the pieces ends among the flags.
proof fn lemma_add_flags_adds(m: Meta, pieces: Seq<Seq<char>>, i: int)
    requires
        0 <= i < pieces.len(),
    ensures
        add_flags(m, pieces).flags.contains(trimmed(pieces[i])),
    decreases pieces.len(),
{
    let m1 = add_flags(m, pieces.drop_last());
    let g = trimmed(pieces.last());
    if i < pieces.len() - 1 {
        lemma_add_flags_adds(m, pieces.drop_last(), i);
        assert(pieces.drop_last()[i] == pieces[i]);
        if !m1.flags.contains(g) {
            let k = choose|k: int| 0 <= k < m1.flags.len() && m1.flags[k] == trimmed(pieces[i]);
            assert(m1.flags.push(g)[k] == trimmed(pieces[i]));
        }
    } else {
        if !m1.flags.contains(g) {
            assert(m1.flags.push(g)[m1.flags.len() as int] == g);
        }
    }
}

/// Comments keep the flags already there.
proof fn lemma_apply_comments_keeps(m: Meta, toks: Seq<Tok>, j: int, f: Seq<char>)
    requires
        m.flags.contains(f),
    ensures
        apply_comments(m, toks, j).flags.contains(f),
    decreases j,
{
    if 0 < j <= toks.len() {
        lemma_apply_comments_keeps(m, toks, j - 1, f);
        let m1 = apply_comments(m, toks, j - 1);
        match toks[j - 1].shape {
            Shape::Comment(k, t) => {
                if k == ',' {
                    lemma_add_flags_keeps(m1, split_from(t, ',', 0), f);
                }
            },
            _ => {},
        }
    }
}

/// A flag written in a `,` comment among the first `j` tokens is among the flags they give.
pub proof fn lemma_flag_comment(m: Meta, toks: Seq<Tok>, j: int, i: int, p: int)
    requires
        0 <= i < j <= toks.len(),
        toks[i].shape is Comment,
        toks[i].shape->Comment_0 == ',',
        0 <= p < split_from(toks[i].shape->Comment_1, ',', 0).len(),
    ensures
        apply_comments(m, toks, j).flags.contains(trimmed(split_from(toks[i].shape->Comment_1, ',', 0)[p])),
    decreases j,
{
    let f = trimmed(split_from(toks[i].shape->Comment_1, ',', 0)[p]);
    if i == j - 1 {
        let m1 = apply_comments(m, toks, j - 1);
        lemma_add_flags_adds(m1, split_from(toks[i].shape->Comment_1, ',', 0), p);
    } else {
        lemma_flag_comment(m, toks, j - 1, i, p);
        let m1 = apply_comments(m, toks, j - 1);
        match toks[j - 1].shape {
            Shape::Comment(k, t) => {
                if k == ',' {
                    lemma_add_flags_keeps(m1, split_from(t, ',', 0), f);
                }
            },
            _ => {},
        }
    }
}

/// The token is a `,` comment whose piece `p` is the flag `fuzzy`.
pub open spec fn fuzzy_comment(t: Tok, p: int) -> bool {
    t.shape matches Shape::Comment(k, c) && k == ',' && 0 <= p < split_from(c, ',', 0).len()
        && trimmed(split_from(c, ',', 0)[p]) == "fuzzy"@
}

/// The state rules of a unit read: a `fuzzy` flag among its comments makes it `NeedsWork`
/// whatever its translation; without one, a unit with a translation is `Final` and one without
/// is `Empty`.
pub proof fn lemma_read_unit_state(v: Pending, first: bool, count: nat, u: Unit, forms: Option<Rc<PluralForms>>)
    requires
        read_spec(v, first, count).0 is Read,
        unit_read(
            u,
            read_spec(v, first, count).0->Read_0,
            read_spec(v, first, count).0->Read_1,
            read_spec(v, first, count).0->Read_2,
            forms,
        ),
    ensures
        (exists|i: int, p: int| 0 <= i < comment_run(v.0, 0) && #[trigger] fuzzy_comment(v.0[i], p))
            ==> u.state == State::NeedsWork,
        !has_fuzzy(u) && blank_message(u.message) ==> u.state == State::Empty,
        !has_fuzzy(u) && !blank_message(u.message) ==> u.state == State::Final,
{
    let j = comment_run(v.0, 0);
    lemma_comment_run(v.0, 0);
    if exists|i: int, p: int| 0 <= i < j && #[trigger] fuzzy_comment(v.0[i], p) {
        let (i, p) = choose|i: int, p: int| 0 <= i < j && #[trigger] fuzzy_comment(v.0[i], p);
        lemma_flag_comment(blank_meta(), v.0, j, i, p);
        assert(meta_of(u).flags.contains("fuzzy"@));
    }
}

} // verus!
