//! The token stream of a catalogue: lines cut from the input bytes, classified one at a time,
//! with one token of lookahead, and the two operations that unit assembly uses on it.
use crate::error::{invalid_data, Error};
use crate::line::{classify, line_of, parse_line, shape_of, PoLine, Shape};
use vstd::prelude::*;
use vstd::string::StringExecFns;
use vstd::utf8::{decode_utf8, valid_utf8};

verus! {

/// A token of the stream: its line number and shape.
pub struct Tok {
    pub line: usize,
    pub shape: Shape,
}

/// How the token sequence ends: at the end of the input, at a line of no known shape (its
/// number and text), or at a line that is not UTF-8 (its number).
pub enum End {
    Eof,
    BadLine(nat, Seq<char>),
    BadBytes(nat),
}

/// Index of the first `\n` at or after `i` (the length if there is none).
pub open spec fn newline_at(b: Seq<u8>, i: int) -> int
    decreases b.len() - i,
{
    if 0 <= i < b.len() && b[i] != 10 {
        newline_at(b, i + 1)
    } else {
        i
    }
}

/// The bytes of the line that starts at `pos`: up to the next `\n`, without that `\n` nor a
/// `\r` just before it.
pub open spec fn line_bytes(b: Seq<u8>, pos: int) -> Seq<u8> {
    let e = newline_at(b, pos);
    let raw = b.subrange(pos, e);
    if e < b.len() && raw.len() > 0 && raw.last() == 13 {
        raw.drop_last()
    } else {
        raw
    }
}

/// Where the line after the one at `pos` starts.
pub open spec fn next_line_at(b: Seq<u8>, pos: int) -> int {
    let e = newline_at(b, pos);
    if e < b.len() {
        e + 1
    } else {
        e
    }
}

/// The tokens of the lines from `pos` on, the first of them numbered `line`: blank lines give
/// none, and the sequence ends at the end of the input or at the first line that is not
/// UTF-8 or of no known shape.
pub open spec fn scan(b: Seq<u8>, pos: int, line: nat) -> (Seq<Tok>, End)
    decreases b.len() - pos,
{
    if pos < 0 || pos >= b.len() {
        (Seq::empty(), End::Eof)
    } else if !valid_utf8(line_bytes(b, pos)) {
        (Seq::empty(), End::BadBytes(line))
    } else {
        let s = decode_utf8(line_bytes(b, pos));
        let next = next_line_at(b, pos);
        if next <= pos || next > b.len() {
            (Seq::empty(), End::Eof)
        } else {
            match classify(s) {
                None => (Seq::empty(), End::BadLine(line, s)),
                Some(Shape::Blank) => scan(b, next, line + 1),
                Some(sh) => {
                    let rest = scan(b, next, line + 1);
                    (seq![Tok { line: line as usize, shape: sh }] + rest.0, rest.1)
                },
            }
        }
    }
}

/// Every line from `pos` on is valid UTF-8 and holds only whitespace.
pub open spec fn blank_lines(b: Seq<u8>, pos: int) -> bool
    decreases b.len() - pos,
{
    if pos < 0 || pos >= b.len() {
        true
    } else {
        let next = next_line_at(b, pos);
        &&& valid_utf8(line_bytes(b, pos))
        &&& crate::text::all_ws(decode_utf8(line_bytes(b, pos)))
        &&& (pos < next <= b.len() ==> blank_lines(b, next))
    }
}

/// Lines that hold only whitespace give no token, and the input ends cleanly after them.
pub proof fn lemma_blank_lines_give_no_tokens(b: Seq<u8>, pos: int, line: nat)
    requires
        blank_lines(b, pos),
    ensures
        scan(b, pos, line) == (Seq::<Tok>::empty(), End::Eof),
    decreases b.len() - pos,
{
    if 0 <= pos < b.len() {
        let next = next_line_at(b, pos);
        if pos < next <= b.len() {
            lemma_blank_lines_give_no_tokens(b, next, line + 1);
        }
    }
}

/// The end that an error of the stream stands for.
pub open spec fn error_matches(err: Error, e: End) -> bool {
    match e {
        End::Eof => false,
        End::BadLine(l, s) => err matches Error::Parse(el, got, exp) && el == l && got@ == s
            && exp@.len() == 0,
        End::BadBytes(l) => err matches Error::Io(el, _) && el == l,
    }
}

/// The token of a classified line.
pub open spec fn tok_of(l: PoLine) -> Tok {
    Tok { line: line_of(l), shape: shape_of(l) }
}

/// What reading one token gives, from the tokens `before` it and the view `after` it.
pub open spec fn read_post(
    r: Option<Result<PoLine, Error>>,
    before: (Seq<Tok>, End),
    after: (Seq<Tok>, End),
) -> bool {
    match r {
        Some(Ok(t)) => before.0.len() > 0 && tok_of(t) == before.0[0] && !(t is Blank) && after == (
            before.0.drop_first(),
            before.1,
        ),
        Some(Err(e)) => before.0.len() == 0 && error_matches(e, before.1) && after == (
            Seq::<Tok>::empty(),
            End::Eof,
        ) && ((e is Parse && e->Parse_2@.len() == 0) || e is Io),
        None => before.0.len() == 0 && before.1 is Eof && after == (Seq::<Tok>::empty(), End::Eof),
    }
}

/// The catalogue's tokens, with one token of lookahead.
pub struct TokenStream {
    input: Vec<u8>,
    pos: usize,
    line: usize,
    peeked: Option<Result<PoLine, Error>>,
    finished: bool,
}

pub proof fn lemma_newline_at(b: Seq<u8>, i: int)
    requires
        0 <= i <= b.len(),
    ensures
        i <= newline_at(b, i) <= b.len(),
        newline_at(b, i) < b.len() ==> b[newline_at(b, i)] == 10,
    decreases b.len() - i,
{
    if i < b.len() && b[i] != 10 {
        lemma_newline_at(b, i + 1);
    }
}

/// Relies on `std::str::from_utf8`: the text of `b` if it is valid UTF-8.
#[verifier::external_body]
fn decode_line(b: &[u8]) -> (r: Option<String>)
    ensures
        r is Some <==> valid_utf8(b@),
        r matches Some(s) ==> s@ == decode_utf8(b@),
{
    match std::str::from_utf8(b) {
        Ok(s) => Some(s.to_string()),
        Err(_) => None,
    }
}

impl TokenStream {
    /// The tokens still to come and how they end.
    pub closed spec fn view(&self) -> (Seq<Tok>, End) {
        match self.peeked {
            Some(Ok(t)) => {
                let rest = scan(self.input@, self.pos as int, self.line as nat);
                (seq![tok_of(t)] + rest.0, rest.1)
            },
            Some(Err(Error::Parse(l, got, _))) => (Seq::empty(), End::BadLine(l as nat, got@)),
            Some(Err(e)) => (Seq::empty(), End::BadBytes(e->Io_0 as nat)),
            None => if self.finished {
                (Seq::empty(), End::Eof)
            } else {
                scan(self.input@, self.pos as int, self.line as nat)
            },
        }
    }

    /// The internal consistency of the stream.
    pub closed spec fn wf(&self) -> bool {
        &&& self.pos <= self.input@.len()
        &&& self.input@.len() < usize::MAX
        &&& 1 <= self.line <= self.pos + 1
        &&& self.peeked matches Some(Err(e)) ==> (e is Parse && e->Parse_2@.len() == 0) || e is Io
        &&& self.peeked matches Some(Ok(t)) ==> !(t is Blank) && !self.finished
    }

    /// A stream over the lines of `input`, numbered from 1.
    pub fn new(input: Vec<u8>) -> (r: Self)
        requires
            input@.len() < usize::MAX,
        ensures
            r.wf(),
            r.view() == scan(input@, 0, 1),
    {
        TokenStream { input, pos: 0, line: 1, peeked: None, finished: false }
    }

    /// Reads lines until one gives a token, an error, or the input ends.
    fn read(&mut self) -> (r: Option<Result<PoLine, Error>>)
        requires
            old(self).wf(),
            old(self).peeked is None,
            !old(self).finished,
        ensures
            final(self).wf(),
            final(self).peeked is None,
            read_post(
                r,
                scan(old(self).input@, old(self).pos as int, old(self).line as nat),
                final(self).view(),
            ),
            r matches Some(Ok(_)) ==> !final(self).finished,
            r is None ==> final(self).finished,
    {
        let ghost b = self.input@;
        let ghost start = scan(b, self.pos as int, self.line as nat);
        loop
            invariant
                self.wf(),
                self.input@ == b,
                self.peeked is None,
                !self.finished,
                scan(b, self.pos as int, self.line as nat) == start,
                start == scan(old(self).input@, old(self).pos as int, old(self).line as nat),
            decreases b.len() - self.pos,
        {
            if self.pos >= self.input.len() {
                self.finished = true;
                return None;
            }
            proof {
                lemma_newline_at(b, self.pos as int);
            }
            let mut e = self.pos;
            while e < self.input.len() && self.input[e] != 10
                invariant
                    self.pos <= e <= b.len(),
                    self.input@ == b,
                    newline_at(b, e as int) == newline_at(b, self.pos as int),
                decreases b.len() - e,
            {
                e = e + 1;
            }
            let mut end = e;
            if e < self.input.len() && end > self.pos && self.input[end - 1] == 13 {
                end = end - 1;
            }
            let bytes = crate::text::slice_bytes(&self.input, self.pos, end);
            assert(bytes@ == line_bytes(b, self.pos as int));
            let n = self.line;
            let next = if e < self.input.len() {
                e + 1
            } else {
                e
            };
            let ghost here = self.pos as int;
            assert(next == next_line_at(b, here));
            assert(here < next <= b.len());
            match decode_line(bytes.as_slice()) {
                None => {
                    self.finished = true;
                    return Some(Err(Error::Io(n, invalid_data("stream did not contain valid UTF-8"))));
                },
                Some(text) => {
                    assert(text@ == decode_utf8(line_bytes(b, here)));
                    match parse_line(text.as_str(), n) {
                        Err(()) => {
                            self.finished = true;
                            return Some(Err(Error::Parse(n, text, String::new())));
                        },
                        Ok(PoLine::Blank) => {
                            assert(scan(b, here, n as nat) == scan(b, next as int, (n + 1) as nat));
                            self.pos = next;
                            self.line = n + 1;
                        },
                        Ok(t) => {
                            assert(tok_of(t) == Tok { line: n, shape: shape_of(t) });
                            assert(scan(b, here, n as nat).0 == seq![tok_of(t)] + scan(
                                b,
                                next as int,
                                (n + 1) as nat,
                            ).0);
                            assert(scan(b, here, n as nat).1 == scan(
                                b,
                                next as int,
                                (n + 1) as nat,
                            ).1);
                            self.pos = next;
                            self.line = n + 1;
                            assert((seq![tok_of(t)] + scan(b, next as int, (n + 1) as nat).0).drop_first()
                                == scan(b, next as int, (n + 1) as nat).0);
                            return Some(Ok(t));
                        },
                    }
                },
            }
        }
    }

    /// Makes sure the next token, if any, stands in the lookahead slot.
    fn fill(&mut self)
        requires
            old(self).wf(),
        ensures
            final(self).wf(),
            final(self).view() == old(self).view(),
            final(self).peeked is Some || (final(self).finished && final(self).view() == (
                Seq::<Tok>::empty(),
                End::Eof,
            )),
    {
        if self.peeked.is_none() && !self.finished {
            let ghost before = self.view();
            let r = self.read();
            match r {
                Some(x) => {
                    self.peeked = Some(x);
                    proof {
                        if x is Ok {
                            assert(before.0 =~= seq![before.0[0]] + before.0.drop_first());
                        }
                    }
                },
                None => {},
            }
        }
    }
}

/// The flag prefix marks an obsolete entry: it starts with `~`.
pub open spec fn obsolete_prefix(f: Seq<char>) -> bool {
    f.len() > 0 && f[0] == '~'
}

/// A message token whose flag prefix marks it obsolete.
pub open spec fn message_is_obsolete(t: Tok) -> bool {
    t.shape matches Shape::Message(f, _, _) && obsolete_prefix(f)
}

/// A continuation token with the flag prefix `prefix`.
pub open spec fn continues(t: Tok, prefix: Seq<char>) -> bool {
    t.shape matches Shape::Continuation(f, _) && f == prefix
}

/// The end of the run of continuation tokens from `i` on whose flag prefix is `prefix`.
pub open spec fn continuation_run(toks: Seq<Tok>, i: int, prefix: Seq<char>) -> int
    decreases toks.len() - i,
{
    if 0 <= i < toks.len() && continues(toks[i], prefix) {
        continuation_run(toks, i + 1, prefix)
    } else {
        i
    }
}

/// The strings of the continuation tokens `toks[i..j]`, joined.
pub open spec fn joined(toks: Seq<Tok>, i: int, j: int) -> Seq<char>
    decreases j - i,
{
    if j <= i {
        Seq::empty()
    } else {
        joined(toks, i, j - 1) + match toks[j - 1].shape {
            Shape::Continuation(_, s) => s,
            _ => Seq::empty(),
        }
    }
}

/// What fetching `tag` gives.
pub enum Fetched {
    /// The next token is not a `tag` message of the unit's obsoleteness: nothing is consumed.
    Missing,
    /// The string of the message and its continuations, and how many tokens they were.
    Found(Seq<char>, int),
    /// The stream ended on an error before the fetch was over; the error is consumed.
    Failed(End),
}

/// Fetching `tag`: if the next token is a message with that tag whose flag prefix marks it
/// obsolete exactly when `obsolete` holds, it and every following continuation with the same
/// prefix are consumed and their strings joined.
pub open spec fn fetch_spec(v: (Seq<Tok>, End), tag: Seq<char>, obsolete: bool) -> Fetched {
    let (toks, end) = v;
    if toks.len() == 0 {
        if end is Eof {
            Fetched::Missing
        } else {
            Fetched::Failed(end)
        }
    } else {
        match toks[0].shape {
            Shape::Message(f, t, s) => if t == tag && obsolete_prefix(f) == obsolete {
                let j = continuation_run(toks, 1, f);
                if j == toks.len() && !(end is Eof) {
                    Fetched::Failed(end)
                } else {
                    Fetched::Found(s + joined(toks, 1, j), j)
                }
            } else {
                Fetched::Missing
            },
            _ => Fetched::Missing,
        }
    }
}

/// What `expect_end` gives.
pub enum Ending {
    /// The next token starts another unit, or the input is over.
    Clean,
    /// The stream ended on an error; the error is consumed.
    Failed(End),
    /// A token follows: its line number and a description (the flag prefix of a message, `"`
    /// for a continuation, `#` and the kind of a comment). Nothing is consumed.
    Unexpected(nat, Seq<char>),
}

pub open spec fn expect_end_spec(v: (Seq<Tok>, End)) -> Ending {
    let (toks, end) = v;
    if toks.len() == 0 {
        if end is Eof {
            Ending::Clean
        } else {
            Ending::Failed(end)
        }
    } else {
        match toks[0].shape {
            Shape::Blank => Ending::Clean,
            Shape::Message(f, _, _) => Ending::Unexpected(toks[0].line as nat, f),
            Shape::Continuation(_, _) => Ending::Unexpected(toks[0].line as nat, "\""@),
            Shape::Comment(k, _) => Ending::Unexpected(toks[0].line as nat, "#"@.push(k)),
        }
    }
}

pub proof fn lemma_run_bounds(toks: Seq<Tok>, i: int, prefix: Seq<char>)
    requires
        0 <= i <= toks.len(),
    ensures
        i <= continuation_run(toks, i, prefix) <= toks.len(),
    decreases toks.len() - i,
{
    if i < toks.len() && continues(toks[i], prefix) {
        lemma_run_bounds(toks, i + 1, prefix);
    }
}

fn is_obsolete_prefix(p: &String) -> (r: bool)
    ensures
        r == obsolete_prefix(p@),
{
    let v = crate::text::chars_of(p.as_str());
    v.len() > 0 && v[0] == '~'
}

impl TokenStream {
    /// Takes the next token, or the error the stream ends on.
    pub fn next_token(&mut self) -> (r: Option<Result<PoLine, Error>>)
        requires
            old(self).wf(),
        ensures
            final(self).wf(),
            read_post(r, old(self).view(), final(self).view()),
    {
        self.fill();
        let ghost before = self.view();
        match self.peeked.take() {
            Some(Ok(t)) => {
                proof {
                    assert(before.0.drop_first() =~= scan(
                        self.input@,
                        self.pos as int,
                        self.line as nat,
                    ).0);
                }
                Some(Ok(t))
            },
            Some(Err(e)) => {
                self.finished = true;
                Some(Err(e))
            },
            None => None,
        }
    }

    /// The line number of the next token, and whether that token is a message whose flag prefix
    /// marks it obsolete; `None` when no token is left.
    pub fn peek_line(&mut self) -> (r: Option<(usize, bool)>)
        requires
            old(self).wf(),
        ensures
            final(self).wf(),
            final(self).view() == old(self).view(),
            old(self).view().0.len() > 0 ==> r == Some(
                (old(self).view().0[0].line, message_is_obsolete(old(self).view().0[0])),
            ),
            old(self).view().0.len() == 0 ==> r is None,
    {
        self.fill();
        match &self.peeked {
            Some(Ok(PoLine::Message(n, p, _, _))) => Some((*n, is_obsolete_prefix(p))),
            Some(Ok(t)) => Some((t.line(), false)),
            _ => None,
        }
    }

    /// Consumes the error the stream ends on, if no token is left before it.
    pub fn take_error(&mut self) -> (r: Option<Error>)
        requires
            old(self).wf(),
        ensures
            final(self).wf(),
            if old(self).view().0.len() == 0 && !(old(self).view().1 is Eof) {
                r matches Some(e) && error_matches(e, old(self).view().1) && final(self).view() == (
                    Seq::<Tok>::empty(),
                    End::Eof,
                )
            } else {
                r is None && final(self).view() == old(self).view()
            },
    {
        self.fill();
        let is_err = match &self.peeked {
            Some(Err(_)) => true,
            _ => false,
        };
        if is_err {
            match self.next_token() {
                Some(Err(e)) => Some(e),
                _ => None,
            }
        } else {
            None
        }
    }

    /// The next token is a comment.
    pub fn at_comment(&mut self) -> (r: bool)
        requires
            old(self).wf(),
        ensures
            final(self).wf(),
            final(self).view() == old(self).view(),
            r == (old(self).view().0.len() > 0 && old(self).view().0[0].shape is Comment),
    {
        self.fill();
        match &self.peeked {
            Some(Ok(PoLine::Comment(..))) => true,
            _ => false,
        }
    }

    /// Consumes a message `tag` of the given obsoleteness and its continuations (see
    /// `fetch_spec`).
    pub fn fetch(&mut self, tag: &str, obsolete: bool) -> (r: Result<Option<String>, Error>)
        requires
            old(self).wf(),
        ensures
            final(self).wf(),
            match fetch_spec(old(self).view(), tag@, obsolete) {
                Fetched::Missing => r == Ok::<Option<String>, Error>(None) && final(self).view()
                    == old(self).view(),
                Fetched::Found(s, j) => r matches Ok(Some(x)) && x@ == s && final(self).view() == (
                    old(self).view().0.subrange(j, old(self).view().0.len() as int),
                    old(self).view().1,
                ),
                Fetched::Failed(e) => r matches Err(err) && error_matches(err, e)
                    && final(self).view() == (Seq::<Tok>::empty(), End::Eof),
            },
    {
        let ghost v0 = self.view();
        let ghost toks = v0.0;
        let ghost end = v0.1;
        self.fill();
        let wanted = String::from_str(tag);
        let head_ok = match &self.peeked {
            Some(Ok(PoLine::Message(_, p, t, _))) => *t == wanted && is_obsolete_prefix(p) == obsolete,
            Some(Err(_)) => {
                let e = self.next_token();
                match e {
                    Some(Err(err)) => {
                        return Err(err);
                    },
                    _ => {
                        return Ok(None);
                    },
                }
            },
            _ => false,
        };
        if !head_ok {
            return Ok(None);
        }
        let (prefix, mut text) = match self.next_token() {
            Some(Ok(PoLine::Message(_, p, _, s))) => (p, s),
            _ => {
                return Ok(None);
            },
        };
        let ghost f = prefix@;
        proof {
            lemma_run_bounds(toks, 1, f);
        }
        let ghost mut k: int = 1;
        assert(joined(toks, 1, 1) == Seq::<char>::empty());
        assert(text@ == text@ + Seq::<char>::empty());
        loop
            invariant
                self.wf(),
                v0 == old(self).view(),
                toks == v0.0,
                end == v0.1,
                1 <= k <= continuation_run(toks, 1, f) <= toks.len(),
                continuation_run(toks, k, f) == continuation_run(toks, 1, f),
                self.view() == (toks.subrange(k, toks.len() as int), end),
                prefix@ == f,
                toks[0].shape matches Shape::Message(ff, _, s0) && ff == f && text@ == s0 + joined(
                    toks,
                    1,
                    k,
                ),
                fetch_spec(v0, tag@, obsolete) == (if continuation_run(toks, 1, f) == toks.len()
                    && !(end is Eof) {
                    Fetched::Failed(end)
                } else {
                    Fetched::Found(toks[0].shape->Message_2 + joined(toks, 1, continuation_run(toks, 1, f)), continuation_run(toks, 1, f))
                }),
            ensures
                self.wf(),
                fetch_spec(old(self).view(), tag@, obsolete) == Fetched::Found(text@, k),
                self.view() == (toks.subrange(k, toks.len() as int), end),
                toks == old(self).view().0,
                end == old(self).view().1,
            decreases toks.len() - k,
        {
            self.fill();
            let ghost vk = self.view();
            assert(vk.0 == toks.subrange(k, toks.len() as int));
            let mut more = false;
            match &self.peeked {
                Some(Ok(PoLine::Continuation(_, p, _))) => {
                    if *p == prefix {
                        more = true;
                        assert(vk.0[0] == toks[k]);
                        assert(continues(toks[k], f));
                    } else {
                        assert(vk.0[0] == toks[k]);
                    }
                },
                Some(Err(_)) => {
                    more = true;
                    assert(k == toks.len());
                },
                Some(Ok(t)) => {
                    assert(vk.0[0] == toks[k]);
                },
                None => {
                    assert(vk == (Seq::<Tok>::empty(), End::Eof));
                },
            }
            if !more {
                assert(!(k == toks.len() && !(end is Eof)));
                assert(k == toks.len() || !continues(toks[k], f));
                assert(continuation_run(toks, k, f) == k);
                break;
            }
            match self.next_token() {
                Some(Ok(PoLine::Continuation(_, _, s))) => {
                    proof {
                        assert(continuation_run(toks, k, f) == continuation_run(toks, k + 1, f));
                        lemma_run_bounds(toks, k + 1, f);
                        assert(joined(toks, 1, k + 1) == joined(toks, 1, k) + s@);
                        assert(toks.subrange(k, toks.len() as int)[0] == toks[k]);
                        assert(toks.subrange(k + 1, toks.len() as int) =~= toks.subrange(
                            k,
                            toks.len() as int,
                        ).drop_first());
                    }
                    assert(text@ + s@ == toks[0].shape->Message_2 + joined(toks, 1, k + 1));
                    text.append(s.as_str());
                    proof {
                        k = k + 1;
                    }
                },
                Some(Err(err)) => {
                    assert(toks.subrange(k, toks.len() as int).len() == 0);
                    return Err(err);
                },
                _ => {
                    return Ok(None);
                },
            }
        }
        Ok(Some(text))
    }

    /// Succeeds when the next token starts another unit or the input is over; fails with a
    /// parse error naming `exp` when another token follows, or with the error the stream ends
    /// on.
    pub fn expect_end(&mut self, exp: &str) -> (r: Result<(), Error>)
        requires
            old(self).wf(),
        ensures
            final(self).wf(),
            match expect_end_spec(old(self).view()) {
                Ending::Clean => r is Ok && final(self).view() == old(self).view(),
                Ending::Failed(e) => r matches Err(err) && error_matches(err, e) && final(self).view()
                    == (Seq::<Tok>::empty(), End::Eof),
                Ending::Unexpected(line, got) => r matches Err(Error::Parse(l, g, x)) && l == line
                    && g@ == got && x@ == exp@ && final(self).view() == old(self).view(),
            },
    {
        self.fill();
        match &self.peeked {
            None => Ok(()),
            Some(Ok(PoLine::Blank)) => Ok(()),
            Some(Err(_)) => match self.next_token() {
                Some(Err(err)) => Err(err),
                _ => Ok(()),
            },
            Some(Ok(PoLine::Message(n, p, ..))) => Err(Error::Parse(*n, p.clone(), String::from_str(exp))),
            Some(Ok(PoLine::Continuation(n, ..))) => Err(Error::Parse(*n, String::from_str("\""), String::from_str(exp))),
            Some(Ok(PoLine::Comment(n, c, ..))) => {
                let got = String::from_str("#").concat(crate::text::string_of(&[*c]).as_str());
                Err(Error::Parse(*n, got, String::from_str(exp)))
            },
        }
    }
}

} // verus!
