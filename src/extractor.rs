//! Assembly of one unit's context, message, previous context and previous message from the
//! token stream.
use crate::error::Error;
use crate::forms::PluralForms;
use crate::message::Message;
use crate::plural::Plural;
use crate::stream::{
    error_matches, expect_end_spec, fetch_spec, End, Ending, Fetched, Tok, TokenStream,
};
use crate::text::{decimal, decimal_text};
use crate::unit::Unit;
use std::rc::Rc;
use vstd::prelude::*;
use vstd::string::StringExecFns;

verus! {

/// The tokens still to come and how they end.
pub type Pending = (Seq<Tok>, End);

/// One fetch: its result (or the end the stream failed on) and the stream after it.
#[verifier::opaque]
pub open spec fn step(v: Pending, tag: Seq<char>, obsolete: bool) -> (Result<Option<Seq<char>>, End>, Pending) {
    match fetch_spec(v, tag, obsolete) {
        Fetched::Missing => (Ok(None), v),
        Fetched::Found(s, j) => (Ok(Some(s)), (v.0.subrange(j, v.0.len() as int), v.1)),
        Fetched::Failed(e) => (Err(e), (Seq::empty(), End::Eof)),
    }
}

/// The tag of the plural variant `i`: `msgstr[i]`.
pub open spec fn variant_tag(i: nat) -> Seq<char> {
    "msgstr["@ + decimal(i) + "]"@
}

/// Fetches the variants `i..count` in order, keeping those present.
pub open spec fn variants(v: Pending, i: nat, count: nat, obsolete: bool) -> (Result<Seq<Seq<char>>, End>, Pending)
    decreases count - i,
{
    if i >= count {
        (Ok(Seq::empty()), v)
    } else {
        let (x, v1) = step(v, variant_tag(i), obsolete);
        match x {
            Err(e) => (Err(e), v1),
            Ok(x) => {
                let (rest, v2) = variants(v1, i + 1, count, obsolete);
                match rest {
                    Ok(vals) => (Ok(match x {
                        Some(s) => seq![s] + vals,
                        None => vals,
                    }), v2),
                    Err(e) => (Err(e), v2),
                }
            },
        }
    }
}

/// Why assembly failed.
pub enum Failure {
    /// The stream ended on an error.
    Stream(End),
    /// A token followed where the named construct was expected: line and description.
    Parse(nat, Seq<char>, Seq<char>),
    /// The named construct is missing and nothing else follows.
    Missing(Seq<char>),
    /// A unit other than the first has an empty source id: its line.
    EmptySource(nat),
}

/// The strings that make a unit's message fields.
pub struct Fields {
    pub prev_context: Option<Seq<char>>,
    pub prev_id: Option<Seq<char>>,
    pub prev_plural: Option<Seq<char>>,
    pub context: Option<Seq<char>>,
    pub id: Option<Seq<char>>,
    pub plural: Option<Seq<char>>,
    pub text: Seq<char>,
    pub values: Seq<Seq<char>>,
}

/// The outcome of assembly.
pub enum Assembled {
    Failed(Failure),
    /// No unit starts here.
    NoUnit,
    Built(Fields),
}

/// Where `expect_end` leaves a failure for the missing `what`.
pub open spec fn end_failure(v: Pending, what: Seq<char>) -> (Assembled, Pending) {
    match expect_end_spec(v) {
        Ending::Clean => (Assembled::Failed(Failure::Missing(what)), v),
        Ending::Failed(e) => (Assembled::Failed(Failure::Stream(e)), (Seq::empty(), End::Eof)),
        Ending::Unexpected(l, got) => (Assembled::Failed(Failure::Parse(l, got, what)), v),
    }
}

/// The second half of assembly: from `msgid_plural` on.
pub open spec fn assemble_message(
    v5: Pending,
    obsolete: bool,
    count: nat,
    f: Fields,
) -> (Assembled, Pending) {
    let (pl, v6) = step(v5, "msgid_plural"@, obsolete);
    match pl {
        Err(e) => (Assembled::Failed(Failure::Stream(e)), v6),
        Ok(pl) => if f.id is None {
            (Assembled::Built(Fields { plural: pl, ..f }), v6)
        } else if pl is None {
            let (t, v7) = step(v6, "msgstr"@, obsolete);
            match t {
                Err(e) => (Assembled::Failed(Failure::Stream(e)), v7),
                Ok(Some(t)) => (Assembled::Built(Fields { plural: pl, text: t, ..f }), v7),
                Ok(None) => end_failure(v7, "msgstr"@),
            }
        } else {
            let (vals, v7) = variants(v6, 0, count, obsolete);
            match vals {
                Err(e) => (Assembled::Failed(Failure::Stream(e)), v7),
                Ok(vals) => if vals.len() == 0 {
                    end_failure(v7, "msgstr[0]"@)
                } else {
                    (Assembled::Built(Fields { plural: pl, values: vals, ..f }), v7)
                },
            }
        },
    }
}

/// Assembly of one unit from the tokens `v`: previous context, previous id and (only after a
/// previous id) previous plural id, then context and id; without an id a unit other than the
/// first ends here; then the plural id, then `msgstr`, or the `count` variants `msgstr[i]`.
pub open spec fn assemble(v: Pending, obsolete: bool, first: bool, count: nat) -> (Assembled, Pending) {
    let (pc, v1) = step(v, "|msgctxt"@, obsolete);
    let (pid, v2) = step(v1, "|msgid"@, obsolete);
    let (ppl, v3) = if pid matches Ok(Some(_)) {
        step(v2, "|msgid_plural"@, obsolete)
    } else {
        (Ok(None), v2)
    };
    let (ctx, v4) = step(v3, "msgctxt"@, obsolete);
    let (id, v5) = step(v4, "msgid"@, obsolete);
    if pc is Err {
        (Assembled::Failed(Failure::Stream(pc->Err_0)), v1)
    } else if pid is Err {
        (Assembled::Failed(Failure::Stream(pid->Err_0)), v2)
    } else if ppl is Err {
        (Assembled::Failed(Failure::Stream(ppl->Err_0)), v3)
    } else if ctx is Err {
        (Assembled::Failed(Failure::Stream(ctx->Err_0)), v4)
    } else if id is Err {
        (Assembled::Failed(Failure::Stream(id->Err_0)), v5)
    } else if !first && id->Ok_0 is None {
        match expect_end_spec(v5) {
            Ending::Clean => (Assembled::NoUnit, v5),
            Ending::Failed(e) => (Assembled::Failed(Failure::Stream(e)), (Seq::empty(), End::Eof)),
            Ending::Unexpected(l, got) => (Assembled::Failed(Failure::Parse(l, got, "msgid"@)), v5),
        }
    } else {
        assemble_message(
            v5,
            obsolete,
            count,
            Fields {
                prev_context: pc->Ok_0,
                prev_id: pid->Ok_0,
                prev_plural: ppl->Ok_0,
                context: ctx->Ok_0,
                id: id->Ok_0,
                plural: None,
                text: Seq::empty(),
                values: Seq::empty(),
            },
        )
    }
}

/// The error that reports a failure.
pub open spec fn failure_matches(err: Error, f: Failure) -> bool {
    match f {
        Failure::Stream(e) => error_matches(err, e),
        Failure::Parse(l, got, exp) => err matches Error::Parse(el, g, x) && el == l && g@ == got
            && x@ == exp,
        Failure::Missing(what) => err matches Error::Unexpected(0, m) && m@ == "expected "@ + what,
        Failure::EmptySource(l) => err matches Error::Unexpected(el, m) && el == l && m@
            == "Source should not be empty"@,
    }
}

/// The view of an optional string.
pub open spec fn opt_view(o: Option<String>) -> Option<Seq<char>> {
    match o {
        Some(s) => Some(s@),
        None => None,
    }
}

/// The message that fields give, `forms` shared by a plural set.
pub open spec fn message_matches(m: Message, f: Fields, forms: Option<Rc<PluralForms>>) -> bool {
    match f.id {
        None => m matches Message::Simple { id, text } && id@.len() == 0 && text is None,
        Some(id) => match f.plural {
            None => m matches Message::Simple { id: mid, text } && mid@ == id && opt_view(text) == (
            if f.text.len() == 0 {
                None
            } else {
                Some(f.text)
            }),
            Some(pl) => m matches Message::Plural(p) && p.singular@ == id && p.plural@ == pl
                && p.values@.map_values(|s: String| s@) == f.values && p.forms == forms,
        },
    }
}

/// The previous message that fields give.
pub open spec fn previous_matches(m: Message, f: Fields, forms: Option<Rc<PluralForms>>) -> bool {
    match f.prev_id {
        None => m matches Message::Simple { id, text } && id@.len() == 0 && text is None,
        Some(id) => match f.prev_plural {
            None => m matches Message::Simple { id: mid, text } && mid@ == id && text is None,
            Some(pl) => m matches Message::Plural(p) && p.singular@ == id && p.plural@ == pl
                && p.values@.len() == 0 && p.forms == forms,
        },
    }
}

/// The unit `u` is `before` with the fields filled in.
pub open spec fn unit_matches(u: Unit, before: Unit, f: Fields, forms: Option<Rc<PluralForms>>) -> bool {
    &&& opt_view(u.prev_context) == f.prev_context
    &&& opt_view(u.context) == f.context
    &&& message_matches(u.message, f, forms)
    &&& previous_matches(u.prev_message, f, forms)
    &&& u.flags == before.flags
    &&& u.notes == before.notes
    &&& u.locations == before.locations
    &&& u.comments == before.comments
    &&& u.state == before.state
    &&& u.obsolete == before.obsolete
}

/// The number of variants to fetch: the declared count, 2 without forms.
pub open spec fn variant_count(forms: Option<Rc<PluralForms>>) -> nat {
    match forms {
        Some(f) => f.count as nat,
        None => 2,
    }
}

/// What assembling gives and leaves.
pub open spec fn assembly_post(
    r: Result<Option<Unit>, Error>,
    out: (Assembled, Pending),
    after: Pending,
    before: Unit,
    forms: Option<Rc<PluralForms>>,
) -> bool {
    &&& after == out.1
    &&& match out.0 {
        Assembled::Failed(f) => r matches Err(e) && failure_matches(e, f),
        Assembled::NoUnit => r matches Ok(None),
        Assembled::Built(fl) => r matches Ok(Some(u)) && unit_matches(u, before, fl, forms),
    }
}

/// Joins the variants gathered so far with the outcome of fetching the rest.
pub open spec fn gathered(acc: Seq<Seq<char>>, rest: (Result<Seq<Seq<char>>, End>, Pending)) -> (Result<Seq<Seq<char>>, End>, Pending) {
    match rest.0 {
        Ok(vals) => (Ok(acc + vals), rest.1),
        Err(e) => (Err(e), rest.1),
    }
}

/// Assembles one unit, obsolete as `unit.obsolete` says, from the stream (see `assemble`).
pub struct MessageExtractor {
    pub unit: Unit,
    pub plural_forms: Option<Rc<PluralForms>>,
}

impl MessageExtractor {
    pub fn new(unit: Unit, plural_forms: Option<Rc<PluralForms>>) -> (r: Self)
        ensures
            r.unit == unit,
            r.plural_forms == plural_forms,
    {
        MessageExtractor { unit, plural_forms }
    }

    /// The shared forms.
    pub fn plural_forms(&self) -> (r: Option<Rc<PluralForms>>)
        ensures
            r == self.plural_forms,
    {
        match &self.plural_forms {
            Some(f) => Some(Rc::clone(f)),
            None => None,
        }
    }

    /// The previous message: none without a previous id, a simple message without text, or a
    /// plural set without variants.
    pub fn new_previous(&self, msgid: Option<String>, msgid_pl: Option<String>) -> (r: Message)
        ensures
            previous_matches(
                r,
                Fields {
                    prev_context: None,
                    prev_id: opt_view(msgid),
                    prev_plural: opt_view(msgid_pl),
                    context: None,
                    id: None,
                    plural: None,
                    text: Seq::empty(),
                    values: Seq::empty(),
                },
                self.plural_forms,
            ),
    {
        match msgid {
            None => Message::default(),
            Some(singular) => match msgid_pl {
                None => Message::Simple { id: singular, text: None },
                Some(plural) => Message::Plural(
                    Plural::new(singular, plural, Vec::new(), self.plural_forms()),
                ),
            },
        }
    }
}

/// One fetch, stated as a `step`.
fn fetch_step(stream: &mut TokenStream, tag: &str, obsolete: bool) -> (r: Result<Option<String>, Error>)
    requires
        old(stream).wf(),
    ensures
        final(stream).wf(),
        step(old(stream).view(), tag@, obsolete).1 == final(stream).view(),
        match step(old(stream).view(), tag@, obsolete).0 {
            Ok(x) => r matches Ok(y) && opt_view(y) == x,
            Err(e) => r matches Err(err) && error_matches(err, e),
        },
{
    proof {
        reveal(step);
    }
    stream.fetch(tag, obsolete)
}

/// The tag of the plural variant `i`.
fn variant_tag_text(i: usize) -> (r: String)
    ensures
        r@ == variant_tag(i as nat),
{
    String::from_str("msgstr[").concat(decimal_text(i).as_str()).concat("]")
}

/// The error for a missing `what` with nothing else following.
fn missing(what: &str) -> (r: Error)
    ensures
        failure_matches(r, Failure::Missing(what@)),
{
    Error::Unexpected(0, String::from_str("expected ").concat(what))
}

/// Checks for a missing `what` (see `end_failure`); never `Ok`.
fn fail_missing(stream: &mut TokenStream, what: &str) -> (r: Error)
    requires
        old(stream).wf(),
    ensures
        final(stream).wf(),
        end_failure(old(stream).view(), what@).1 == final(stream).view(),
        end_failure(old(stream).view(), what@).0 matches Assembled::Failed(f) && failure_matches(r, f),
{
    match stream.expect_end(what) {
        Ok(()) => missing(what),
        Err(e) => e,
    }
}

impl MessageExtractor {
    /// Fetches the plural variants.
    fn fetch_variants(&self, stream: &mut TokenStream, obsolete: bool) -> (r: Result<Vec<String>, Error>)
        requires
            old(stream).wf(),
        ensures
            final(stream).wf(),
            variants(old(stream).view(), 0, variant_count(self.plural_forms), obsolete).1 == final(stream).view(),
            match variants(old(stream).view(), 0, variant_count(self.plural_forms), obsolete).0 {
                Ok(vals) => r matches Ok(v) && v@.map_values(|s: String| s@) == vals,
                Err(e) => r matches Err(err) && error_matches(err, e),
            },
    {
        let count: usize = match &self.plural_forms {
            Some(f) => f.count,
            None => 2,
        };
        let ghost total = variant_count(self.plural_forms);
        assert(count as nat == total);
        let ghost v0 = stream.view();
        let mut values: Vec<String> = Vec::new();
        let mut i: usize = 0;
        assert(gathered(Seq::empty(), variants(v0, 0, total, obsolete)) == variants(v0, 0, total, obsolete)) by {
            let rest = variants(v0, 0, total, obsolete);
            if rest.0 is Ok {
                assert(Seq::<Seq<char>>::empty() + rest.0->Ok_0 =~= rest.0->Ok_0);
            }
        }
        while i < count
            invariant
                stream.wf(),
                i <= count,
                count as nat == total,
                total == variant_count(self.plural_forms),
                v0 == old(stream).view(),
                variants(v0, 0, total, obsolete) == gathered(
                    values@.map_values(|s: String| s@),
                    variants(stream.view(), i as nat, total, obsolete),
                ),
            decreases count - i,
        {
            let ghost vi = stream.view();
            let tag = variant_tag_text(i);
            let ghost acc = values@.map_values(|s: String| s@);
            match fetch_step(stream, tag.as_str(), obsolete) {
                Err(e) => {
                    proof {
                        let st = step(vi, variant_tag(i as nat), obsolete);
                        assert(st.0 is Err);
                        assert(variants(vi, i as nat, total, obsolete).0 == Err::<Seq<Seq<char>>, End>(st.0->Err_0));
                        assert(variants(vi, i as nat, total, obsolete).1 == st.1);
                    }
                    return Err(e);
                },
                Ok(x) => {
                    let ghost rest = variants(stream.view(), (i + 1) as nat, total, obsolete);
                    match x {
                        Some(s) => {
                            proof {
                                assert(values@.push(s).map_values(|s: String| s@) =~= acc.push(s@));
                                if rest.0 is Ok {
                                    assert(acc + (seq![s@] + rest.0->Ok_0) =~= acc.push(s@) + rest.0->Ok_0);
                                }
                            }
                            values.push(s);
                        },
                        None => {},
                    }
                },
            }
            i = i + 1;
        }
        proof {
            let acc = values@.map_values(|s: String| s@);
            assert(acc + Seq::<Seq<char>>::empty() =~= acc);
        }
        Ok(values)
    }

    /// Builds the message from the id and the plural id, fetching its translations: the
    /// default message without an id, else `msgstr`, else the plural variants.
    pub fn new_message(&self, stream: &mut TokenStream, msgid: Option<String>, msgid_pl: Option<String>) -> (r: Result<Option<Message>, Error>)
        requires
            old(stream).wf(),
        ensures
            final(stream).wf(),
            ({
                let out = assemble_message_rest(old(stream).view(), self.unit.obsolete, variant_count(self.plural_forms), message_fields(opt_view(msgid)), opt_view(msgid_pl));
                &&& final(stream).view() == out.1
                &&& match out.0 {
                    Assembled::Failed(fl) => r matches Err(e) && failure_matches(e, fl),
                    Assembled::NoUnit => false,
                    Assembled::Built(fl) => r matches Ok(Some(m)) && message_matches(m, fl, self.plural_forms),
                }
            }),
    {
        let obs = self.unit.obsolete;
        let singular = match msgid {
            None => {
                return Ok(Some(Message::default()));
            },
            Some(s) => s,
        };
        match msgid_pl {
            None => match fetch_step(stream, "msgstr", obs) {
                Err(e) => Err(e),
                Ok(Some(text)) => {
                    let t = if text.as_str().is_empty() {
                        None
                    } else {
                        Some(text)
                    };
                    proof {
                        if opt_view(t) is None && text@.len() == 0 {
                            assert(text@ =~= Seq::<char>::empty());
                        }
                    }
                    Ok(Some(Message::Simple { id: singular, text: t }))
                },
                Ok(None) => Err(fail_missing(stream, "msgstr")),
            },
            Some(plural) => match self.fetch_variants(stream, obs) {
                Err(e) => Err(e),
                Ok(values) => {
                    if values.len() == 0 {
                        Err(fail_missing(stream, "msgstr[0]"))
                    } else {
                        Ok(Some(Message::Plural(Plural::new(singular, plural, values, self.plural_forms()))))
                    }
                },
            },
        }
    }
}

impl MessageExtractor {
    /// Assembles the unit (see `assemble`): `Ok(None)` when no unit starts here.
    pub fn parse_message_fields(self, stream: &mut TokenStream, first: bool) -> (r: Result<Option<Unit>, Error>)
        requires
            old(stream).wf(),
        ensures
            final(stream).wf(),
            assembly_post(
                r,
                assemble(old(stream).view(), self.unit.obsolete, first, variant_count(self.plural_forms)),
                final(stream).view(),
                self.unit,
                self.plural_forms,
            ),
    {
        let obs = self.unit.obsolete;
        let prev_context = match fetch_step(stream, "|msgctxt", obs) {
            Err(e) => {
                return Err(e);
            },
            Ok(x) => x,
        };
        let prev_msgid = match fetch_step(stream, "|msgid", obs) {
            Err(e) => {
                return Err(e);
            },
            Ok(x) => x,
        };
        let prev_msgid_pl = if prev_msgid.is_some() {
            match fetch_step(stream, "|msgid_plural", obs) {
                Err(e) => {
                    return Err(e);
                },
                Ok(x) => x,
            }
        } else {
            None
        };
        let ghost prev_id_view = opt_view(prev_msgid);
        let ghost prev_pl_view = opt_view(prev_msgid_pl);
        let prev_message = self.new_previous(prev_msgid, prev_msgid_pl);
        let context = match fetch_step(stream, "msgctxt", obs) {
            Err(e) => {
                return Err(e);
            },
            Ok(x) => x,
        };
        let msgid = match fetch_step(stream, "msgid", obs) {
            Err(e) => {
                return Err(e);
            },
            Ok(x) => x,
        };
        if !first && msgid.is_none() {
            return match stream.expect_end("msgid") {
                Err(e) => Err(e),
                Ok(()) => Ok(None),
            };
        }
        let msgid_pl = match fetch_step(stream, "msgid_plural", obs) {
            Err(e) => {
                return Err(e);
            },
            Ok(x) => x,
        };
        let ghost f = Fields {
            prev_context: opt_view(prev_context),
            prev_id: prev_id_view,
            prev_plural: prev_pl_view,
            context: opt_view(context),
            id: opt_view(msgid),
            plural: None,
            text: Seq::empty(),
            values: Seq::empty(),
        };
        proof {
            lemma_rest_frame(
                stream.view(),
                obs,
                variant_count(self.plural_forms),
                f,
                message_fields(f.id),
                opt_view(msgid_pl),
            );
        }
        let message = match self.new_message(stream, msgid, msgid_pl) {
            Err(e) => {
                return Err(e);
            },
            Ok(Some(m)) => m,
            Ok(None) => {
                return Ok(None);
            },
        };
        let mut unit = self.unit;
        unit.prev_context = prev_context;
        unit.prev_message = prev_message;
        unit.context = context;
        unit.message = message;
        Ok(Some(unit))
    }
}

/// The fields of a message with the source id `id` and nothing else yet.
pub open spec fn message_fields(id: Option<Seq<char>>) -> Fields {
    Fields {
        prev_context: None,
        prev_id: None,
        prev_plural: None,
        context: None,
        id,
        plural: None,
        text: Seq::empty(),
        values: Seq::empty(),
    }
}

/// Fields other than the message's own are carried through `assemble_message_rest` unread.
pub proof fn lemma_rest_frame(v: Pending, obsolete: bool, count: nat, f: Fields, g: Fields, pl: Option<Seq<char>>)
    requires
        f.id == g.id,
        f.plural == g.plural,
        f.text == g.text,
        f.values == g.values,
    ensures
        ({
            let a = assemble_message_rest(v, obsolete, count, f, pl);
            let b = assemble_message_rest(v, obsolete, count, g, pl);
            &&& a.1 == b.1
            &&& (a.0 is Built <==> b.0 is Built)
            &&& !(a.0 is Built) ==> a.0 == b.0
            &&& a.0 is Built ==> {
                let x = a.0->Built_0;
                let y = b.0->Built_0;
                &&& x.id == y.id && x.plural == y.plural && x.text == y.text && x.values == y.values
                &&& x.prev_context == f.prev_context && x.prev_id == f.prev_id
                &&& x.prev_plural == f.prev_plural && x.context == f.context
            }
        }),
{
}

/// `assemble_message` once the plural id has been fetched.
pub open spec fn assemble_message_rest(v6: Pending, obsolete: bool, count: nat, f: Fields, pl: Option<Seq<char>>) -> (Assembled, Pending) {
    if f.id is None {
        (Assembled::Built(Fields { plural: pl, ..f }), v6)
    } else if pl is None {
        let (t, v7) = step(v6, "msgstr"@, obsolete);
        match t {
            Err(e) => (Assembled::Failed(Failure::Stream(e)), v7),
            Ok(Some(t)) => (Assembled::Built(Fields { plural: pl, text: t, ..f }), v7),
            Ok(None) => end_failure(v7, "msgstr"@),
        }
    } else {
        let (vals, v7) = variants(v6, 0, count, obsolete);
        match vals {
            Err(e) => (Assembled::Failed(Failure::Stream(e)), v7),
            Ok(vals) => if vals.len() == 0 {
                end_failure(v7, "msgstr[0]"@)
            } else {
                (Assembled::Built(Fields { plural: pl, values: vals, ..f }), v7)
            },
        }
    }
}

} // verus!
