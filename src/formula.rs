//! The `Plural-Forms` selector expressions: syntax tree and evaluation.
use crate::error::Error;
use crate::grammar::{
    lex, lex_from, parse_expression, parse_level, parse_tail, parse_tokens, tokens_of, Expected,
    Lexeme,
};
use crate::text::{chars_of, decimal, skip_whitespace, slice_chars, trim_end_index, trimmed};
use vstd::prelude::*;
use vstd::wrapping::i64_specs::{signed_crop, wrapping_add, wrapping_mul, wrapping_sub};

verus! {

/// Unary operators of the plural expressions.
#[derive(Copy, Clone, Eq, PartialEq, Hash, Debug)]
pub enum UnOp {
    Neg,
    Not,
}

/// Binary operators of the plural expressions.
#[derive(Copy, Clone, Eq, PartialEq, Hash, Debug)]
pub enum BinOp {
    Add,
    Sub,
    Mul,
    Div,
    Mod,
    And,
    Or,
    Eq,
    Ne,
    Lt,
    Lte,
    Gt,
    Gte,
}

/// Syntax tree of a plural expression over the count `n`.
#[derive(Debug, PartialEq, Eq)]
pub enum Node {
    Var,
    Num(i64),
    UnOp { op: UnOp, rhs: Box<Node> },
    BinOp { op: BinOp, lhs: Box<Node>, rhs: Box<Node> },
    Cond { test: Box<Node>, if_true: Box<Node>, if_false: Box<Node> },
}

/// The absolute value of `a`.
pub open spec fn magnitude(a: int) -> nat {
    if a < 0 {
        (-a) as nat
    } else {
        a as nat
    }
}

/// Division truncated toward zero, wrapped into 64 bits (only `MIN / -1` wraps).
pub open spec fn quotient(a: i64, b: i64) -> i64 {
    let q = (magnitude(a as int) / magnitude(b as int)) as int;
    if (a < 0) == (b < 0) {
        signed_crop(q)
    } else {
        signed_crop(-q)
    }
}

/// Remainder of the division truncated toward zero: it takes the sign of the dividend.
pub open spec fn remainder(a: i64, b: i64) -> i64 {
    let r = (magnitude(a as int) % magnitude(b as int)) as int;
    if a < 0 {
        (-r) as i64
    } else {
        r as i64
    }
}

/// 1 for true, 0 for false.
pub open spec fn num_of(b: bool) -> i64 {
    if b {
        1
    } else {
        0
    }
}

/// What a division by zero gives: the largest value for a non-negative dividend, the
/// smallest otherwise.
pub open spec fn infinity_of(v: i64) -> i64 {
    if v < 0 {
        i64::MIN
    } else {
        i64::MAX
    }
}

/// The value of a binary operation on two evaluated operands (the operators `&&` and `||`
/// included: their right operand has no effect beyond its value).
pub open spec fn apply_binop(op: BinOp, l: i64, r: i64) -> i64 {
    match op {
        BinOp::Add => wrapping_add(l, r),
        BinOp::Sub => wrapping_sub(l, r),
        BinOp::Mul => wrapping_mul(l, r),
        BinOp::Div => if r != 0 {
            quotient(l, r)
        } else {
            infinity_of(l)
        },
        BinOp::Mod => if r != 0 {
            remainder(l, r)
        } else {
            l
        },
        BinOp::And => num_of(l != 0 && r != 0),
        BinOp::Or => num_of(l != 0 || r != 0),
        BinOp::Eq => num_of(l == r),
        BinOp::Ne => num_of(l != r),
        BinOp::Lt => num_of(l < r),
        BinOp::Lte => num_of(l <= r),
        BinOp::Gt => num_of(l > r),
        BinOp::Gte => num_of(l >= r),
    }
}

/// The value of an expression for the count `n`.
pub open spec fn eval(node: Node, n: i64) -> i64
    decreases node,
{
    match node {
        Node::Var => n,
        Node::Num(v) => v,
        Node::UnOp { op, rhs } => match op {
            UnOp::Not => num_of(eval(*rhs, n) == 0),
            UnOp::Neg => wrapping_sub(0, eval(*rhs, n)),
        },
        Node::BinOp { op, lhs, rhs } => apply_binop(op, eval(*lhs, n), eval(*rhs, n)),
        Node::Cond { test, if_true, if_false } => if eval(*test, n) != 0 {
            eval(*if_true, n)
        } else {
            eval(*if_false, n)
        },
    }
}

/// 1 for true, 0 for false.
pub fn bool_to_num(b: bool) -> (r: i64)
    ensures
        r == num_of(b),
{
    if b {
        1
    } else {
        0
    }
}

/// The result of a division by zero of `v`.
pub fn get_infinity(v: i64) -> (r: i64)
    ensures
        r == infinity_of(v),
{
    if v < 0 {
        i64::MIN
    } else {
        i64::MAX
    }
}

fn magnitude_of(a: i64) -> (r: u64)
    ensures
        r as nat == magnitude(a as int),
{
    if a >= 0 {
        a as u64
    } else if a == i64::MIN {
        0x8000_0000_0000_0000u64
    } else {
        (-a) as u64
    }
}

/// Division truncated toward zero; `MIN / -1` wraps to `MIN`.
fn divide(a: i64, b: i64) -> (r: i64)
    requires
        b != 0,
    ensures
        r == quotient(a, b),
{
    let ua = magnitude_of(a);
    let ub = magnitude_of(b);
    let q = ua / ub;
    assert(q <= ua) by (nonlinear_arith)
        requires
            ub >= 1,
            q == ua / ub,
    ;
    if (a < 0) == (b < 0) {
        if q == 0x8000_0000_0000_0000u64 {
            assert(ub == 1) by (nonlinear_arith)
                requires
                    ub >= 1,
                    q == ua / ub,
                    ua <= 0x8000_0000_0000_0000u64,
                    q == 0x8000_0000_0000_0000u64,
            ;
            assert(signed_crop(q as int) == i64::MIN);
            i64::MIN
        } else {
            assert(signed_crop(q as int) == q as i64);
            q as i64
        }
    } else {
        if q == 0x8000_0000_0000_0000u64 {
            assert(signed_crop(-(q as int)) == i64::MIN);
            i64::MIN
        } else {
            assert(signed_crop(-(q as int)) == -(q as int));
            -(q as i64)
        }
    }
}

/// Remainder of the division truncated toward zero.
fn modulo(a: i64, b: i64) -> (r: i64)
    requires
        b != 0,
    ensures
        r == remainder(a, b),
{
    let ua = magnitude_of(a);
    let ub = magnitude_of(b);
    let m = ua % ub;
    assert(m < ub);
    if a < 0 {
        -(m as i64)
    } else {
        m as i64
    }
}

impl Clone for Node {
    fn clone(&self) -> (r: Node)
        ensures
            r == *self,
        decreases *self,
    {
        match self {
            Node::Var => Node::Var,
            Node::Num(v) => Node::Num(*v),
            Node::UnOp { op, rhs } => Node::UnOp { op: *op, rhs: Box::new((**rhs).clone()) },
            Node::BinOp { op, lhs, rhs } => Node::BinOp {
                op: *op,
                lhs: Box::new((**lhs).clone()),
                rhs: Box::new((**rhs).clone()),
            },
            Node::Cond { test, if_true, if_false } => Node::Cond {
                test: Box::new((**test).clone()),
                if_true: Box::new((**if_true).clone()),
                if_false: Box::new((**if_false).clone()),
            },
        }
    }
}

impl Node {
    /// A constant.
    pub fn new_num(v: i64) -> (r: Node)
        ensures
            r == Node::Num(v),
    {
        Node::Num(v)
    }

    /// A unary operation.
    pub fn new_unop(op: UnOp, rhs: Node) -> (r: Node)
        ensures
            r == (Node::UnOp { op, rhs: Box::new(rhs) }),
    {
        Node::UnOp { op, rhs: Box::new(rhs) }
    }

    /// A binary operation.
    pub fn new_binop(op: BinOp, lhs: Node, rhs: Node) -> (r: Node)
        ensures
            r == (Node::BinOp { op, lhs: Box::new(lhs), rhs: Box::new(rhs) }),
    {
        Node::BinOp { op, lhs: Box::new(lhs), rhs: Box::new(rhs) }
    }

    /// A conditional: `test ? if_true : if_false`.
    pub fn new_cond(test: Node, if_true: Node, if_false: Node) -> (r: Node)
        ensures
            r == (Node::Cond {
                test: Box::new(test),
                if_true: Box::new(if_true),
                if_false: Box::new(if_false),
            }),
    {
        Node::Cond { test: Box::new(test), if_true: Box::new(if_true), if_false: Box::new(if_false) }
    }

    /// Evaluates the expression for the count `n`. Nothing traps: `+`, `-` and `*` wrap, a
    /// division by zero gives `get_infinity` of the dividend, a remainder by zero gives the
    /// dividend, and only the taken branch of a conditional is evaluated.
    pub fn execute(&self, n: i64) -> (r: i64)
        ensures
            r == eval(*self, n),
        decreases *self,
    {
        match self {
            Node::Var => n,
            Node::Num(v) => *v,
            Node::UnOp { op, rhs } => {
                let v = rhs.execute(n);
                match op {
                    UnOp::Not => bool_to_num(v == 0),
                    UnOp::Neg => 0i64.wrapping_sub(v),
                }
            },
            Node::BinOp { op, lhs, rhs } => {
                let l = lhs.execute(n);
                match op {
                    BinOp::Add => l.wrapping_add(rhs.execute(n)),
                    BinOp::Sub => l.wrapping_sub(rhs.execute(n)),
                    BinOp::Mul => l.wrapping_mul(rhs.execute(n)),
                    BinOp::Div => {
                        let r = rhs.execute(n);
                        if r != 0 {
                            divide(l, r)
                        } else {
                            get_infinity(l)
                        }
                    },
                    BinOp::Mod => {
                        let r = rhs.execute(n);
                        if r != 0 {
                            modulo(l, r)
                        } else {
                            l
                        }
                    },
                    BinOp::And => bool_to_num(l != 0 && rhs.execute(n) != 0),
                    BinOp::Or => bool_to_num(l != 0 || rhs.execute(n) != 0),
                    BinOp::Eq => bool_to_num(l == rhs.execute(n)),
                    BinOp::Ne => bool_to_num(l != rhs.execute(n)),
                    BinOp::Lt => bool_to_num(l < rhs.execute(n)),
                    BinOp::Lte => bool_to_num(l <= rhs.execute(n)),
                    BinOp::Gt => bool_to_num(l > rhs.execute(n)),
                    BinOp::Gte => bool_to_num(l >= rhs.execute(n)),
                }
            },
            Node::Cond { test, if_true, if_false } => {
                if test.execute(n) != 0 {
                    if_true.execute(n)
                } else {
                    if_false.execute(n)
                }
            },
        }
    }
}

/// A syntax error in a plural expression, in the shape that `lalrpop_util` reports; locations
/// are byte offsets in the trimmed expression.
pub enum SyntaxError {
    InvalidToken { location: usize },
    UnrecognizedEof { location: usize, expected: Vec<String> },
    UnrecognizedToken { start: usize, token: String, end: usize, expected: Vec<String> },
}

/// The separator before the expected token `i` of `n`.
pub open spec fn expected_separator(n: int, i: int) -> Seq<char> {
    if i == 0 {
        "Expected one of"@
    } else if i < n - 1 {
        ","@
    } else {
        " or"@
    }
}

/// The first `k` expected tokens of `ex`, each after its separator and a space.
pub open spec fn expected_items(ex: Seq<Seq<char>>, k: int) -> Seq<char>
    decreases k,
{
    if k <= 0 || k > ex.len() {
        Seq::empty()
    } else {
        expected_items(ex, k - 1) + expected_separator(ex.len() as int, k - 1) + " "@ + ex[k - 1]
    }
}

/// The list of expected tokens: nothing when there is none, else a new line and
/// `Expected one of a, b or c`.
pub open spec fn expected_text(ex: Seq<Seq<char>>) -> Seq<char> {
    if ex.len() == 0 {
        Seq::empty()
    } else {
        "\n"@ + expected_items(ex, ex.len() as int)
    }
}

/// The message that `lalrpop_util` writes for a syntax error.
pub open spec fn syntax_error_text(e: SyntaxError) -> Seq<char> {
    match e {
        SyntaxError::InvalidToken { location } => "Invalid token at "@ + decimal(location as nat),
        SyntaxError::UnrecognizedEof { location, expected } => "Unrecognized EOF found at "@
            + decimal(location as nat) + expected_text(expected@.map_values(|s: String| s@)),
        SyntaxError::UnrecognizedToken { start, token, end, expected } => "Unrecognized token `"@
            + token@ + "` found at "@ + decimal(start as nat) + ":"@ + decimal(end as nat)
            + expected_text(expected@.map_values(|s: String| s@)),
    }
}

/// Relies on the `Display` of `lalrpop_util::ParseError` (with its `fmt_expected`): the message
/// for a syntax error, as `syntax_error_text` spells it.
#[verifier::external_body]
fn syntax_error_message(e: SyntaxError) -> (r: String)
    ensures
        r@ == syntax_error_text(e),
{
    let err: lalrpop_util::ParseError<usize, String, String> = match e {
        SyntaxError::InvalidToken { location } => lalrpop_util::ParseError::InvalidToken { location },
        SyntaxError::UnrecognizedEof { location, expected } => {
            lalrpop_util::ParseError::UnrecognizedEof { location, expected }
        },
        SyntaxError::UnrecognizedToken { start, token, end, expected } => {
            lalrpop_util::ParseError::UnrecognizedToken { token: (start, token, end), expected }
        },
    };
    err.to_string()
}

/// The names of the tokens that would have been accepted, as the grammar spells them.
fn expected_names(e: Expected) -> (r: Vec<String>) {
    let mut v: Vec<String> = Vec::new();
    match e {
        Expected::Operand => {
            v.push(String::from_str("\"!\""));
            v.push(String::from_str("\"(\""));
            v.push(String::from_str("\"-\""));
            v.push(String::from_str("\"n\""));
            v.push(String::from_str("r#\"[0-9]+\"#"));
        },
        Expected::CloseParen => {
            v.push(String::from_str("\")\""));
        },
        Expected::Colon => {
            v.push(String::from_str("\":\""));
        },
        Expected::End => {},
    }
    v
}

/// The number of bytes of the UTF-8 encoding of `c`.
pub open spec fn utf8_width(c: char) -> nat {
    if (c as u32) < 0x80 {
        1
    } else if (c as u32) < 0x800 {
        2
    } else if (c as u32) < 0x10000 {
        3
    } else {
        4
    }
}

/// The number of bytes of the UTF-8 encoding of `s[..k]`.
pub open spec fn prefix_bytes(s: Seq<char>, k: int) -> nat
    decreases k,
{
    if k <= 0 || k > s.len() {
        0
    } else {
        prefix_bytes(s, k - 1) + utf8_width(s[k - 1])
    }
}

/// The byte offset of the character `k` of `text` (`usize::MAX` if it does not fit).
fn byte_offset(text: &Vec<char>, k: usize) -> (r: usize)
    requires
        k <= text@.len(),
    ensures
        r == (if prefix_bytes(text@, k as int) <= usize::MAX {
            prefix_bytes(text@, k as int) as usize
        } else {
            usize::MAX
        }),
{
    let mut off: usize = 0;
    let mut i: usize = 0;
    while i < k
        invariant
            i <= k <= text@.len(),
            off == (if prefix_bytes(text@, i as int) <= usize::MAX {
                prefix_bytes(text@, i as int) as usize
            } else {
                usize::MAX
            }),
        decreases k - i,
    {
        let c = text[i] as u32;
        let w: usize = if c < 0x80 {
            1
        } else if c < 0x800 {
            2
        } else if c < 0x10000 {
            3
        } else {
            4
        };
        assert(prefix_bytes(text@, i + 1) == prefix_bytes(text@, i as int) + w);
        off = if off <= usize::MAX - w {
            off + w
        } else {
            usize::MAX
        };
        i = i + 1;
    }
    off
}

/// The syntax error for a parse that stopped at token `p` of `ls`, read from `text`; locations
/// are byte offsets, as the lalrpop lexer gives them.
fn syntax_error_at(text: &Vec<char>, ls: &Vec<Lexeme>, p: usize, e: Expected) -> (r: SyntaxError)
    requires
        p <= ls@.len(),
        forall|i: int| 0 <= i < ls@.len() ==> #[trigger] ls@[i].start <= ls@[i].end <= text@.len(),
{
    if p < ls.len() {
        let lx = ls[p];
        SyntaxError::UnrecognizedToken {
            start: byte_offset(text, lx.start),
            token: crate::text::substring(text, lx.start, lx.end),
            end: byte_offset(text, lx.end),
            expected: expected_names(e),
        }
    } else {
        let location = if ls.len() > 0 {
            assert(ls@[ls.len() - 1].start <= ls@[ls.len() - 1].end <= text@.len());
            byte_offset(text, ls[ls.len() - 1].end)
        } else {
            0
        };
        SyntaxError::UnrecognizedEof { location, expected: expected_names(e) }
    }
}

/// The expression that the text `s` writes, if it is well formed; blank text is the identity.
pub open spec fn formula_of(s: Seq<char>) -> Option<Node> {
    let t = trimmed(s);
    if t.len() == 0 {
        Some(Node::Var)
    } else {
        match lex_from(t, 0) {
            Ok(ls) => match parse_tokens(tokens_of(ls)) {
                Ok(n) => Some(n),
                Err(_) => None,
            },
            Err(_) => None,
        }
    }
}

/// The plural variant that an expression value selects: none for a negative value.
pub open spec fn index_of_value(v: i64) -> Option<usize> {
    if v < 0 {
        None
    } else {
        Some(v as usize)
    }
}

/// Every lexeme lies within the text it was read from.
pub proof fn lemma_lexemes_in_bounds(s: Seq<char>, i: int, ls: Seq<Lexeme>)
    requires
        lex_from(s, i) == Ok::<Seq<Lexeme>, int>(ls),
        s.len() <= usize::MAX,
    ensures
        forall|k: int| 0 <= k < ls.len() ==> #[trigger] ls[k].start <= ls[k].end <= s.len(),
    decreases s.len() - i,
{
    if 0 <= i < s.len() {
        if crate::text::is_ws(s[i]) {
            assert(lex_from(s, i) == lex_from(s, i + 1));
            lemma_lexemes_in_bounds(s, i + 1, ls);
        } else {
            let (t, e) = crate::grammar::lex_one(s, i)->Some_0;
            let rest = lex_from(s, e)->Ok_0;
            lemma_lexemes_in_bounds(s, e, rest);
            let lx = Lexeme { token: t, start: i as usize, end: e as usize };
            assert(ls == seq![lx] + rest);
            assert forall|k: int| 0 <= k < ls.len() implies #[trigger] ls[k].start <= ls[k].end
                <= s.len() by {
                if k > 0 {
                    assert(ls[k] == rest[k - 1]);
                }
            }
        }
    }
}

/// A parsed plural expression.
#[derive(Clone, Debug, PartialEq, Eq)]
pub struct Formula {
    pub expr: Node,
}

impl Formula {
    /// Parses an expression. Blank text gives the identity `n`; a malformed expression gives a
    /// `PluralForms` error that says where it stopped and what it expected.
    pub fn parse(input: &str) -> (r: Result<Formula, Error>)
        ensures
            match formula_of(input@) {
                Some(n) => r == Ok::<Formula, Error>(Formula { expr: n }),
                None => r matches Err(Error::PluralForms(_)),
            },
    {
        let chars = chars_of(input);
        let a = skip_whitespace(&chars, 0);
        let b = trim_end_index(&chars, chars.len());
        if a >= b {
            return Ok(Formula { expr: Node::Var });
        }
        let t = slice_chars(&chars, a, b);
        assert(t@.len() <= usize::MAX) by {
            assert(t@.len() == b - a);
        }
        assert(t@ == trimmed(input@));
        match lex(&t) {
            Err(k) => {
                proof {
                    crate::grammar::lemma_lex_error_in_bounds(t@, 0);
                }
                let location = byte_offset(&t, k);
                Err(Error::PluralForms(syntax_error_message(SyntaxError::InvalidToken { location })))
            },
            Ok(ls) => {
                proof {
                    lemma_lexemes_in_bounds(t@, 0, ls@);
                }
                match parse_expression(&ls) {
                    Ok(n) => Ok(Formula { expr: n }),
                    Err((p, e)) => Err(Error::PluralForms(syntax_error_message(syntax_error_at(&t, &ls, p, e)))),
                }
            },
        }
    }

    /// The plural variant for `count`: the expression's value for `count`, or `None` when that
    /// value is negative.
    pub fn execute(&self, count: usize) -> (r: Option<usize>)
        ensures
            r == index_of_value(eval(self.expr, count as i64)),
    {
        let v = self.expr.execute(count as i64);
        if v < 0 {
            None
        } else {
            Some(v as usize)
        }
    }
}

/// The expression `n`, and blank text, are the identity: they evaluate to the count itself.
pub proof fn lemma_identity_formula(n: i64)
    ensures
        formula_of("n"@) == Some(Node::Var),
        formula_of(""@) == Some(Node::Var),
        eval(Node::Var, n) == n,
{
    reveal_strlit("n");
    reveal_strlit("");
    let s = "n"@;
    assert(crate::text::skip_ws(s, 0) == 0);
    assert(crate::text::trim_end_at(s, 1) == 1);
    assert(trimmed(s) =~= s);
    assert(crate::grammar::lex_from(s, 1) == Ok::<Seq<Lexeme>, int>(Seq::empty()));
    let lx = Lexeme { token: crate::grammar::Token::Var, start: 0, end: 1 };
    assert(crate::grammar::lex_one(s, 0) == Some((crate::grammar::Token::Var, 1int)));
    assert(crate::grammar::lex_from(s, 0) == Ok::<Seq<Lexeme>, int>(seq![lx]));
    let t = tokens_of(seq![lx]);
    assert(t =~= seq![crate::grammar::Token::Var]);
    lemma_single_atom(t, Node::Var);
    assert(trimmed(""@) =~= Seq::<char>::empty());
}

/// A single atom parses, at every precedence, to itself.
proof fn lemma_single_atom(t: Seq<crate::grammar::Token>, a: Node)
    requires
        t.len() == 1,
        t[0] == crate::grammar::Token::Var && a == Node::Var,
    ensures
        parse_tokens(t) == Ok::<Node, (nat, Expected)>(a),
{
    assert(parse_level(t, 0, 8) == Ok::<(Node, nat), (nat, Expected)>((a, 1)));
    assert(parse_level(t, 0, 7) == Ok::<(Node, nat), (nat, Expected)>((a, 1)));
    assert(parse_tail(t, 1, 6u8, a) == Ok::<(Node, nat), (nat, Expected)>((a, 1)));
    assert(parse_level(t, 0, 6u8) == Ok::<(Node, nat), (nat, Expected)>((a, 1)));
    assert(parse_tail(t, 1, 5u8, a) == Ok::<(Node, nat), (nat, Expected)>((a, 1)));
    assert(parse_level(t, 0, 5u8) == Ok::<(Node, nat), (nat, Expected)>((a, 1)));
    assert(parse_tail(t, 1, 4u8, a) == Ok::<(Node, nat), (nat, Expected)>((a, 1)));
    assert(parse_level(t, 0, 4u8) == Ok::<(Node, nat), (nat, Expected)>((a, 1)));
    assert(parse_tail(t, 1, 3u8, a) == Ok::<(Node, nat), (nat, Expected)>((a, 1)));
    assert(parse_level(t, 0, 3u8) == Ok::<(Node, nat), (nat, Expected)>((a, 1)));
    assert(parse_tail(t, 1, 2u8, a) == Ok::<(Node, nat), (nat, Expected)>((a, 1)));
    assert(parse_level(t, 0, 2u8) == Ok::<(Node, nat), (nat, Expected)>((a, 1)));
    assert(parse_tail(t, 1, 1u8, a) == Ok::<(Node, nat), (nat, Expected)>((a, 1)));
    assert(parse_level(t, 0, 1u8) == Ok::<(Node, nat), (nat, Expected)>((a, 1)));
    assert(parse_level(t, 0, 0) == Ok::<(Node, nat), (nat, Expected)>((a, 1)));
}

/// A division by zero does not trap: it gives the largest value for a non-negative dividend,
/// the smallest otherwise. So the expression `1000/n` at `n = 0` gives `i64::MAX`.
pub proof fn lemma_division_by_zero(l: Node, r: Node, n: i64)
    requires
        eval(r, n) == 0,
    ensures
        eval(Node::BinOp { op: BinOp::Div, lhs: Box::new(l), rhs: Box::new(r) }, n) == infinity_of(eval(l, n)),
        formula_of("1000/n"@) == Some(thousand_by_n()),
        eval(thousand_by_n(), 0) == i64::MAX,
{
    assert(eval(Node::Num(1000), 0) == 1000);
    assert(eval(Node::Var, 0) == 0);
    lemma_thousand_by_n();
}

/// The tree of `1000/n`.
pub open spec fn thousand_by_n() -> Node {
    Node::BinOp { op: BinOp::Div, lhs: Box::new(Node::Num(1000)), rhs: Box::new(Node::Var) }
}

proof fn lemma_thousand_by_n()
    ensures
        formula_of("1000/n"@) == Some(thousand_by_n()),
{
    reveal_strlit("1000/n");
    let s = "1000/n"@;
    assert(s.len() == 6);
    assert(crate::text::skip_ws(s, 0) == 0);
    assert(crate::text::trim_end_at(s, 6) == 6);
    assert(trimmed(s) =~= s);
    assert(crate::grammar::digit_run_end(s, 4) == 4);
    assert(crate::grammar::digit_run_end(s, 3) == 4);
    assert(crate::grammar::digit_run_end(s, 2) == 4);
    assert(crate::grammar::digit_run_end(s, 1) == 4);
    assert(crate::grammar::digit_run_end(s, 0) == 4);
    let d = s.subrange(0, 4);
    assert(d.drop_last() =~= s.subrange(0, 3));
    assert(s.subrange(0, 3).drop_last() =~= s.subrange(0, 2));
    assert(s.subrange(0, 2).drop_last() =~= s.subrange(0, 1));
    assert(s.subrange(0, 1).drop_last() =~= Seq::<char>::empty());
    assert(crate::text::digits_value(Seq::<char>::empty()) == 0);
    assert(s.subrange(0, 1).last() == '1');
    assert(s.subrange(0, 2).last() == '0');
    assert(s.subrange(0, 3).last() == '0');
    assert(d.last() == '0');
    assert(crate::text::digits_value(s.subrange(0, 1)) == 1);
    assert(crate::text::digits_value(s.subrange(0, 2)) == 10);
    assert(crate::text::digits_value(s.subrange(0, 3)) == 100);
    assert(crate::text::digits_value(d) == 1000);
    let l0 = Lexeme { token: crate::grammar::Token::Int(1000), start: 0, end: 4 };
    let l1 = Lexeme { token: crate::grammar::Token::Slash, start: 4, end: 5 };
    let l2 = Lexeme { token: crate::grammar::Token::Var, start: 5, end: 6 };
    assert(crate::grammar::lex_from(s, 6) == Ok::<Seq<Lexeme>, int>(Seq::empty()));
    assert(crate::grammar::lex_from(s, 5) == Ok::<Seq<Lexeme>, int>(seq![l2]));
    assert(seq![l1] + seq![l2] =~= seq![l1, l2]);
    assert(seq![l0] + seq![l1, l2] =~= seq![l0, l1, l2]);
    assert(crate::grammar::lex_from(s, 4) == Ok::<Seq<Lexeme>, int>(seq![l1, l2]));
    assert(crate::grammar::lex_one(s, 0) == Some((crate::grammar::Token::Int(1000), 4int)));
    assert(crate::grammar::lex_from(s, 0) == Ok::<Seq<Lexeme>, int>(seq![l0, l1, l2]));
    let t = tokens_of(seq![l0, l1, l2]);
    assert(t =~= seq![crate::grammar::Token::Int(1000), crate::grammar::Token::Slash, crate::grammar::Token::Var]);
    let num = Node::Num(1000);
    assert(parse_level(t, 0, 8) == Ok::<(Node, nat), (nat, Expected)>((num, 1)));
    assert(parse_level(t, 0, 7) == Ok::<(Node, nat), (nat, Expected)>((num, 1)));
    assert(parse_level(t, 2, 8) == Ok::<(Node, nat), (nat, Expected)>((Node::Var, 3)));
    assert(parse_level(t, 2, 7) == Ok::<(Node, nat), (nat, Expected)>((Node::Var, 3)));
    let e = thousand_by_n();
    assert(parse_tail(t, 3, 6u8, e) == Ok::<(Node, nat), (nat, Expected)>((e, 3)));
    assert(parse_tail(t, 1, 6u8, num) == Ok::<(Node, nat), (nat, Expected)>((e, 3)));
    assert(parse_level(t, 0, 6u8) == Ok::<(Node, nat), (nat, Expected)>((e, 3)));
    assert(parse_tail(t, 3, 5u8, e) == Ok::<(Node, nat), (nat, Expected)>((e, 3)));
    assert(parse_level(t, 0, 5u8) == Ok::<(Node, nat), (nat, Expected)>((e, 3)));
    assert(parse_tail(t, 3, 4u8, e) == Ok::<(Node, nat), (nat, Expected)>((e, 3)));
    assert(parse_level(t, 0, 4u8) == Ok::<(Node, nat), (nat, Expected)>((e, 3)));
    assert(parse_tail(t, 3, 3u8, e) == Ok::<(Node, nat), (nat, Expected)>((e, 3)));
    assert(parse_level(t, 0, 3u8) == Ok::<(Node, nat), (nat, Expected)>((e, 3)));
    assert(parse_tail(t, 3, 2u8, e) == Ok::<(Node, nat), (nat, Expected)>((e, 3)));
    assert(parse_level(t, 0, 2u8) == Ok::<(Node, nat), (nat, Expected)>((e, 3)));
    assert(parse_tail(t, 3, 1u8, e) == Ok::<(Node, nat), (nat, Expected)>((e, 3)));
    assert(parse_level(t, 0, 1u8) == Ok::<(Node, nat), (nat, Expected)>((e, 3)));
    assert(parse_level(t, 0, 0) == Ok::<(Node, nat), (nat, Expected)>((e, 3)));
}

} // verus!
