//! Lexer and parser of the `Plural-Forms` selector expressions.
//!
//! Precedence, from loosest to tightest: `?:` (right-associative), `||` (also written `or`),
//! `&&`, `==` `!=`, `<` `<=` `>` `>=`, `+` `-`, `*` `/` `%`, prefix `!` and `-`, then `n`,
//! integer literals and parenthesised expressions. Binary operators associate to the left.
use crate::formula::{BinOp, Node, UnOp};
use crate::text::{
    all_digits, digits_value, is_digit, is_whitespace, is_ws, lemma_skip_ws_bounds, read_decimal,
    skip_whitespace, skip_ws,
};
use vstd::prelude::*;

verus! {

/// The tokens of the expression language.
#[derive(Clone, Copy, Debug, PartialEq, Eq, Structural)]
pub enum Token {
    Var,
    Int(i64),
    Question,
    Colon,
    OrOr,
    AndAnd,
    EqEq,
    NotEq,
    Less,
    LessEq,
    Greater,
    GreaterEq,
    Plus,
    Minus,
    Star,
    Slash,
    Percent,
    Bang,
    LParen,
    RParen,
}

/// A token with the character range `start..end` it was read from.
#[derive(Clone, Copy, Debug, PartialEq, Eq, Structural)]
pub struct Lexeme {
    pub token: Token,
    pub start: usize,
    pub end: usize,
}

/// The index of the first non-digit at or after `i`.
pub open spec fn digit_run_end(s: Seq<char>, i: int) -> int
    decreases s.len() - i,
{
    if 0 <= i < s.len() && is_digit(s[i]) {
        digit_run_end(s, i + 1)
    } else {
        i
    }
}

/// The token that starts at `s[i]` (not whitespace), and where it ends.
pub open spec fn lex_one(s: Seq<char>, i: int) -> Option<(Token, int)> {
    let c = s[i];
    let next = if i + 1 < s.len() {
        s[i + 1]
    } else {
        ' '
    };
    if c == 'n' {
        Some((Token::Var, i + 1))
    } else if c == 'o' && next == 'r' {
        Some((Token::OrOr, i + 2))
    } else if is_digit(c) {
        let e = digit_run_end(s, i);
        let v = digits_value(s.subrange(i, e));
        if v <= i64::MAX {
            Some((Token::Int(v as i64), e))
        } else {
            None
        }
    } else if c == '?' {
        Some((Token::Question, i + 1))
    } else if c == ':' {
        Some((Token::Colon, i + 1))
    } else if c == '|' && next == '|' {
        Some((Token::OrOr, i + 2))
    } else if c == '&' && next == '&' {
        Some((Token::AndAnd, i + 2))
    } else if c == '=' && next == '=' {
        Some((Token::EqEq, i + 2))
    } else if c == '!' && next == '=' {
        Some((Token::NotEq, i + 2))
    } else if c == '!' {
        Some((Token::Bang, i + 1))
    } else if c == '<' && next == '=' {
        Some((Token::LessEq, i + 2))
    } else if c == '<' {
        Some((Token::Less, i + 1))
    } else if c == '>' && next == '=' {
        Some((Token::GreaterEq, i + 2))
    } else if c == '>' {
        Some((Token::Greater, i + 1))
    } else if c == '+' {
        Some((Token::Plus, i + 1))
    } else if c == '-' {
        Some((Token::Minus, i + 1))
    } else if c == '*' {
        Some((Token::Star, i + 1))
    } else if c == '/' {
        Some((Token::Slash, i + 1))
    } else if c == '%' {
        Some((Token::Percent, i + 1))
    } else if c == '(' {
        Some((Token::LParen, i + 1))
    } else if c == ')' {
        Some((Token::RParen, i + 1))
    } else {
        None
    }
}

/// The tokens of `s[i..]`, whitespace skipped; `Err(k)` when no token starts at `s[k]`.
pub open spec fn lex_from(s: Seq<char>, i: int) -> Result<Seq<Lexeme>, int>
    decreases s.len() - i,
{
    if i < 0 || i >= s.len() {
        Ok(Seq::empty())
    } else if is_ws(s[i]) {
        lex_from(s, i + 1)
    } else {
        match lex_one(s, i) {
            Some((t, e)) => if i < e <= s.len() {
                match lex_from(s, e) {
                    Ok(rest) => Ok(seq![Lexeme { token: t, start: i as usize, end: e as usize }] + rest),
                    Err(k) => Err(k),
                }
            } else {
                Err(i)
            },
            None => Err(i),
        }
    }
}

/// Where lexing fails lies within the text.
pub proof fn lemma_lex_error_in_bounds(s: Seq<char>, i: int)
    requires
        0 <= i,
        lex_from(s, i) is Err,
    ensures
        0 <= lex_from(s, i)->Err_0 <= s.len(),
    decreases s.len() - i,
{
    if i < s.len() {
        if is_ws(s[i]) {
            lemma_lex_error_in_bounds(s, i + 1);
        } else {
            match lex_one(s, i) {
                Some((t, e)) => if i < e <= s.len() {
                    lemma_lex_error_in_bounds(s, e);
                },
                None => {},
            }
        }
    }
}

pub proof fn lemma_digit_run(s: Seq<char>, i: int)
    requires
        0 <= i <= s.len(),
    ensures
        i <= digit_run_end(s, i) <= s.len(),
        all_digits(s.subrange(i, digit_run_end(s, i))),
        digit_run_end(s, i) < s.len() ==> !is_digit(s[digit_run_end(s, i)]),
    decreases s.len() - i,
{
    if i < s.len() && is_digit(s[i]) {
        lemma_digit_run(s, i + 1);
        let e = digit_run_end(s, i);
        assert forall|k: int| 0 <= k < e - i implies is_digit(#[trigger] s.subrange(i, e)[k]) by {
            if k > 0 {
                assert(s.subrange(i, e)[k] == s.subrange(i + 1, e)[k - 1]);
            }
        }
    }
}

fn char_at(s: &Vec<char>, i: usize) -> (c: char)
    ensures
        c == (if i < s@.len() {
            s@[i as int]
        } else {
            ' '
        }),
{
    if i < s.len() {
        s[i]
    } else {
        ' '
    }
}

/// Reads the token that starts at `s[i]`.
fn lex_token(s: &Vec<char>, i: usize) -> (r: Option<(Token, usize)>)
    requires
        i < s@.len(),
    ensures
        r matches Some((t, e)) ==> lex_one(s@, i as int) == Some((t, e as int)) && i < e <= s@.len(),
        r is None ==> lex_one(s@, i as int) is None,
{
    let len = s.len();
    let c = s[i];
    let next = char_at(s, i + 1);
    assert(next != ' ' ==> i + 1 < len);
    if c == 'n' {
        Some((Token::Var, i + 1))
    } else if c == 'o' && next == 'r' {
        Some((Token::OrOr, i + 2))
    } else if '0' <= c && c <= '9' {
        let mut e = i;
        while e < s.len() && '0' <= s[e] && s[e] <= '9'
            invariant
                i <= e <= s@.len(),
                digit_run_end(s@, e as int) == digit_run_end(s@, i as int),
            decreases s@.len() - e,
        {
            e = e + 1;
        }
        proof {
            lemma_digit_run(s@, i as int);
        }
        match read_decimal(s, i, e, i64::MAX as u64) {
            Some(v) => Some((Token::Int(v as i64), e)),
            None => None,
        }
    } else if c == '?' {
        Some((Token::Question, i + 1))
    } else if c == ':' {
        Some((Token::Colon, i + 1))
    } else if c == '|' && next == '|' {
        Some((Token::OrOr, i + 2))
    } else if c == '&' && next == '&' {
        Some((Token::AndAnd, i + 2))
    } else if c == '=' && next == '=' {
        Some((Token::EqEq, i + 2))
    } else if c == '!' && next == '=' {
        Some((Token::NotEq, i + 2))
    } else if c == '!' {
        Some((Token::Bang, i + 1))
    } else if c == '<' && next == '=' {
        Some((Token::LessEq, i + 2))
    } else if c == '<' {
        Some((Token::Less, i + 1))
    } else if c == '>' && next == '=' {
        Some((Token::GreaterEq, i + 2))
    } else if c == '>' {
        Some((Token::Greater, i + 1))
    } else if c == '+' {
        Some((Token::Plus, i + 1))
    } else if c == '-' {
        Some((Token::Minus, i + 1))
    } else if c == '*' {
        Some((Token::Star, i + 1))
    } else if c == '/' {
        Some((Token::Slash, i + 1))
    } else if c == '%' {
        Some((Token::Percent, i + 1))
    } else if c == '(' {
        Some((Token::LParen, i + 1))
    } else if c == ')' {
        Some((Token::RParen, i + 1))
    } else {
        None
    }
}

/// Cuts `s` into tokens; `Err(k)` when no token starts at the character `k`.
pub fn lex(s: &Vec<char>) -> (r: Result<Vec<Lexeme>, usize>)
    ensures
        r matches Ok(v) ==> lex_from(s@, 0) == Ok::<Seq<Lexeme>, int>(v@),
        r matches Err(k) ==> lex_from(s@, 0) == Err::<Seq<Lexeme>, int>(k as int),
{
    let mut out: Vec<Lexeme> = Vec::new();
    let mut i: usize = 0;
    while i < s.len()
        invariant
            i <= s@.len(),
            forall|rest: Seq<Lexeme>|
                lex_from(s@, i as int) == Ok::<Seq<Lexeme>, int>(rest) ==> lex_from(s@, 0) == Ok::<
                    Seq<Lexeme>,
                    int,
                >(out@ + rest),
            forall|k: int|
                lex_from(s@, i as int) == Err::<Seq<Lexeme>, int>(k) ==> lex_from(s@, 0) == Err::<
                    Seq<Lexeme>,
                    int,
                >(k),
        decreases s@.len() - i,
    {
        if is_whitespace(s[i]) {
            i = i + 1;
        } else {
            match lex_token(s, i) {
                Some((t, e)) => {
                    let lx = Lexeme { token: t, start: i, end: e };
                    proof {
                        assert forall|rest: Seq<Lexeme>|
                            lex_from(s@, e as int) == Ok::<Seq<Lexeme>, int>(
                                rest,
                            ) implies lex_from(s@, 0) == Ok::<Seq<Lexeme>, int>(
                            out@.push(lx) + rest,
                        ) by {
                            assert(seq![lx] + rest == seq![lx] + rest);
                            assert(out@ + (seq![lx] + rest) == out@.push(lx) + rest);
                        }
                    }
                    out.push(lx);
                    i = e;
                },
                None => {
                    return Err(i);
                },
            }
        }
    }
    assert(lex_from(s@, i as int) == Ok::<Seq<Lexeme>, int>(Seq::empty()));
    assert(out@ + Seq::<Lexeme>::empty() == out@);
    Ok(out)
}

/// What the parser expected where it stopped.
#[derive(Clone, Copy, Debug, PartialEq, Eq, Structural)]
pub enum Expected {
    Operand,
    CloseParen,
    Colon,
    End,
}

/// The binary operator that `t` writes at the precedence `level` (1 to 6).
pub open spec fn binop_at(level: u8, t: Token) -> Option<BinOp> {
    match (level, t) {
        (1u8, Token::OrOr) => Some(BinOp::Or),
        (2u8, Token::AndAnd) => Some(BinOp::And),
        (3u8, Token::EqEq) => Some(BinOp::Eq),
        (3u8, Token::NotEq) => Some(BinOp::Ne),
        (4u8, Token::Less) => Some(BinOp::Lt),
        (4u8, Token::LessEq) => Some(BinOp::Lte),
        (4u8, Token::Greater) => Some(BinOp::Gt),
        (4u8, Token::GreaterEq) => Some(BinOp::Gte),
        (5u8, Token::Plus) => Some(BinOp::Add),
        (5u8, Token::Minus) => Some(BinOp::Sub),
        (6u8, Token::Star) => Some(BinOp::Mul),
        (6u8, Token::Slash) => Some(BinOp::Div),
        (6u8, Token::Percent) => Some(BinOp::Mod),
        _ => None,
    }
}

/// Outcome of parsing: the tree and the index of the first token after it, or the index where
/// parsing stopped and what was expected there.
pub type Parsed = Result<(Node, nat), (nat, Expected)>;

/// Parses an expression of precedence `level` (0: conditional, 1 to 6: binary operators,
/// 7: prefix operators, 8: atoms) from the token `pos` on.
pub open spec fn parse_level(t: Seq<Token>, pos: nat, level: u8) -> Parsed
    decreases t.len() - pos, 9 - level, 0nat,
{
    if pos > t.len() || level > 8 {
        Err((pos, Expected::Operand))
    } else if level == 0 {
        match parse_level(t, pos, 1) {
            Ok((c, p)) => if pos < p < t.len() && t[p as int] == Token::Question {
                match parse_level(t, p + 1, 0) {
                    Ok((a, q)) => if p < q < t.len() && t[q as int] == Token::Colon {
                        match parse_level(t, q + 1, 0) {
                            Ok((b, r)) => Ok(
                                (
                                    Node::Cond {
                                        test: Box::new(c),
                                        if_true: Box::new(a),
                                        if_false: Box::new(b),
                                    },
                                    r,
                                ),
                            ),
                            Err(e) => Err(e),
                        }
                    } else {
                        Err((q, Expected::Colon))
                    },
                    Err(e) => Err(e),
                }
            } else {
                Ok((c, p))
            },
            Err(e) => Err(e),
        }
    } else if level <= 6 {
        match parse_level(t, pos, (level + 1) as u8) {
            Ok((l, p)) => if pos < p <= t.len() {
                parse_tail(t, p, level, l)
            } else {
                Ok((l, p))
            },
            Err(e) => Err(e),
        }
    } else if level == 7 {
        if pos < t.len() && (t[pos as int] == Token::Bang || t[pos as int] == Token::Minus) {
            let op = if t[pos as int] == Token::Bang {
                UnOp::Not
            } else {
                UnOp::Neg
            };
            match parse_level(t, pos + 1, 7) {
                Ok((e, p)) => Ok((Node::UnOp { op, rhs: Box::new(e) }, p)),
                Err(e) => Err(e),
            }
        } else {
            parse_level(t, pos, 8)
        }
    } else {
        if pos < t.len() {
            match t[pos as int] {
                Token::Var => Ok((Node::Var, pos + 1)),
                Token::Int(v) => Ok((Node::Num(v), pos + 1)),
                Token::LParen => match parse_level(t, pos + 1, 0) {
                    Ok((e, q)) => if pos < q < t.len() && t[q as int] == Token::RParen {
                        Ok((e, q + 1))
                    } else {
                        Err((q, Expected::CloseParen))
                    },
                    Err(e) => Err(e),
                },
                _ => Err((pos, Expected::Operand)),
            }
        } else {
            Err((pos, Expected::Operand))
        }
    }
}

/// Continues a left-associative chain of operators of precedence `level` after `lhs`, which
/// ends before the token `pos`.
pub open spec fn parse_tail(t: Seq<Token>, pos: nat, level: u8, lhs: Node) -> Parsed
    decreases t.len() - pos, 9 - level, 1nat,
{
    if pos < t.len() && 1 <= level <= 6 && binop_at(level, t[pos as int]) is Some {
        match parse_level(t, pos + 1, (level + 1) as u8) {
            Ok((r, q)) => if pos < q <= t.len() {
                parse_tail(
                    t,
                    q,
                    level,
                    Node::BinOp {
                        op: binop_at(level, t[pos as int])->Some_0,
                        lhs: Box::new(lhs),
                        rhs: Box::new(r),
                    },
                )
            } else {
                Ok((lhs, pos))
            },
            Err(e) => Err(e),
        }
    } else {
        Ok((lhs, pos))
    }
}

/// Parses the whole token sequence as one expression.
pub open spec fn parse_tokens(t: Seq<Token>) -> Result<Node, (nat, Expected)> {
    match parse_level(t, 0, 0) {
        Ok((e, p)) => if p == t.len() {
            Ok(e)
        } else {
            Err((p, Expected::End))
        },
        Err(e) => Err(e),
    }
}

/// The tokens of a lexeme sequence.
pub open spec fn tokens_of(ls: Seq<Lexeme>) -> Seq<Token> {
    ls.map_values(|l: Lexeme| l.token)
}

/// Outcome of the executable parser, positions as `usize`.
pub type ParseOutcome = Result<(Node, usize), (usize, Expected)>;

pub open spec fn outcome_view(r: ParseOutcome) -> Parsed {
    match r {
        Ok((n, p)) => Ok((n, p as nat)),
        Err((p, e)) => Err((p as nat, e)),
    }
}

fn binop_of(level: u8, t: Token) -> (r: Option<BinOp>)
    ensures
        r == binop_at(level, t),
{
    match (level, t) {
        (1u8, Token::OrOr) => Some(BinOp::Or),
        (2u8, Token::AndAnd) => Some(BinOp::And),
        (3u8, Token::EqEq) => Some(BinOp::Eq),
        (3u8, Token::NotEq) => Some(BinOp::Ne),
        (4u8, Token::Less) => Some(BinOp::Lt),
        (4u8, Token::LessEq) => Some(BinOp::Lte),
        (4u8, Token::Greater) => Some(BinOp::Gt),
        (4u8, Token::GreaterEq) => Some(BinOp::Gte),
        (5u8, Token::Plus) => Some(BinOp::Add),
        (5u8, Token::Minus) => Some(BinOp::Sub),
        (6u8, Token::Star) => Some(BinOp::Mul),
        (6u8, Token::Slash) => Some(BinOp::Div),
        (6u8, Token::Percent) => Some(BinOp::Mod),
        _ => None,
    }
}

/// Parses an expression of precedence `level` from the token `pos` on (see `parse_level`).
fn parse_at(t: &Vec<Lexeme>, pos: usize, level: u8) -> (r: ParseOutcome)
    requires
        pos <= t@.len(),
        level <= 8,
    ensures
        outcome_view(r) == parse_level(tokens_of(t@), pos as nat, level),
        r matches Ok((_, p)) ==> pos < p <= t@.len(),
        r matches Err((p, _)) ==> p <= t@.len(),
    decreases t@.len() - pos, 9 - level, 0nat,
{
    let ghost tk = tokens_of(t@);
    assert(tk.len() == t@.len());
    assert(forall|i: int| 0 <= i < t@.len() ==> tk[i] == #[trigger] t@[i].token);
    if level == 0 {
        match parse_at(t, pos, 1) {
            Ok((c, p)) => {
                if p < t.len() && t[p].token == Token::Question {
                    match parse_at(t, p + 1, 0) {
                        Ok((a, q)) => {
                            if q < t.len() && t[q].token == Token::Colon {
                                match parse_at(t, q + 1, 0) {
                                    Ok((b, r)) => Ok(
                                        (
                                            Node::Cond {
                                                test: Box::new(c),
                                                if_true: Box::new(a),
                                                if_false: Box::new(b),
                                            },
                                            r,
                                        ),
                                    ),
                                    Err(e) => Err(e),
                                }
                            } else {
                                Err((q, Expected::Colon))
                            }
                        },
                        Err(e) => Err(e),
                    }
                } else {
                    Ok((c, p))
                }
            },
            Err(e) => Err(e),
        }
    } else if level <= 6 {
        match parse_at(t, pos, level + 1) {
            Ok((l, p)) => parse_chain(t, p, level, l),
            Err(e) => Err(e),
        }
    } else if level == 7 {
        if pos < t.len() && (t[pos].token == Token::Bang || t[pos].token == Token::Minus) {
            let op = if t[pos].token == Token::Bang {
                UnOp::Not
            } else {
                UnOp::Neg
            };
            match parse_at(t, pos + 1, 7) {
                Ok((e, p)) => Ok((Node::UnOp { op, rhs: Box::new(e) }, p)),
                Err(e) => Err(e),
            }
        } else {
            parse_at(t, pos, 8)
        }
    } else {
        if pos < t.len() {
            match t[pos].token {
                Token::Var => Ok((Node::Var, pos + 1)),
                Token::Int(v) => Ok((Node::Num(v), pos + 1)),
                Token::LParen => match parse_at(t, pos + 1, 0) {
                    Ok((e, q)) => {
                        if q < t.len() && t[q].token == Token::RParen {
                            Ok((e, q + 1))
                        } else {
                            Err((q, Expected::CloseParen))
                        }
                    },
                    Err(e) => Err(e),
                },
                _ => Err((pos, Expected::Operand)),
            }
        } else {
            Err((pos, Expected::Operand))
        }
    }
}

/// Continues a chain of operators of precedence `level` after `lhs` (see `parse_tail`).
fn parse_chain(t: &Vec<Lexeme>, pos: usize, level: u8, lhs: Node) -> (r: ParseOutcome)
    requires
        pos <= t@.len(),
        1 <= level <= 6,
    ensures
        outcome_view(r) == parse_tail(tokens_of(t@), pos as nat, level, lhs),
        r matches Ok((_, p)) ==> pos <= p <= t@.len(),
        r matches Err((p, _)) ==> p <= t@.len(),
    decreases t@.len() - pos, 9 - level, 1nat,
{
    let ghost tk = tokens_of(t@);
    assert(tk.len() == t@.len());
    assert(forall|i: int| 0 <= i < t@.len() ==> tk[i] == #[trigger] t@[i].token);
    if pos < t.len() {
        match binop_of(level, t[pos].token) {
            Some(op) => match parse_at(t, pos + 1, level + 1) {
                Ok((r, q)) => parse_chain(
                    t,
                    q,
                    level,
                    Node::BinOp { op, lhs: Box::new(lhs), rhs: Box::new(r) },
                ),
                Err(e) => Err(e),
            },
            None => Ok((lhs, pos)),
        }
    } else {
        Ok((lhs, pos))
    }
}

/// Parses the whole token sequence as one expression; on failure, the index of the token where
/// parsing stopped (the length for the end of input) and what was expected there.
pub fn parse_expression(t: &Vec<Lexeme>) -> (r: Result<Node, (usize, Expected)>)
    ensures
        match r {
            Ok(n) => parse_tokens(tokens_of(t@)) == Ok::<Node, (nat, Expected)>(n),
            Err((p, e)) => parse_tokens(tokens_of(t@)) == Err::<Node, (nat, Expected)>(
                (p as nat, e),
            ) && p <= t@.len(),
        },
{
    match parse_at(t, 0, 0) {
        Ok((e, p)) => {
            if p == t.len() {
                Ok(e)
            } else {
                Err((p, Expected::End))
            }
        },
        Err(e) => Err(e),
    }
}

} // verus!
