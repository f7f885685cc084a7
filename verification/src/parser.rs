//! The parser. The expression and single-statement grammar is pure and has an
//! exact specification (`spec_parse_line` and the precedence chain below it):
//! each executable parser computes exactly its spec function. Every binary
//! level parses its higher level and then recurses into itself on its own
//! operator, so every binary operator associates to the right.
//!
//! Block parsing (`if`/`else`/`def` bodies) pulls further lines from a
//! `LineSource`, guided by the stack of open indentation levels. Over a
//! source whose coming lines are known (`LineSource::lines`), it too is
//! specified exactly: `spec_parse`, `spec_parse_if`, `spec_parse_else`,
//! `spec_parse_def` and `spec_parse_body` define the whole discipline — the
//! header errors, the pushed level, the required indent, the three dedent
//! rules, and the `else` attachment — and each executable function computes
//! them. Against a source whose lines cannot be known ahead (standard
//! input), the contracts keep the header errors, the shape of the node
//! built, the exact parse of its in-line parts, and non-empty bodies.
use crate::lexer::{spec_tokenize, tokenize};
use crate::types::{clone_nodes, lemma_view_nodes_index, lemma_view_nodes_len, view_nodes, Error, ErrorV, Expr, ExprV, NodeV, Op, PyType, Stmt, StmtV, TokV, Token};
use vstd::prelude::*;

verus! {

broadcast use {vstd::std_specs::vec::group_vec_axioms, vstd::seq::group_seq_axioms,
    crate::types::lemma_view_nodes_len, crate::types::lemma_view_nodes_index};

// ---------------------------------------------------------------------------
// Specification of the pure grammar.
// ---------------------------------------------------------------------------
/// Outcome of a parse: the position after the consumed tokens and the node,
/// or the error.
pub ghost enum ParseOut {
    Parsed(int, NodeV),
    Failed(ErrorV),
}

/// Outcome of parsing a call's argument list.
pub ghost enum ArgsOut {
    ArgsParsed(int, Seq<NodeV>),
    ArgsFailed(ErrorV),
}

/// Outcome of parsing a definition's parameter-name list.
pub ghost enum ParamsOut {
    ParamsParsed(int, Seq<Seq<char>>),
    ParamsFailed(ErrorV),
}

/// Consuming one expected token: the position after it, or the error naming
/// the expected and the found token (`None`: end of tokens).
pub open spec fn spec_match(toks: Seq<TokV>, i: int, expected: TokV) -> Result<int, ErrorV> {
    if i >= toks.len() {
        Err(ErrorV::UnexpectedToken(expected, None))
    } else if toks[i] == expected {
        Ok(i + 1)
    } else {
        Err(ErrorV::UnexpectedToken(expected, Some(toks[i])))
    }
}

/// The position after consuming the operator token at `j`. A parse never
/// returns a position before where it started, so this is `j + 1`; the lower
/// bound makes that a theorem of the definition rather than a side condition.
pub open spec fn advance(i: int, j: int) -> int {
    if j >= i {
        j + 1
    } else {
        i + 1
    }
}

/// A primary: a literal, a variable, a function call, or a parenthesized
/// expression.
pub open spec fn spec_parse_primary(toks: Seq<TokV>, i: int) -> ParseOut
    decreases toks.len() - i, 0int,
    when 0 <= i
{
    if i < toks.len() && (toks[i] matches TokV::TokInt(_)) {
        ParseOut::Parsed(i + 1, NodeV::Expr(ExprV::Int(toks[i]->TokInt_0)))
    } else if i < toks.len() && (toks[i] matches TokV::TokFloat(_)) {
        ParseOut::Parsed(i + 1, NodeV::Expr(ExprV::Float(toks[i]->TokFloat_0)))
    } else if i < toks.len() && (toks[i] matches TokV::TokString(_)) {
        ParseOut::Parsed(i + 1, NodeV::Expr(ExprV::Str(toks[i]->TokString_0)))
    } else if i < toks.len() && (toks[i] matches TokV::TokBool(_)) {
        ParseOut::Parsed(i + 1, NodeV::Expr(ExprV::Bool(toks[i]->TokBool_0)))
    } else if i < toks.len() && (toks[i] matches TokV::TokVar(_)) {
        let v = toks[i]->TokVar_0;
        if i + 1 < toks.len() && toks[i + 1] == TokV::TokLParen {
            if i + 2 < toks.len() && toks[i + 2] == TokV::TokRParen {
                ParseOut::Parsed(i + 3, NodeV::Expr(ExprV::FunctionCall(v, seq![])))
            } else {
                match spec_parse_args(toks, i + 2) {
                    ArgsOut::ArgsParsed(j, args) => ParseOut::Parsed(
                        j,
                        NodeV::Expr(ExprV::FunctionCall(v, args)),
                    ),
                    ArgsOut::ArgsFailed(e) => ParseOut::Failed(e),
                }
            }
        } else {
            ParseOut::Parsed(i + 1, NodeV::Expr(ExprV::Var(v)))
        }
    } else {
        match spec_match(toks, i, TokV::TokLParen) {
            Err(e) => ParseOut::Failed(e),
            Ok(j) => match spec_parse_expr(toks, j) {
                ParseOut::Failed(e) => ParseOut::Failed(e),
                ParseOut::Parsed(k, e) => match spec_match(toks, k, TokV::TokRParen) {
                    Err(er) => ParseOut::Failed(er),
                    Ok(m) => ParseOut::Parsed(m, e),
                },
            },
        }
    }
}

/// A comma-separated argument list, ended by the closing parenthesis.
pub open spec fn spec_parse_args(toks: Seq<TokV>, i: int) -> ArgsOut
    decreases toks.len() - i, 8int,
    when 0 <= i
{
    match spec_parse_expr(toks, i) {
        ParseOut::Failed(e) => ArgsOut::ArgsFailed(e),
        ParseOut::Parsed(j, e) => if i <= j && j < toks.len() && toks[j] == TokV::TokComma {
            match spec_parse_args(toks, advance(i, j)) {
                ArgsOut::ArgsParsed(k, rest) => ArgsOut::ArgsParsed(k, seq![e] + rest),
                ArgsOut::ArgsFailed(er) => ArgsOut::ArgsFailed(er),
            }
        } else {
            match spec_match(toks, j, TokV::TokRParen) {
                Ok(k) => ArgsOut::ArgsParsed(k, seq![e]),
                Err(er) => ArgsOut::ArgsFailed(er),
            }
        },
    }
}

/// A unary layer: `not`, the unary-minus marker (rewritten as multiplication
/// by minus one), or a primary.
pub open spec fn spec_parse_unary(toks: Seq<TokV>, i: int) -> ParseOut
    decreases toks.len() - i, 1int,
    when 0 <= i
{
    if i < toks.len() && toks[i] == TokV::TokUnaryMinus {
        match spec_parse_primary(toks, i + 1) {
            ParseOut::Parsed(j, e) => ParseOut::Parsed(
                j,
                NodeV::Expr(
                    ExprV::Binop(
                        Op::Mult,
                        Box::new(NodeV::Expr(ExprV::Int(-1))),
                        Box::new(e),
                    ),
                ),
            ),
            ParseOut::Failed(e) => ParseOut::Failed(e),
        }
    } else if i < toks.len() && toks[i] == TokV::TokNot {
        match spec_parse_primary(toks, i + 1) {
            ParseOut::Parsed(j, e) => ParseOut::Parsed(j, NodeV::Expr(ExprV::Not(Box::new(e)))),
            ParseOut::Failed(e) => ParseOut::Failed(e),
        }
    } else {
        spec_parse_primary(toks, i)
    }
}

/// The multiplicative layer (`*`, `/`), right-associative.
pub open spec fn spec_parse_multiplicative(toks: Seq<TokV>, i: int) -> ParseOut
    decreases toks.len() - i, 2int,
    when 0 <= i
{
    match spec_parse_unary(toks, i) {
        ParseOut::Failed(e) => ParseOut::Failed(e),
        ParseOut::Parsed(j, e) => if i <= j && j < toks.len() && toks[j] == TokV::TokMult {
            match spec_parse_multiplicative(toks, advance(i, j)) {
                ParseOut::Parsed(k, r) => ParseOut::Parsed(
                    k,
                    NodeV::Expr(ExprV::Binop(Op::Mult, Box::new(e), Box::new(r))),
                ),
                ParseOut::Failed(er) => ParseOut::Failed(er),
            }
        } else if i <= j && j < toks.len() && toks[j] == TokV::TokDiv {
            match spec_parse_multiplicative(toks, advance(i, j)) {
                ParseOut::Parsed(k, r) => ParseOut::Parsed(
                    k,
                    NodeV::Expr(ExprV::Binop(Op::Div, Box::new(e), Box::new(r))),
                ),
                ParseOut::Failed(er) => ParseOut::Failed(er),
            }
        } else {
            ParseOut::Parsed(j, e)
        },
    }
}

/// The additive layer (`+`, `-`, and a unary-minus marker read as
/// subtraction), right-associative.
pub open spec fn spec_parse_additive(toks: Seq<TokV>, i: int) -> ParseOut
    decreases toks.len() - i, 3int,
    when 0 <= i
{
    match spec_parse_multiplicative(toks, i) {
        ParseOut::Failed(e) => ParseOut::Failed(e),
        ParseOut::Parsed(j, e) => if i <= j && j < toks.len() && toks[j] == TokV::TokPlus {
            match spec_parse_additive(toks, advance(i, j)) {
                ParseOut::Parsed(k, r) => ParseOut::Parsed(
                    k,
                    NodeV::Expr(ExprV::Binop(Op::Add, Box::new(e), Box::new(r))),
                ),
                ParseOut::Failed(er) => ParseOut::Failed(er),
            }
        } else if i <= j && j < toks.len() && toks[j] == TokV::TokMinus {
            match spec_parse_additive(toks, advance(i, j)) {
                ParseOut::Parsed(k, r) => ParseOut::Parsed(
                    k,
                    NodeV::Expr(ExprV::Binop(Op::Sub, Box::new(e), Box::new(r))),
                ),
                ParseOut::Failed(er) => ParseOut::Failed(er),
            }
        } else if i <= j && j < toks.len() && toks[j] == TokV::TokUnaryMinus {
            match spec_parse_primary(toks, advance(i, j)) {
                ParseOut::Parsed(k, r) => ParseOut::Parsed(
                    k,
                    NodeV::Expr(ExprV::Binop(Op::Sub, Box::new(e), Box::new(r))),
                ),
                ParseOut::Failed(er) => ParseOut::Failed(er),
            }
        } else {
            ParseOut::Parsed(j, e)
        },
    }
}

/// The relational layer (`<`, `>`, `<=`, `>=`), right-associative.
pub open spec fn spec_parse_relational(toks: Seq<TokV>, i: int) -> ParseOut
    decreases toks.len() - i, 4int,
    when 0 <= i
{
    match spec_parse_additive(toks, i) {
        ParseOut::Failed(e) => ParseOut::Failed(e),
        ParseOut::Parsed(j, e) => if i <= j && j < toks.len() && toks[j] == TokV::TokLess {
            match spec_parse_relational(toks, advance(i, j)) {
                ParseOut::Parsed(k, r) => ParseOut::Parsed(
                    k,
                    NodeV::Expr(ExprV::Binop(Op::Less, Box::new(e), Box::new(r))),
                ),
                ParseOut::Failed(er) => ParseOut::Failed(er),
            }
        } else if i <= j && j < toks.len() && toks[j] == TokV::TokGreater {
            match spec_parse_relational(toks, advance(i, j)) {
                ParseOut::Parsed(k, r) => ParseOut::Parsed(
                    k,
                    NodeV::Expr(ExprV::Binop(Op::Greater, Box::new(e), Box::new(r))),
                ),
                ParseOut::Failed(er) => ParseOut::Failed(er),
            }
        } else if i <= j && j < toks.len() && toks[j] == TokV::TokLessEqual {
            match spec_parse_relational(toks, advance(i, j)) {
                ParseOut::Parsed(k, r) => ParseOut::Parsed(
                    k,
                    NodeV::Expr(ExprV::Binop(Op::LessEqual, Box::new(e), Box::new(r))),
                ),
                ParseOut::Failed(er) => ParseOut::Failed(er),
            }
        } else if i <= j && j < toks.len() && toks[j] == TokV::TokGreaterEqual {
            match spec_parse_relational(toks, advance(i, j)) {
                ParseOut::Parsed(k, r) => ParseOut::Parsed(
                    k,
                    NodeV::Expr(ExprV::Binop(Op::GreaterEqual, Box::new(e), Box::new(r))),
                ),
                ParseOut::Failed(er) => ParseOut::Failed(er),
            }
        } else {
            ParseOut::Parsed(j, e)
        },
    }
}

/// The equality layer (`==`, `!=`), right-associative.
pub open spec fn spec_parse_equality(toks: Seq<TokV>, i: int) -> ParseOut
    decreases toks.len() - i, 5int,
    when 0 <= i
{
    match spec_parse_relational(toks, i) {
        ParseOut::Failed(e) => ParseOut::Failed(e),
        ParseOut::Parsed(j, e) => if i <= j && j < toks.len() && toks[j] == TokV::TokDoubleEqual {
            match spec_parse_equality(toks, advance(i, j)) {
                ParseOut::Parsed(k, r) => ParseOut::Parsed(
                    k,
                    NodeV::Expr(ExprV::Binop(Op::Equal, Box::new(e), Box::new(r))),
                ),
                ParseOut::Failed(er) => ParseOut::Failed(er),
            }
        } else if i <= j && j < toks.len() && toks[j] == TokV::TokNotEqual {
            match spec_parse_equality(toks, advance(i, j)) {
                ParseOut::Parsed(k, r) => ParseOut::Parsed(
                    k,
                    NodeV::Expr(ExprV::Binop(Op::NotEqual, Box::new(e), Box::new(r))),
                ),
                ParseOut::Failed(er) => ParseOut::Failed(er),
            }
        } else {
            ParseOut::Parsed(j, e)
        },
    }
}

/// The `and` layer, right-associative.
pub open spec fn spec_parse_and(toks: Seq<TokV>, i: int) -> ParseOut
    decreases toks.len() - i, 6int,
    when 0 <= i
{
    match spec_parse_equality(toks, i) {
        ParseOut::Failed(e) => ParseOut::Failed(e),
        ParseOut::Parsed(j, e) => if i <= j && j < toks.len() && toks[j] == TokV::TokAnd {
            match spec_parse_and(toks, advance(i, j)) {
                ParseOut::Parsed(k, r) => ParseOut::Parsed(
                    k,
                    NodeV::Expr(ExprV::Binop(Op::And, Box::new(e), Box::new(r))),
                ),
                ParseOut::Failed(er) => ParseOut::Failed(er),
            }
        } else {
            ParseOut::Parsed(j, e)
        },
    }
}

/// A full expression: the `or` layer, right-associative.
pub open spec fn spec_parse_expr(toks: Seq<TokV>, i: int) -> ParseOut
    decreases toks.len() - i, 7int,
    when 0 <= i
{
    match spec_parse_and(toks, i) {
        ParseOut::Failed(e) => ParseOut::Failed(e),
        ParseOut::Parsed(j, e) => if i <= j && j < toks.len() && toks[j] == TokV::TokOr {
            match spec_parse_expr(toks, advance(i, j)) {
                ParseOut::Parsed(k, r) => ParseOut::Parsed(
                    k,
                    NodeV::Expr(ExprV::Binop(Op::Or, Box::new(e), Box::new(r))),
                ),
                ParseOut::Failed(er) => ParseOut::Failed(er),
            }
        } else {
            ParseOut::Parsed(j, e)
        },
    }
}

/// One statement or expression of a single line, for the statement forms
/// that stay within the line: assignment, `return`, or an expression.
/// (`if` and `def` open blocks and are parsed by the block layer.)
pub open spec fn spec_parse_line(toks: Seq<TokV>, i: int) -> ParseOut
    decreases toks.len() - i, 9int,
    when 0 <= i
{
    if i < toks.len() && (toks[i] matches TokV::TokVar(_)) && i + 1 < toks.len() && toks[i + 1]
        == TokV::TokAssign {
        let v = toks[i]->TokVar_0;
        match spec_parse_expr(toks, i + 2) {
            ParseOut::Parsed(j, e) => ParseOut::Parsed(
                j,
                NodeV::Stmt(StmtV::VarAssign(v, Box::new(e))),
            ),
            ParseOut::Failed(er) => ParseOut::Failed(er),
        }
    } else if i < toks.len() && toks[i] == TokV::TokReturn {
        match spec_parse_expr(toks, i + 1) {
            ParseOut::Parsed(j, e) => ParseOut::Parsed(j, NodeV::Expr(ExprV::Return(Box::new(e)))),
            ParseOut::Failed(er) => ParseOut::Failed(er),
        }
    } else {
        spec_parse_expr(toks, i)
    }
}

/// A comma-separated list of parameter names, ended by the closing
/// parenthesis.
pub open spec fn spec_parse_params(toks: Seq<TokV>, i: int) -> ParamsOut
    decreases toks.len() - i,
    when 0 <= i
{
    if i < toks.len() && (toks[i] matches TokV::TokVar(_)) {
        let v = toks[i]->TokVar_0;
        if i + 1 < toks.len() && toks[i + 1] == TokV::TokComma {
            match spec_parse_params(toks, i + 2) {
                ParamsOut::ParamsParsed(j, rest) => ParamsOut::ParamsParsed(j, seq![v] + rest),
                ParamsOut::ParamsFailed(e) => ParamsOut::ParamsFailed(e),
            }
        } else {
            match spec_match(toks, i + 1, TokV::TokRParen) {
                Ok(j) => ParamsOut::ParamsParsed(j, seq![v]),
                Err(e) => ParamsOut::ParamsFailed(e),
            }
        }
    } else {
        ParamsOut::ParamsFailed(
            if i < toks.len() {
                ErrorV::UnexpectedToken(TokV::TokRParen, Some(toks[i]))
            } else {
                ErrorV::UnexpectedToken(TokV::TokRParen, None)
            },
        )
    }
}

// ---------------------------------------------------------------------------
// Executable pure parsers: each computes exactly its spec function.
// ---------------------------------------------------------------------------
/// A token's view has the constructor of the token.
proof fn lemma_token_view_shape(t: &Token)
    ensures
        (t@ matches TokV::TokInt(_)) == (t matches Token::TokInt(_)),
        (t@ matches TokV::TokFloat(_)) == (t matches Token::TokFloat(_)),
        (t@ matches TokV::TokBool(_)) == (t matches Token::TokBool(_)),
        (t@ matches TokV::TokString(_)) == (t matches Token::TokString(_)),
        (t@ == TokV::TokUnaryMinus) == (t matches Token::TokUnaryMinus),
        (t@ == TokV::TokPlus) == (t matches Token::TokPlus),
        (t@ == TokV::TokMinus) == (t matches Token::TokMinus),
        (t@ == TokV::TokMult) == (t matches Token::TokMult),
        (t@ == TokV::TokDiv) == (t matches Token::TokDiv),
        (t@ == TokV::TokLParen) == (t matches Token::TokLParen),
        (t@ == TokV::TokRParen) == (t matches Token::TokRParen),
        (t@ == TokV::TokOr) == (t matches Token::TokOr),
        (t@ == TokV::TokAnd) == (t matches Token::TokAnd),
        (t@ == TokV::TokDoubleEqual) == (t matches Token::TokDoubleEqual),
        (t@ == TokV::TokNotEqual) == (t matches Token::TokNotEqual),
        (t@ == TokV::TokLess) == (t matches Token::TokLess),
        (t@ == TokV::TokGreater) == (t matches Token::TokGreater),
        (t@ == TokV::TokLessEqual) == (t matches Token::TokLessEqual),
        (t@ == TokV::TokGreaterEqual) == (t matches Token::TokGreaterEqual),
        (t@ matches TokV::TokVar(_)) == (t matches Token::TokVar(_)),
        (t@ == TokV::TokAssign) == (t matches Token::TokAssign),
        (t@ == TokV::TokIf) == (t matches Token::TokIf),
        (t@ == TokV::TokElif) == (t matches Token::TokElif),
        (t@ == TokV::TokElse) == (t matches Token::TokElse),
        (t@ == TokV::TokColon) == (t matches Token::TokColon),
        (t@ matches TokV::TokIndent(_)) == (t matches Token::TokIndent(_)),
        (t@ matches TokV::TokDedent(_)) == (t matches Token::TokDedent(_)),
        (t@ == TokV::TokNot) == (t matches Token::TokNot),
        (t@ == TokV::TokDef) == (t matches Token::TokDef),
        (t@ == TokV::TokReturn) == (t matches Token::TokReturn),
        (t@ == TokV::TokComma) == (t matches Token::TokComma),
{
    match t {
        Token::TokInt(_) => {},
        Token::TokFloat(_) => {},
        Token::TokBool(_) => {},
        Token::TokString(_) => {},
        Token::TokUnaryMinus => {},
        Token::TokPlus => {},
        Token::TokMinus => {},
        Token::TokMult => {},
        Token::TokDiv => {},
        Token::TokLParen => {},
        Token::TokRParen => {},
        Token::TokOr => {},
        Token::TokAnd => {},
        Token::TokDoubleEqual => {},
        Token::TokNotEqual => {},
        Token::TokLess => {},
        Token::TokGreater => {},
        Token::TokLessEqual => {},
        Token::TokGreaterEqual => {},
        Token::TokVar(_) => {},
        Token::TokAssign => {},
        Token::TokIf => {},
        Token::TokElif => {},
        Token::TokElse => {},
        Token::TokColon => {},
        Token::TokIndent(_) => {},
        Token::TokDedent(_) => {},
        Token::TokNot => {},
        Token::TokDef => {},
        Token::TokReturn => {},
        Token::TokComma => {},
    }
}

/// Whether two tokens have the same view.
fn token_eq(a: &Token, b: &Token) -> (r: bool)
    ensures
        r == (a@ == b@),
{
    proof {
        lemma_token_view_shape(a);
        lemma_token_view_shape(b);
        match (a, b) {
            (Token::TokFloat(p), Token::TokFloat(q)) => {
                crate::rational::lemma_rat_eq_view(p, q);
            },
            _ => {},
        }
    }
    match (a, b) {
        (Token::TokInt(x), Token::TokInt(y)) => *x == *y,
        (Token::TokFloat(p), Token::TokFloat(q)) => *p == *q,
        (Token::TokBool(x), Token::TokBool(y)) => *x == *y,
        (Token::TokString(x), Token::TokString(y)) => *x == *y,
        (Token::TokUnaryMinus, Token::TokUnaryMinus) => true,
        (Token::TokPlus, Token::TokPlus) => true,
        (Token::TokMinus, Token::TokMinus) => true,
        (Token::TokMult, Token::TokMult) => true,
        (Token::TokDiv, Token::TokDiv) => true,
        (Token::TokLParen, Token::TokLParen) => true,
        (Token::TokRParen, Token::TokRParen) => true,
        (Token::TokOr, Token::TokOr) => true,
        (Token::TokAnd, Token::TokAnd) => true,
        (Token::TokDoubleEqual, Token::TokDoubleEqual) => true,
        (Token::TokNotEqual, Token::TokNotEqual) => true,
        (Token::TokLess, Token::TokLess) => true,
        (Token::TokGreater, Token::TokGreater) => true,
        (Token::TokLessEqual, Token::TokLessEqual) => true,
        (Token::TokGreaterEqual, Token::TokGreaterEqual) => true,
        (Token::TokVar(x), Token::TokVar(y)) => *x == *y,
        (Token::TokAssign, Token::TokAssign) => true,
        (Token::TokIf, Token::TokIf) => true,
        (Token::TokElif, Token::TokElif) => true,
        (Token::TokElse, Token::TokElse) => true,
        (Token::TokColon, Token::TokColon) => true,
        (Token::TokIndent(x), Token::TokIndent(y)) => *x == *y,
        (Token::TokDedent(x), Token::TokDedent(y)) => *x == *y,
        (Token::TokNot, Token::TokNot) => true,
        (Token::TokDef, Token::TokDef) => true,
        (Token::TokReturn, Token::TokReturn) => true,
        (Token::TokComma, Token::TokComma) => true,
        _ => false,
    }
}

/// The token at the cursor, if any.
pub fn lookahead<'a>(tokens: &'a Vec<Token>, i: usize) -> (r: Option<&'a Token>)
    ensures
        match r {
            Some(t) => i < tokens@.len() && t@ == tokens.deep_view()[i as int],
            None => i >= tokens@.len(),
        },
{
    lookahead_at(tokens, i, 0)
}

/// The token `offset` places past the cursor, if any.
pub fn lookahead_at<'a>(tokens: &'a Vec<Token>, i: usize, offset: usize) -> (r: Option<
    &'a Token,
>)
    ensures
        match r {
            Some(t) => i + offset < tokens@.len() && t@ == tokens.deep_view()[i as int
                + offset as int],
            None => i + offset >= tokens@.len(),
        },
{
    if offset < tokens.len() && i < tokens.len() - offset {
        Some(&tokens[i + offset])
    } else {
        None
    }
}

/// Consumes one expected token at the cursor, or reports the token found.
pub fn match_token(tokens: &Vec<Token>, i: usize, expected: &Token) -> (r: Result<usize, Error>)
    ensures
        ({
            match spec_match(tokens.deep_view(), i as int, expected@) {
                Ok(j) => (r matches Ok(jj) && jj as int == j) && i < j <= tokens@.len(),
                Err(e) => (r matches Err(err) && err@ == e),
            }
        }),
{
    if i >= tokens.len() {
        return Err(Error::UnexpectedToken(expected.clone(), None));
    }
    if token_eq(&tokens[i], expected) {
        Ok(i + 1)
    } else {
        Err(Error::UnexpectedToken(expected.clone(), Some(tokens[i].clone())))
    }
}

/// How an executable parse result matches a spec parse outcome.
pub open spec fn parse_agrees(
    o: ParseOut,
    r: Result<(usize, PyType), Error>,
    len: int,
    i: int,
) -> bool {
    match o {
        ParseOut::Parsed(j, n) => (r matches Ok(p) && p.0 as int == j && p.1@ == n) && i < j
            <= len,
        ParseOut::Failed(e) => (r matches Err(err) && err@ == e),
    }
}

/// Puts a node in front of a parsed list of nodes.
fn prepend_node(e: PyType, rest: Vec<PyType>) -> (r: Vec<PyType>)
    ensures
        view_nodes(r@) == seq![e@] + view_nodes(rest@),
{
    let mut out: Vec<PyType> = Vec::new();
    let ghost ev = e@;
    out.push(e);
    let mut t: usize = 0;
    while t < rest.len()
        invariant
            t <= rest@.len(),
            out@.len() == t + 1,
            out@[0]@ == ev,
            forall|k: int| 0 <= k < t ==> out@[k + 1]@ == rest@[k]@,
        decreases rest@.len() - t,
    {
        let c = rest[t].clone();
        out.push(c);
        t = t + 1;
    }
    proof {
        assert forall|k: int| 0 <= k < out@.len() implies view_nodes(out@)[k] == (seq![ev]
            + view_nodes(rest@))[k] by {}
        assert(view_nodes(out@) =~= seq![ev] + view_nodes(rest@));
    }
    out
}

/// Parses a primary: a literal, a variable, a call, or a parenthesized
/// expression.
pub fn parse_primary(tokens: &Vec<Token>, i: usize) -> (r: Result<(usize, PyType), Error>)
    ensures
        parse_agrees(
            spec_parse_primary(tokens.deep_view(), i as int),
            r,
            tokens@.len() as int,
            i as int,
        ),
    decreases tokens@.len() - i, 0int,
{
    let len = tokens.len();
    if i < len {
        proof {
            lemma_token_view_shape(&tokens[i as int]);
        }
        match &tokens[i] {
            Token::TokInt(n) => {
                return Ok((i + 1, PyType::Expr(Expr::Int(*n))));
            },
            Token::TokFloat(d) => {
                return Ok((i + 1, PyType::Expr(Expr::Float(*d))));
            },
            Token::TokString(st) => {
                return Ok((i + 1, PyType::Expr(Expr::Str(st.clone()))));
            },
            Token::TokBool(b) => {
                return Ok((i + 1, PyType::Expr(Expr::Bool(*b))));
            },
            Token::TokVar(v) => {
                if i + 1 < len {
                    proof {
                        lemma_token_view_shape(&tokens[i as int + 1]);
                    }
                    if matches!(&tokens[i + 1], Token::TokLParen) {
                        if i + 2 < len {
                            proof {
                                lemma_token_view_shape(&tokens[i as int + 2]);
                            }
                            if matches!(&tokens[i + 2], Token::TokRParen) {
                                let args: Vec<PyType> = Vec::new();
                                proof {
                                    assert(view_nodes(args@) =~= Seq::<NodeV>::empty());
                                }
                                return Ok(
                                    (i + 3, PyType::Expr(Expr::FunctionCall(v.clone(), args))),
                                );
                            }
                        }
                        match parse_args(tokens, i + 2) {
                            Ok((j, args)) => {
                                return Ok(
                                    (j, PyType::Expr(Expr::FunctionCall(v.clone(), args))),
                                );
                            },
                            Err(e) => {
                                return Err(e);
                            },
                        }
                    }
                }
                return Ok((i + 1, PyType::Expr(Expr::Var(v.clone()))));
            },
            _ => {},
        }
    }
    match match_token(tokens, i, &Token::TokLParen) {
        Err(e) => Err(e),
        Ok(j) => match parse_expr(tokens, j) {
            Err(e) => Err(e),
            Ok((k, e)) => match match_token(tokens, k, &Token::TokRParen) {
                Err(er) => Err(er),
                Ok(m) => Ok((m, e)),
            },
        },
    }
}

/// Parses a comma-separated argument list up to and including the closing
/// parenthesis.
fn parse_args(tokens: &Vec<Token>, i: usize) -> (r: Result<(usize, Vec<PyType>), Error>)
    ensures
        ({
            match spec_parse_args(tokens.deep_view(), i as int) {
                ArgsOut::ArgsParsed(j, args) => {
                    &&& r matches Ok(p)
                    &&& p.0 as int == j
                    &&& view_nodes(p.1@) == args
                    &&& (i as int) < j <= tokens@.len()
                },
                ArgsOut::ArgsFailed(e) => {
                    &&& r matches Err(err)
                    &&& err@ == e
                },
            }
        }),
    decreases tokens@.len() - i, 8int,
{
    match parse_expr(tokens, i) {
        Err(e) => Err(e),
        Ok((j, e)) => {
            if j < tokens.len() {
                proof {
                    lemma_token_view_shape(&tokens[j as int]);
                }
                if matches!(&tokens[j], Token::TokComma) {
                    return match parse_args(tokens, j + 1) {
                        Ok((k, rest)) => Ok((k, prepend_node(e, rest))),
                        Err(er) => Err(er),
                    };
                }
            }
            match match_token(tokens, j, &Token::TokRParen) {
                Ok(k) => {
                    let one = prepend_node(e, Vec::new());
                    proof {
                        assert(view_nodes(Seq::<PyType>::empty()) =~= Seq::<NodeV>::empty());
                    }
                    Ok((k, one))
                },
                Err(er) => Err(er),
            }
        },
    }
}

/// Parses a unary layer: `not`, a unary-minus marker, or a primary.
pub fn parse_unary(tokens: &Vec<Token>, i: usize) -> (r: Result<(usize, PyType), Error>)
    ensures
        parse_agrees(
            spec_parse_unary(tokens.deep_view(), i as int),
            r,
            tokens@.len() as int,
            i as int,
        ),
    decreases tokens@.len() - i, 1int,
{
    if i < tokens.len() {
        proof {
            lemma_token_view_shape(&tokens[i as int]);
            assert(tokens.deep_view()[i as int] == tokens[i as int]@);
        }
        if matches!(&tokens[i], Token::TokUnaryMinus) {
            return match parse_primary(tokens, i + 1) {
                Ok((j, e)) => {
                    let ghost ev = e@;
                    let minus_one = PyType::Expr(Expr::Int(-1));
                    proof {
                        assert(minus_one@ == NodeV::Expr(ExprV::Int(-1)));
                    }
                    let node = PyType::Expr(
                        Expr::Binop(Op::Mult, Box::new(minus_one), Box::new(e)),
                    );
                    proof {
                        assert(node@ == NodeV::Expr(
                            ExprV::Binop(
                                Op::Mult,
                                Box::new(NodeV::Expr(ExprV::Int(-1))),
                                Box::new(ev),
                            ),
                        ));
                    }
                    Ok((j, node))
                },
                Err(e) => Err(e),
            };
        }
        if matches!(&tokens[i], Token::TokNot) {
            return match parse_primary(tokens, i + 1) {
                Ok((j, e)) => Ok((j, PyType::Expr(Expr::Not(Box::new(e))))),
                Err(e) => Err(e),
            };
        }
    }
    parse_primary(tokens, i)
}

/// Parses the multiplicative layer (`*`, `/`); its operators associate to the
/// right.
pub fn parse_multiplicative(tokens: &Vec<Token>, i: usize) -> (r: Result<(usize, PyType), Error>)
    ensures
        parse_agrees(
            spec_parse_multiplicative(tokens.deep_view(), i as int),
            r,
            tokens@.len() as int,
            i as int,
        ),
    decreases tokens@.len() - i, 2int,
{
    match parse_unary(tokens, i) {
        Err(e) => Err(e),
        Ok((j, e)) => {
            if j < tokens.len() {
                proof {
                    lemma_token_view_shape(&tokens[j as int]);
                }
                if matches!(&tokens[j], Token::TokMult) {
                    return match parse_multiplicative(tokens, j + 1) {
                        Ok((k, rhs)) => Ok(
                            (k, PyType::Expr(Expr::Binop(Op::Mult, Box::new(e), Box::new(rhs)))),
                        ),
                        Err(er) => Err(er),
                    };
                }
                if matches!(&tokens[j], Token::TokDiv) {
                    return match parse_multiplicative(tokens, j + 1) {
                        Ok((k, rhs)) => Ok(
                            (k, PyType::Expr(Expr::Binop(Op::Div, Box::new(e), Box::new(rhs)))),
                        ),
                        Err(er) => Err(er),
                    };
                }
            }
            Ok((j, e))
        },
    }
}

/// Parses the additive layer (`+`, `-`, a unary-minus marker read as
/// subtraction); its operators associate to the right.
pub fn parse_additive(tokens: &Vec<Token>, i: usize) -> (r: Result<(usize, PyType), Error>)
    ensures
        parse_agrees(
            spec_parse_additive(tokens.deep_view(), i as int),
            r,
            tokens@.len() as int,
            i as int,
        ),
    decreases tokens@.len() - i, 3int,
{
    match parse_multiplicative(tokens, i) {
        Err(e) => Err(e),
        Ok((j, e)) => {
            if j < tokens.len() {
                proof {
                    lemma_token_view_shape(&tokens[j as int]);
                }
                if matches!(&tokens[j], Token::TokPlus) {
                    return match parse_additive(tokens, j + 1) {
                        Ok((k, rhs)) => Ok(
                            (k, PyType::Expr(Expr::Binop(Op::Add, Box::new(e), Box::new(rhs)))),
                        ),
                        Err(er) => Err(er),
                    };
                }
                if matches!(&tokens[j], Token::TokMinus) {
                    return match parse_additive(tokens, j + 1) {
                        Ok((k, rhs)) => Ok(
                            (k, PyType::Expr(Expr::Binop(Op::Sub, Box::new(e), Box::new(rhs)))),
                        ),
                        Err(er) => Err(er),
                    };
                }
                if matches!(&tokens[j], Token::TokUnaryMinus) {
                    return match parse_primary(tokens, j + 1) {
                        Ok((k, rhs)) => Ok(
                            (k, PyType::Expr(Expr::Binop(Op::Sub, Box::new(e), Box::new(rhs)))),
                        ),
                        Err(er) => Err(er),
                    };
                }
            }
            Ok((j, e))
        },
    }
}

/// Parses the relational layer (`<`, `>`, `<=`, `>=`); its operators
/// associate to the right.
pub fn parse_relational(tokens: &Vec<Token>, i: usize) -> (r: Result<(usize, PyType), Error>)
    ensures
        parse_agrees(
            spec_parse_relational(tokens.deep_view(), i as int),
            r,
            tokens@.len() as int,
            i as int,
        ),
    decreases tokens@.len() - i, 4int,
{
    match parse_additive(tokens, i) {
        Err(e) => Err(e),
        Ok((j, e)) => {
            if j < tokens.len() {
                proof {
                    lemma_token_view_shape(&tokens[j as int]);
                }
                if matches!(&tokens[j], Token::TokLess) {
                    return match parse_relational(tokens, j + 1) {
                        Ok((k, rhs)) => Ok(
                            (k, PyType::Expr(Expr::Binop(Op::Less, Box::new(e), Box::new(rhs)))),
                        ),
                        Err(er) => Err(er),
                    };
                }
                if matches!(&tokens[j], Token::TokGreater) {
                    return match parse_relational(tokens, j + 1) {
                        Ok((k, rhs)) => Ok(
                            (
                                k,
                                PyType::Expr(Expr::Binop(Op::Greater, Box::new(e), Box::new(rhs))),
                            ),
                        ),
                        Err(er) => Err(er),
                    };
                }
                if matches!(&tokens[j], Token::TokLessEqual) {
                    return match parse_relational(tokens, j + 1) {
                        Ok((k, rhs)) => Ok(
                            (
                                k,
                                PyType::Expr(
                                    Expr::Binop(Op::LessEqual, Box::new(e), Box::new(rhs)),
                                ),
                            ),
                        ),
                        Err(er) => Err(er),
                    };
                }
                if matches!(&tokens[j], Token::TokGreaterEqual) {
                    return match parse_relational(tokens, j + 1) {
                        Ok((k, rhs)) => Ok(
                            (
                                k,
                                PyType::Expr(
                                    Expr::Binop(Op::GreaterEqual, Box::new(e), Box::new(rhs)),
                                ),
                            ),
                        ),
                        Err(er) => Err(er),
                    };
                }
            }
            Ok((j, e))
        },
    }
}

/// Parses the equality layer (`==`, `!=`); its operators associate to the
/// right.
pub fn parse_equality(tokens: &Vec<Token>, i: usize) -> (r: Result<(usize, PyType), Error>)
    ensures
        parse_agrees(
            spec_parse_equality(tokens.deep_view(), i as int),
            r,
            tokens@.len() as int,
            i as int,
        ),
    decreases tokens@.len() - i, 5int,
{
    match parse_relational(tokens, i) {
        Err(e) => Err(e),
        Ok((j, e)) => {
            if j < tokens.len() {
                proof {
                    lemma_token_view_shape(&tokens[j as int]);
                }
                if matches!(&tokens[j], Token::TokDoubleEqual) {
                    return match parse_equality(tokens, j + 1) {
                        Ok((k, rhs)) => Ok(
                            (k, PyType::Expr(Expr::Binop(Op::Equal, Box::new(e), Box::new(rhs)))),
                        ),
                        Err(er) => Err(er),
                    };
                }
                if matches!(&tokens[j], Token::TokNotEqual) {
                    return match parse_equality(tokens, j + 1) {
                        Ok((k, rhs)) => Ok(
                            (
                                k,
                                PyType::Expr(
                                    Expr::Binop(Op::NotEqual, Box::new(e), Box::new(rhs)),
                                ),
                            ),
                        ),
                        Err(er) => Err(er),
                    };
                }
            }
            Ok((j, e))
        },
    }
}

/// Parses the `and` layer; `and` associates to the right.
pub fn parse_and(tokens: &Vec<Token>, i: usize) -> (r: Result<(usize, PyType), Error>)
    ensures
        parse_agrees(
            spec_parse_and(tokens.deep_view(), i as int),
            r,
            tokens@.len() as int,
            i as int,
        ),
    decreases tokens@.len() - i, 6int,
{
    match parse_equality(tokens, i) {
        Err(e) => Err(e),
        Ok((j, e)) => {
            if j < tokens.len() {
                proof {
                    lemma_token_view_shape(&tokens[j as int]);
                }
                if matches!(&tokens[j], Token::TokAnd) {
                    return match parse_and(tokens, j + 1) {
                        Ok((k, rhs)) => Ok(
                            (k, PyType::Expr(Expr::Binop(Op::And, Box::new(e), Box::new(rhs)))),
                        ),
                        Err(er) => Err(er),
                    };
                }
            }
            Ok((j, e))
        },
    }
}

/// Parses one full expression: the `or` layer; `or` associates to the right.
pub fn parse_expr(tokens: &Vec<Token>, i: usize) -> (r: Result<(usize, PyType), Error>)
    ensures
        parse_agrees(
            spec_parse_expr(tokens.deep_view(), i as int),
            r,
            tokens@.len() as int,
            i as int,
        ),
    decreases tokens@.len() - i, 7int,
{
    match parse_and(tokens, i) {
        Err(e) => Err(e),
        Ok((j, e)) => {
            if j < tokens.len() {
                proof {
                    lemma_token_view_shape(&tokens[j as int]);
                }
                if matches!(&tokens[j], Token::TokOr) {
                    return match parse_expr(tokens, j + 1) {
                        Ok((k, rhs)) => Ok(
                            (k, PyType::Expr(Expr::Binop(Op::Or, Box::new(e), Box::new(rhs)))),
                        ),
                        Err(er) => Err(er),
                    };
                }
            }
            Ok((j, e))
        },
    }
}

/// Parses an assignment statement whose variable name stands at the cursor.
pub fn parse_assign(tokens: &Vec<Token>, i: usize) -> (r: Result<(usize, PyType), Error>)
    requires
        i < tokens@.len(),
        tokens.deep_view()[i as int] matches TokV::TokVar(_),
        i + 1 < tokens@.len(),
        tokens.deep_view()[i as int + 1] == TokV::TokAssign,
    ensures
        parse_agrees(
            spec_parse_line(tokens.deep_view(), i as int),
            r,
            tokens@.len() as int,
            i as int,
        ),
{
    let n = tokens.len();
    proof {
        lemma_token_view_shape(&tokens[i as int]);
    }
    match &tokens[i] {
        Token::TokVar(v) => match parse_expr(tokens, i + 2) {
            Ok((j, e)) => Ok((j, PyType::Stmt(Stmt::VarAssign(v.clone(), Box::new(e))))),
            Err(er) => Err(er),
        },
        _ => {
            proof {
                assert(false);
            }
            Err(Error::TrailingTokens)
        },
    }
}

/// Parses one in-line statement or expression: an assignment, a `return`, or
/// an expression.
pub fn parse_simple(tokens: &Vec<Token>, i: usize) -> (r: Result<(usize, PyType), Error>)
    ensures
        parse_agrees(
            spec_parse_line(tokens.deep_view(), i as int),
            r,
            tokens@.len() as int,
            i as int,
        ),
{
    if i < tokens.len() {
        proof {
            lemma_token_view_shape(&tokens[i as int]);
        }
        if matches!(&tokens[i], Token::TokVar(_)) && i + 1 < tokens.len() {
            proof {
                lemma_token_view_shape(&tokens[i as int + 1]);
            }
            if matches!(&tokens[i + 1], Token::TokAssign) {
                return parse_assign(tokens, i);
            }
        }
        if matches!(&tokens[i], Token::TokReturn) {
            return match parse_expr(tokens, i + 1) {
                Ok((j, e)) => Ok((j, PyType::Expr(Expr::Return(Box::new(e))))),
                Err(er) => Err(er),
            };
        }
    }
    parse_expr(tokens, i)
}

/// Parses a comma-separated parameter-name list up to and including the
/// closing parenthesis.
fn parse_params(tokens: &Vec<Token>, i: usize) -> (r: Result<(usize, Vec<String>), Error>)
    ensures
        ({
            match spec_parse_params(tokens.deep_view(), i as int) {
                ParamsOut::ParamsParsed(j, ps) => {
                    &&& r matches Ok(p)
                    &&& p.0 as int == j
                    &&& p.1.deep_view() == ps
                    &&& (i as int) < j <= tokens@.len()
                },
                ParamsOut::ParamsFailed(e) => {
                    &&& r matches Err(err)
                    &&& err@ == e
                },
            }
        }),
    decreases tokens@.len() - i,
{
    if i < tokens.len() {
        proof {
            lemma_token_view_shape(&tokens[i as int]);
        }
        match &tokens[i] {
            Token::TokVar(v) => {
                if i + 1 < tokens.len() {
                    proof {
                        lemma_token_view_shape(&tokens[i as int + 1]);
                    }
                    if matches!(&tokens[i + 1], Token::TokComma) {
                        return match parse_params(tokens, i + 2) {
                            Ok((j, rest)) => {
                                let mut out: Vec<String> = Vec::new();
                                out.push(v.clone());
                                let mut t: usize = 0;
                                while t < rest.len()
                                    invariant
                                        t <= rest@.len(),
                                        out@.len() == t + 1,
                                        out@[0]@ == tokens.deep_view()[i as int]->TokVar_0,
                                        forall|k: int|
                                            0 <= k < t ==> out@[k + 1]@ == rest@[k]@,
                                    decreases rest@.len() - t,
                                {
                                    let c = rest[t].clone();
                                    out.push(c);
                                    t = t + 1;
                                }
                                proof {
                                    assert(out.deep_view() =~= seq![
                                        tokens.deep_view()[i as int]->TokVar_0,
                                    ] + rest.deep_view());
                                }
                                Ok((j, out))
                            },
                            Err(er) => Err(er),
                        };
                    }
                }
                match match_token(tokens, i + 1, &Token::TokRParen) {
                    Ok(j) => {
                        let mut out: Vec<String> = Vec::new();
                        out.push(v.clone());
                        proof {
                            assert(out.deep_view() =~= seq![
                                tokens.deep_view()[i as int]->TokVar_0,
                            ]);
                        }
                        Ok((j, out))
                    },
                    Err(er) => Err(er),
                }
            },
            t => Err(Error::UnexpectedToken(Token::TokRParen, Some(t.clone()))),
        }
    } else {
        Err(Error::UnexpectedToken(Token::TokRParen, None))
    }
}

// ---------------------------------------------------------------------------
// Block parsing: pulling lines on demand, guided by the indentation stack.
// ---------------------------------------------------------------------------
/// The parser's collaborator: supplies the next raw source line while a block
/// body is incomplete. End of input is an empty line.
///
/// `lines` is the ghost view of the lines still to come. A source that knows
/// them ahead of time (a fixed list) overrides it and `next_line` then hands
/// them out exactly; a source that cannot know them (standard input) keeps
/// the default, the empty view, of which `next_line` promises nothing.
pub trait LineSource {
    /// The lines this source will supply next, in order.
    open spec fn lines(&self) -> Seq<Seq<char>> {
        Seq::empty()
    }

    /// The next raw source line. With a non-empty view, exactly its first
    /// line; an exhausted or viewless source keeps an empty view.
    fn next_line(&mut self) -> (r: String)
        ensures
            old(self).lines().len() > 0 ==> r@ == old(self).lines()[0] && final (self).lines()
                == old(self).lines().skip(1),
            old(self).lines().len() == 0 ==> final (self).lines().len() == 0,
    ;
}

/// A line source over a fixed list of lines; after the last it supplies empty
/// lines.
pub struct VecLineSource {
    pub items: Vec<String>,
    pub pos: usize,
}

impl VecLineSource {
    /// A source that will supply the given lines in order.
    pub fn new(lines: Vec<String>) -> (r: VecLineSource)
        ensures
            r.lines() == lines.deep_view(),
    {
        let r = VecLineSource { items: lines, pos: 0 };
        proof {
            assert(r.lines() =~= r.items.deep_view());
        }
        r
    }
}

impl LineSource for VecLineSource {
    /// The items not yet handed out.
    open spec fn lines(&self) -> Seq<Seq<char>> {
        if self.pos <= self.items@.len() {
            self.items.deep_view().skip(self.pos as int)
        } else {
            Seq::empty()
        }
    }

    fn next_line(&mut self) -> (r: String)
        ensures
            old(self).lines().len() > 0 ==> r@ == old(self).lines()[0] && final (self).lines()
                == old(self).lines().skip(1),
            old(self).lines().len() == 0 ==> final (self).lines().len() == 0,
    {
        if self.pos < self.items.len() {
            let s = self.items[self.pos].clone();
            self.pos = self.pos + 1;
            proof {
                assert(self.lines() =~= old(self).lines().skip(1));
                assert(self.items.deep_view()[old(self).pos as int] == old(self).lines()[0]);
            }
            s
        } else {
            proof {
                assert(old(self).lines().len() == 0);
            }
            String::new()
        }
    }
}

/// Whether a line's tokens open a block (`if` or `def` at the front).
pub open spec fn starts_block(toks: Seq<TokV>) -> bool {
    toks.len() > 0 && (toks[0] == TokV::TokIf || toks[0] == TokV::TokDef)
}


// ---------------------------------------------------------------------------
// Exact specification of block parsing over a known lines view.
// ---------------------------------------------------------------------------
/// The state the block layer threads: the previous line's indentation depth,
/// the stack of open indentation levels, and the lines still to come.
pub ghost struct PState {
    pub prev: i32,
    pub stack: Seq<i32>,
    pub lines: Seq<Seq<char>>,
}

/// Reading and tokenizing the next line: `None` when no line is known.
pub open spec fn spec_read(st: PState) -> Option<(Result<(Seq<TokV>, i32), ErrorV>, PState)> {
    if st.lines.len() == 0 {
        None
    } else {
        let st1 = PState { prev: st.prev, stack: st.stack, lines: st.lines.skip(1) };
        match spec_tokenize(st.lines[0], st.prev as int) {
            Ok(t) => Some((Ok((t.0, t.1 as i32)), st1)),
            Err(rem) => Some((Err(ErrorV::LexError(rem)), st1)),
        }
    }
}

/// One statement parse: the dispatch of `parse`, including the blocks it may
/// open. `None` when a line beyond the known view would be needed.
pub open spec fn spec_parse(toks: Seq<TokV>, st: PState, depth: nat) -> Option<(Result<
    (Seq<TokV>, NodeV),
    ErrorV,
>, PState)>
    decreases depth, 2int,
{
    if toks.len() > 0 && toks[0] == TokV::TokIf {
        if depth == 0 {
            Some((Err(ErrorV::RecursionLimit), st))
        } else {
            spec_parse_if(toks, 1, st, (depth - 1) as nat)
        }
    } else if toks.len() > 0 && toks[0] == TokV::TokDef {
        if depth == 0 {
            Some((Err(ErrorV::RecursionLimit), st))
        } else {
            spec_parse_def(toks, 1, st, (depth - 1) as nat)
        }
    } else {
        match spec_parse_line(toks, 0) {
            ParseOut::Parsed(j, n) => {
                let k = if 0 <= j <= toks.len() {
                    j
                } else {
                    0
                };
                Some((Ok((toks.skip(k), n)), st))
            },
            ParseOut::Failed(e) => Some((Err(e), st)),
        }
    }
}

/// An `if` statement: the header on the current line, then the indented
/// body from further lines, then an optional `else` block.
pub open spec fn spec_parse_if(toks: Seq<TokV>, i: int, st: PState, depth: nat) -> Option<(
    Result<(Seq<TokV>, NodeV), ErrorV>,
    PState,
)>
    decreases depth, 1int,
{
    match spec_parse_expr(toks, i) {
        ParseOut::Failed(e) => Some((Err(e), st)),
        ParseOut::Parsed(j, c) => match spec_match(toks, j, TokV::TokColon) {
            Err(e) => Some((Err(e), st)),
            Ok(k) => if k != toks.len() {
                Some((Err(ErrorV::TokensAfterColon), st))
            } else if depth == 0 {
                Some((Err(ErrorV::RecursionLimit), st))
            } else {
                let st1 = PState {
                    prev: st.prev,
                    stack: st.stack.push(st.prev),
                    lines: st.lines,
                };
                match spec_read(st1) {
                    None => None,
                    Some((Err(e), st2)) => Some((Err(e), st2)),
                    Some((Ok((bt, ind)), st2)) => {
                        let st3 = PState { prev: ind, stack: st2.stack, lines: st2.lines };
                        if bt.len() == 0 || !(bt[0] matches TokV::TokIndent(_)) {
                            Some((Err(ErrorV::ExpectedIndent), st3))
                        } else {
                            match spec_parse_body(bt.skip(1), seq![], st3, (depth - 1) as nat) {
                                None => None,
                                Some((Err(e), st4)) => Some((Err(e), st4)),
                                Some((Ok((t4, body)), st4)) => if t4.len() > 0 && t4[0]
                                    == TokV::TokElse {
                                    match spec_parse_else(t4, 1, st4, depth) {
                                        None => None,
                                        Some((Err(e), st5)) => Some((Err(e), st5)),
                                        Some((Ok((t5, eb)), st5)) => Some(
                                            (
                                                Ok(
                                                    (
                                                        t5,
                                                        NodeV::Stmt(
                                                            StmtV::If(
                                                                Box::new(c),
                                                                body,
                                                                Some(eb),
                                                            ),
                                                        ),
                                                    ),
                                                ),
                                                st5,
                                            ),
                                        ),
                                    }
                                } else {
                                    Some(
                                        (
                                            Ok(
                                                (
                                                    t4,
                                                    NodeV::Stmt(StmtV::If(Box::new(c), body, None)),
                                                ),
                                            ),
                                            st4,
                                        ),
                                    )
                                },
                            }
                        }
                    },
                }
            },
        },
    }
}

/// An `else` block: the colon ending its line, then the indented body.
pub open spec fn spec_parse_else(toks: Seq<TokV>, i: int, st: PState, depth: nat) -> Option<(
    Result<(Seq<TokV>, Seq<NodeV>), ErrorV>,
    PState,
)>
    decreases depth, 0int,
{
    match spec_match(toks, i, TokV::TokColon) {
        Err(e) => Some((Err(e), st)),
        Ok(k) => if k != toks.len() {
            Some((Err(ErrorV::TokensAfterColon), st))
        } else if depth == 0 {
            Some((Err(ErrorV::RecursionLimit), st))
        } else {
            let st1 = PState { prev: st.prev, stack: st.stack.push(st.prev), lines: st.lines };
            match spec_read(st1) {
                None => None,
                Some((Err(e), st2)) => Some((Err(e), st2)),
                Some((Ok((bt, ind)), st2)) => {
                    let st3 = PState { prev: ind, stack: st2.stack, lines: st2.lines };
                    if bt.len() == 0 || !(bt[0] matches TokV::TokIndent(_)) {
                        Some((Err(ErrorV::ExpectedIndent), st3))
                    } else {
                        spec_parse_body(bt.skip(1), seq![], st3, (depth - 1) as nat)
                    }
                },
            }
        },
    }
}

/// A function definition: name, parameter list and colon on the current
/// line, then the indented body from further lines.
pub open spec fn spec_parse_def(toks: Seq<TokV>, i: int, st: PState, depth: nat) -> Option<(
    Result<(Seq<TokV>, NodeV), ErrorV>,
    PState,
)>
    decreases depth, 1int,
{
    if i >= toks.len() {
        Some((Err(ErrorV::UnexpectedToken(TokV::TokLParen, None)), st))
    } else if !(toks[i] matches TokV::TokVar(_)) {
        Some((Err(ErrorV::UnexpectedToken(TokV::TokLParen, Some(toks[i]))), st))
    } else {
        let nm = toks[i]->TokVar_0;
        match spec_match(toks, i + 1, TokV::TokLParen) {
            Err(e) => Some((Err(e), st)),
            Ok(j) => {
                let params_out = if 0 <= j < toks.len() && toks[j] == TokV::TokRParen {
                    ParamsOut::ParamsParsed(j + 1, seq![])
                } else {
                    spec_parse_params(toks, j)
                };
                match params_out {
                    ParamsOut::ParamsFailed(e) => Some((Err(e), st)),
                    ParamsOut::ParamsParsed(k, ps) => match spec_match(toks, k, TokV::TokColon) {
                        Err(e) => Some((Err(e), st)),
                        Ok(m) => if m != toks.len() {
                            Some((Err(ErrorV::TokensAfterColon), st))
                        } else if depth == 0 {
                            Some((Err(ErrorV::RecursionLimit), st))
                        } else {
                            let st1 = PState {
                                prev: st.prev,
                                stack: st.stack.push(st.prev),
                                lines: st.lines,
                            };
                            match spec_read(st1) {
                                None => None,
                                Some((Err(e), st2)) => Some((Err(e), st2)),
                                Some((Ok((bt, ind)), st2)) => {
                                    let st3 = PState {
                                        prev: ind,
                                        stack: st2.stack,
                                        lines: st2.lines,
                                    };
                                    if bt.len() == 0 || !(bt[0] matches TokV::TokIndent(_)) {
                                        Some((Err(ErrorV::ExpectedIndent), st3))
                                    } else {
                                        match spec_parse_body(
                                            bt.skip(1),
                                            seq![],
                                            st3,
                                            (depth - 1) as nat,
                                        ) {
                                            None => None,
                                            Some((Err(e), st4)) => Some((Err(e), st4)),
                                            Some((Ok((t4, body)), st4)) => Some(
                                                (
                                                    Ok(
                                                        (
                                                            t4,
                                                            NodeV::Stmt(
                                                                StmtV::Function(nm, ps, body),
                                                            ),
                                                        ),
                                                    ),
                                                    st4,
                                                ),
                                            ),
                                        }
                                    }
                                },
                            }
                        },
                    },
                }
            },
        }
    }
}

/// A block body, statement by statement. A statement that consumed its whole
/// line pulls a further line; a dedent there decides: to the top level, this
/// block is done (at the outermost level the dedent and the level are
/// consumed, otherwise both are left for the enclosing frame); below the
/// top, enclosing levels are closing. A dedent left on the statement's own
/// line by a nested block that matches the top pops that level and, unless
/// the stack emptied, continues this block; one below the top pops one level
/// per frame, consuming the dedent once the outermost level is reached. A
/// dedent above the top, or with no open level, is an indentation error; any
/// other leftover token is a syntax error. `acc` holds the statements parsed
/// so far.
pub open spec fn spec_parse_body(toks: Seq<TokV>, acc: Seq<NodeV>, st: PState, depth: nat) -> Option<
    (Result<(Seq<TokV>, Seq<NodeV>), ErrorV>, PState),
>
    decreases depth, 3int,
{
    if depth == 0 {
        Some((Err(ErrorV::RecursionLimit), st))
    } else {
        match spec_parse(toks, st, (depth - 1) as nat) {
            None => None,
            Some((Err(e), st1)) => Some((Err(e), st1)),
            Some((Ok((rest, node)), st1)) => {
                let acc1 = acc.push(node);
                if rest.len() == 0 {
                    match spec_read(st1) {
                        None => None,
                        Some((Err(e), st2)) => Some((Err(e), st2)),
                        Some((Ok((nl, ind)), st2)) => {
                            let st3 = PState { prev: ind, stack: st2.stack, lines: st2.lines };
                            if nl.len() > 0 && (nl[0] matches TokV::TokDedent(_)) {
                                let nd = nl[0]->TokDedent_0;
                                if st3.stack.len() == 0 {
                                    Some((Err(ErrorV::BadDedent(nd)), st3))
                                } else {
                                    let peek = st3.stack.last() as int;
                                    if nd == peek {
                                        if peek == 0 {
                                            let st4 = PState {
                                                prev: st3.prev,
                                                stack: st3.stack.drop_last(),
                                                lines: st3.lines,
                                            };
                                            Some((Ok((nl.skip(1), acc1)), st4))
                                        } else {
                                            Some((Ok((nl, acc1)), st3))
                                        }
                                    } else if nd < peek {
                                        Some((Ok((nl, acc1)), st3))
                                    } else {
                                        Some((Err(ErrorV::BadDedent(nd)), st3))
                                    }
                                }
                            } else {
                                spec_parse_body(nl, acc1, st3, (depth - 1) as nat)
                            }
                        },
                    }
                } else if rest[0] matches TokV::TokDedent(_) {
                    let nd = rest[0]->TokDedent_0;
                    if st1.stack.len() == 0 {
                        Some((Err(ErrorV::BadDedent(nd)), st1))
                    } else {
                        let peek = st1.stack.last() as int;
                        if nd == peek {
                            let st2 = PState {
                                prev: st1.prev,
                                stack: st1.stack.drop_last(),
                                lines: st1.lines,
                            };
                            if st2.stack.len() == 0 {
                                Some((Ok((rest.skip(1), acc1)), st2))
                            } else {
                                spec_parse_body(rest.skip(1), acc1, st2, (depth - 1) as nat)
                            }
                        } else if nd < peek {
                            let st2 = PState {
                                prev: st1.prev,
                                stack: st1.stack.drop_last(),
                                lines: st1.lines,
                            };
                            if st2.stack.len() == 0 || st2.stack.last() == 0 {
                                let st3 = if st2.stack.len() == 0 {
                                    st2
                                } else {
                                    PState {
                                        prev: st2.prev,
                                        stack: st2.stack.drop_last(),
                                        lines: st2.lines,
                                    }
                                };
                                Some((Ok((rest.skip(1), acc1)), st3))
                            } else {
                                Some((Ok((rest, acc1)), st2))
                            }
                        } else {
                            Some((Err(ErrorV::BadDedent(nd)), st1))
                        }
                    }
                } else {
                    Some((Err(ErrorV::TrailingTokens), st1))
                }
            },
        }
    }
}

/// The tokens from position `i` on, as their own list.
fn tokens_from(tokens: &Vec<Token>, i: usize) -> (r: Vec<Token>)
    requires
        i <= tokens@.len(),
    ensures
        r.deep_view() == tokens.deep_view().skip(i as int),
{
    let mut out: Vec<Token> = Vec::new();
    let mut t = i;
    while t < tokens.len()
        invariant
            i <= t <= tokens@.len(),
            out@.len() == t - i,
            forall|k: int| 0 <= k < out@.len() ==> out@[k]@ == tokens@[i + k]@,
        decreases tokens@.len() - t,
    {
        let c = tokens[t].clone();
        out.push(c);
        t = t + 1;
    }
    proof {
        assert(out.deep_view() =~= tokens.deep_view().skip(i as int));
    }
    out
}

/// Reads the next raw line from the collaborator and tokenizes it against the
/// previous line's indentation depth.
fn read_body_line<S: LineSource>(source: &mut S, prev_indent: &i32) -> (r: Result<
    (Vec<Token>, i32),
    Error,
>)
    ensures
        // With a known lines view, exactly the tokenization of its first line.
        old(source).lines().len() > 0 ==> ({
            let l = old(source).lines()[0];
            &&& final (source).lines() == old(source).lines().skip(1)
            &&& match spec_tokenize(l, *prev_indent as int) {
                Ok(t) => r matches Ok(p) && p.0.deep_view() == t.0 && p.1 as int == t.1,
                Err(rem) => r matches Err(e) && e@ == ErrorV::LexError(rem),
            }
        }),
        old(source).lines().len() == 0 ==> final (source).lines().len() == 0,
        // Whatever the source, a success is the tokenization of some line.
        match r {
            Ok(p) => exists|l: Seq<char>|
                #[trigger] spec_tokenize(l, *prev_indent as int) == Ok::<
                    (Seq<TokV>, int),
                    Seq<char>,
                >((p.0.deep_view(), p.1 as int)),
            Err(_) => true,
        },
{
    let line = source.next_line();
    let r = tokenize(line.as_str(), prev_indent);
    proof {
        match &r {
            Ok(p) => {
                assert(spec_tokenize(line@, *prev_indent as int) == Ok::<
                    (Seq<TokV>, int),
                    Seq<char>,
                >((p.0.deep_view(), p.1 as int)));
            },
            Err(_) => {},
        }
    }
    r
}

/// Appending a node appends its view.
proof fn lemma_view_nodes_push(s: Seq<PyType>, x: PyType)
    ensures
        view_nodes(s.push(x)) == view_nodes(s).push(x@),
{
    lemma_view_nodes_len(s);
    lemma_view_nodes_len(s.push(x));
    assert forall|k: int| 0 <= k < s.push(x).len() implies view_nodes(s.push(x))[k] == view_nodes(
        s,
    ).push(x@)[k] by {
        lemma_view_nodes_index(s.push(x), k);
        if k < s.len() {
            lemma_view_nodes_index(s, k);
        }
    }
    assert(view_nodes(s.push(x)) =~= view_nodes(s).push(x@));
}

/// Parses the statements of one block body, statement by statement, pulling
/// further lines and closing the block on a dedent according to the
/// open-level stack: a dedent to the top level finishes this block; a dedent
/// below it closes further enclosing levels, one per frame, by returning the
/// dedent unconsumed; a dedent matching no open level is an indentation
/// error. Statements are appended to `body_contents`; the returned tokens are
/// what is left of the last line read. `depth` bounds the parser's remaining
/// work.
#[verifier::rlimit(100)]
#[verifier::spinoff_prover]
fn parse_body<S: LineSource>(
    tokens: &Vec<Token>,
    prev_indent: &mut i32,
    body_contents: &mut Vec<PyType>,
    indent_stack: &mut Vec<i32>,
    source: &mut S,
    depth: u64,
) -> (r: Result<(Vec<Token>, Vec<PyType>), Error>)
    ensures
        match r {
            Ok(p) => {
                &&& view_nodes(p.1@) == view_nodes(final (body_contents)@)
                &&& final (body_contents)@.len() > old(body_contents)@.len()
            },
            Err(_) => true,
        },
        depth == 0 ==> (r matches Err(err) && err@ == ErrorV::RecursionLimit),
        // With a known lines view, exactly the block-body discipline.
        ({
            let o = spec_parse_body(
                tokens.deep_view(),
                view_nodes(old(body_contents)@),
                PState {
                    prev: *old(prev_indent),
                    stack: old(indent_stack)@,
                    lines: old(source).lines(),
                },
                depth as nat,
            );
            match o {
                Some(res) => {
                    &&& *final (prev_indent) == res.1.prev
                    &&& final (indent_stack)@ == res.1.stack
                    &&& final (source).lines() == res.1.lines
                    &&& match res.0 {
                        Ok(p) => (r matches Ok(q) && q.0.deep_view() == p.0 && view_nodes(q.1@)
                            == p.1) && view_nodes(final (body_contents)@) == p.1,
                        Err(e) => (r matches Err(err) && err@ == e),
                    }
                },
                None => true,
            }
        }),
    decreases depth, 3int,
{
    if depth == 0 {
        return Err(Error::RecursionLimit);
    }
    let ghost acc0 = view_nodes(body_contents@);
    let parsed = parse(tokens, prev_indent, indent_stack, source, depth - 1);
    match parsed {
        Err(e) => Err(e),
        Ok((rest, parsed_line)) => {
            proof {
                assert(rest.deep_view().len() == rest@.len());
            }
            let ghost bc0 = body_contents@;
            let ghost nv = parsed_line@;
            if rest.len() == 0 {
                body_contents.push(parsed_line);
                proof {
                    lemma_view_nodes_push(bc0, body_contents@[bc0.len() as int]);
                    assert(view_nodes(body_contents@) == acc0.push(nv));
                }
                match read_body_line(source, prev_indent) {
                    Err(e) => Err(e),
                    Ok((next_line, indentation)) => {
                        *prev_indent = indentation;
                        proof {
                            assert(next_line.deep_view().len() == next_line@.len());
                            if next_line@.len() > 0 {
                                lemma_token_view_shape(&next_line[0int]);
                                assert(next_line.deep_view()[0] == next_line@[0]@);
                            }
                        }
                        if next_line.len() > 0 && matches!(&next_line[0], Token::TokDedent(_)) {
                            let nd = match &next_line[0] {
                                Token::TokDedent(d) => *d,
                                _ => 0,
                            };
                            let peek = match indent_stack.last() {
                                Some(p) => *p,
                                None => {
                                    return Err(Error::BadDedent(nd));
                                },
                            };
                            if nd == peek {
                                if peek == 0 {
                                    indent_stack.pop();
                                    let out = tokens_from(&next_line, 1);
                                    let body = clone_nodes(body_contents);
                                    return Ok((out, body));
                                }
                                let body = clone_nodes(body_contents);
                                Ok((next_line, body))
                            } else if nd < peek {
                                let body = clone_nodes(body_contents);
                                Ok((next_line, body))
                            } else {
                                Err(Error::BadDedent(nd))
                            }
                        } else {
                            parse_body(
                                &next_line,
                                prev_indent,
                                body_contents,
                                indent_stack,
                                source,
                                depth - 1,
                            )
                        }
                    },
                }
            } else if matches!(&rest[0], Token::TokDedent(_)) {
                proof {
                    lemma_token_view_shape(&rest[0int]);
                    assert(rest.deep_view()[0] == rest@[0]@);
                }
                let nd = match &rest[0] {
                    Token::TokDedent(d) => *d,
                    _ => 0,
                };
                body_contents.push(parsed_line);
                proof {
                    lemma_view_nodes_push(bc0, body_contents@[bc0.len() as int]);
                    assert(view_nodes(body_contents@) == acc0.push(nv));
                }
                let peek = match indent_stack.last() {
                    Some(p) => *p,
                    None => {
                        return Err(Error::BadDedent(nd));
                    },
                };
                if nd == peek {
                    indent_stack.pop();
                    if indent_stack.len() == 0 {
                        let out = tokens_from(&rest, 1);
                        let body = clone_nodes(body_contents);
                        return Ok((out, body));
                    }
                    let after = tokens_from(&rest, 1);
                    parse_body(&after, prev_indent, body_contents, indent_stack, source, depth - 1)
                } else if nd < peek {
                    indent_stack.pop();
                    let deepest_closed = match indent_stack.last() {
                        Some(p) => *p == 0,
                        None => true,
                    };
                    if deepest_closed {
                        indent_stack.pop();
                        let out = tokens_from(&rest, 1);
                        let body = clone_nodes(body_contents);
                        return Ok((out, body));
                    }
                    let body = clone_nodes(body_contents);
                    Ok((rest, body))
                } else {
                    Err(Error::BadDedent(nd))
                }
            } else {
                Err(Error::TrailingTokens)
            }
        },
    }
}

/// Parses an `if` statement whose condition begins at `i` (just past the
/// `if`): the condition, the colon ending the line, the indented body, and an
/// optional `else` block.
fn parse_if<S: LineSource>(
    tokens: &Vec<Token>,
    i: usize,
    prev_indent: &mut i32,
    indent_stack: &mut Vec<i32>,
    source: &mut S,
    depth: u64,
) -> (r: Result<(Vec<Token>, PyType), Error>)
    ensures
        ({
            match r {
                Ok(p) => ({
                    let toks = tokens.deep_view();
                    &&& spec_parse_expr(toks, i as int) matches ParseOut::Parsed(j, c)
                    &&& spec_match(toks, j, TokV::TokColon) matches Ok(k)
                    &&& k == toks.len()
                    &&& p.1@ matches NodeV::Stmt(StmtV::If(cb, bd, _))
                    &&& *cb == c
                    &&& bd.len() > 0
                }),
                Err(_) => true,
            }
        }),
        // With a known lines view, exactly the `if` discipline.
        ({
            let o = spec_parse_if(
                tokens.deep_view(),
                i as int,
                PState {
                    prev: *old(prev_indent),
                    stack: old(indent_stack)@,
                    lines: old(source).lines(),
                },
                depth as nat,
            );
            match o {
                Some(res) => {
                    &&& *final (prev_indent) == res.1.prev
                    &&& final (indent_stack)@ == res.1.stack
                    &&& final (source).lines() == res.1.lines
                    &&& match res.0 {
                        Ok(p) => (r matches Ok(q) && q.0.deep_view() == p.0 && q.1@ == p.1),
                        Err(e) => (r matches Err(err) && err@ == e),
                    }
                },
                None => true,
            }
        }),
        // The errors of the header itself, before any line is pulled.
        ({
            let toks = tokens.deep_view();
            &&& (spec_parse_expr(toks, i as int) matches ParseOut::Failed(e) ==> (r matches Err(
                err,
            ) && err@ == e))
            &&& (spec_parse_expr(toks, i as int) matches ParseOut::Parsed(j, _) ==> {
                &&& (spec_match(toks, j, TokV::TokColon) matches Err(e) ==> (r matches Err(err)
                    && err@ == e))
                &&& (spec_match(toks, j, TokV::TokColon) matches Ok(k) ==> {
                    &&& (k != toks.len() ==> (r matches Err(err) && err@
                        == ErrorV::TokensAfterColon))
                    &&& (k == toks.len() && depth == 0 ==> (r matches Err(err) && err@
                        == ErrorV::RecursionLimit))
                })
            })
        }),
    decreases depth, 1int,
{
    let (j, condition) = match parse_expr(tokens, i) {
        Ok(p) => p,
        Err(e) => {
            return Err(e);
        },
    };
    let k = match match_token(tokens, j, &Token::TokColon) {
        Ok(k) => k,
        Err(e) => {
            return Err(e);
        },
    };
    if k != tokens.len() {
        return Err(Error::TokensAfterColon);
    }
    if depth == 0 {
        return Err(Error::RecursionLimit);
    }
    indent_stack.push(*prev_indent);
    let (body_tokens, indentation) = match read_body_line(source, prev_indent) {
        Ok(p) => p,
        Err(e) => {
            return Err(e);
        },
    };
    *prev_indent = indentation;
    if body_tokens.len() == 0 || !matches!(&body_tokens[0], Token::TokIndent(_)) {
        return Err(Error::ExpectedIndent);
    }
    let after_indent = tokens_from(&body_tokens, 1);
    let mut body_contents: Vec<PyType> = Vec::new();
    let (tokens4, body) = match parse_body(
        &after_indent,
        prev_indent,
        &mut body_contents,
        indent_stack,
        source,
        depth - 1,
    ) {
        Ok(p) => p,
        Err(e) => {
            return Err(e);
        },
    };
    if tokens4.len() > 0 && matches!(&tokens4[0], Token::TokElse) {
        let (tokens5, else_body) = match parse_else(
            &tokens4,
            1,
            prev_indent,
            indent_stack,
            source,
            depth,
        ) {
            Ok(p) => p,
            Err(e) => {
                return Err(e);
            },
        };
        return Ok(
            (tokens5, PyType::Stmt(Stmt::If(Box::new(condition), body, Some(else_body)))),
        );
    }
    Ok((tokens4, PyType::Stmt(Stmt::If(Box::new(condition), body, None))))
}

/// Parses an `else` block: the colon ending the line, then the indented body.
fn parse_else<S: LineSource>(
    tokens: &Vec<Token>,
    i: usize,
    prev_indent: &mut i32,
    indent_stack: &mut Vec<i32>,
    source: &mut S,
    depth: u64,
) -> (r: Result<(Vec<Token>, Vec<PyType>), Error>)
    ensures
        match r {
            Ok(p) => p.1@.len() > 0,
            Err(_) => true,
        },
        // With a known lines view, exactly the `else` discipline.
        ({
            let o = spec_parse_else(
                tokens.deep_view(),
                i as int,
                PState {
                    prev: *old(prev_indent),
                    stack: old(indent_stack)@,
                    lines: old(source).lines(),
                },
                depth as nat,
            );
            match o {
                Some(res) => {
                    &&& *final (prev_indent) == res.1.prev
                    &&& final (indent_stack)@ == res.1.stack
                    &&& final (source).lines() == res.1.lines
                    &&& match res.0 {
                        Ok(p) => (r matches Ok(q) && q.0.deep_view() == p.0 && view_nodes(q.1@)
                            == p.1),
                        Err(e) => (r matches Err(err) && err@ == e),
                    }
                },
                None => true,
            }
        }),
        // The errors of the `else` header itself, before any line is pulled.
        ({
            let toks = tokens.deep_view();
            &&& (spec_match(toks, i as int, TokV::TokColon) matches Err(e) ==> (r matches Err(
                err,
            ) && err@ == e))
            &&& (spec_match(toks, i as int, TokV::TokColon) matches Ok(k) ==> {
                &&& (k != toks.len() ==> (r matches Err(err) && err@ == ErrorV::TokensAfterColon))
                &&& (k == toks.len() && depth == 0 ==> (r matches Err(err) && err@
                    == ErrorV::RecursionLimit))
            })
        }),
    decreases depth, 0int,
{
    let k = match match_token(tokens, i, &Token::TokColon) {
        Ok(k) => k,
        Err(e) => {
            return Err(e);
        },
    };
    if k != tokens.len() {
        return Err(Error::TokensAfterColon);
    }
    if depth == 0 {
        return Err(Error::RecursionLimit);
    }
    indent_stack.push(*prev_indent);
    let (body_tokens, indentation) = match read_body_line(source, prev_indent) {
        Ok(p) => p,
        Err(e) => {
            return Err(e);
        },
    };
    *prev_indent = indentation;
    if body_tokens.len() == 0 || !matches!(&body_tokens[0], Token::TokIndent(_)) {
        return Err(Error::ExpectedIndent);
    }
    let after_indent = tokens_from(&body_tokens, 1);
    let mut body_contents: Vec<PyType> = Vec::new();
    match parse_body(
        &after_indent,
        prev_indent,
        &mut body_contents,
        indent_stack,
        source,
        depth - 1,
    ) {
        Ok(p) => {
            proof {
                assert(view_nodes(p.1@).len() == p.1@.len());
                assert(view_nodes(body_contents@).len() == body_contents@.len());
            }
            Ok(p)
        },
        Err(e) => Err(e),
    }
}

/// Parses a function definition whose name begins at `i` (just past the
/// `def`): the name, the parenthesized parameter names, the colon ending the
/// line, and the indented body.
fn parse_def<S: LineSource>(
    tokens: &Vec<Token>,
    i: usize,
    prev_indent: &mut i32,
    indent_stack: &mut Vec<i32>,
    source: &mut S,
    depth: u64,
) -> (r: Result<(Vec<Token>, PyType), Error>)
    ensures
        ({
            match r {
                Ok(p) => ({
                    let toks = tokens.deep_view();
                    &&& i < toks.len()
                    &&& toks[i as int] matches TokV::TokVar(nm)
                    &&& p.1@ matches NodeV::Stmt(StmtV::Function(nm2, ps, bd))
                    &&& nm2 == nm
                    &&& bd.len() > 0
                    &&& (i + 2 < toks.len() && toks[i as int + 2] == TokV::TokRParen ==> ps
                        =~= Seq::<Seq<char>>::empty())
                    &&& (!(i + 2 < toks.len() && toks[i as int + 2] == TokV::TokRParen)
                        ==> (spec_parse_params(toks, i as int + 2) matches ParamsOut::ParamsParsed(
                        _,
                        ps2,
                    ) && ps == ps2))
                }),
                Err(_) => true,
            }
        }),
        // With a known lines view, exactly the `def` discipline.
        ({
            let o = spec_parse_def(
                tokens.deep_view(),
                i as int,
                PState {
                    prev: *old(prev_indent),
                    stack: old(indent_stack)@,
                    lines: old(source).lines(),
                },
                depth as nat,
            );
            match o {
                Some(res) => {
                    &&& *final (prev_indent) == res.1.prev
                    &&& final (indent_stack)@ == res.1.stack
                    &&& final (source).lines() == res.1.lines
                    &&& match res.0 {
                        Ok(p) => (r matches Ok(q) && q.0.deep_view() == p.0 && q.1@ == p.1),
                        Err(e) => (r matches Err(err) && err@ == e),
                    }
                },
                None => true,
            }
        }),
        // The errors of the `def` header itself, before any line is pulled.
        ({
            let toks = tokens.deep_view();
            &&& (i >= toks.len() ==> (r matches Err(err) && err@ == ErrorV::UnexpectedToken(
                TokV::TokLParen,
                None,
            )))
            &&& (i < toks.len() && !(toks[i as int] matches TokV::TokVar(_)) ==> (r matches Err(
                err,
            ) && err@ == ErrorV::UnexpectedToken(TokV::TokLParen, Some(toks[i as int]))))
            &&& (i < toks.len() && (toks[i as int] matches TokV::TokVar(_)) ==> (spec_match(
                toks,
                i as int + 1,
                TokV::TokLParen,
            ) matches Err(e) ==> (r matches Err(err) && err@ == e)))
        }),
    decreases depth, 1int,
{
    if i >= tokens.len() {
        return Err(Error::UnexpectedToken(Token::TokLParen, None));
    }
    proof {
        lemma_token_view_shape(&tokens[i as int]);
    }
    let name: String = match &tokens[i] {
        Token::TokVar(v) => v.clone(),
        t => {
            return Err(Error::UnexpectedToken(Token::TokLParen, Some(t.clone())));
        },
    };
    let j = match match_token(tokens, i + 1, &Token::TokLParen) {
        Ok(j) => j,
        Err(e) => {
            return Err(e);
        },
    };
    let mut params: Vec<String> = Vec::new();
    let mut k = j;
    let mut has_params = true;
    if j < tokens.len() && matches!(&tokens[j], Token::TokRParen) {
        k = j + 1;
        has_params = false;
    }
    if has_params {
        match parse_params(tokens, j) {
            Ok((k2, ps)) => {
                k = k2;
                params = ps;
            },
            Err(e) => {
                return Err(e);
            },
        }
    }
    let m = match match_token(tokens, k, &Token::TokColon) {
        Ok(m) => m,
        Err(e) => {
            return Err(e);
        },
    };
    if m != tokens.len() {
        return Err(Error::TokensAfterColon);
    }
    if depth == 0 {
        return Err(Error::RecursionLimit);
    }
    indent_stack.push(*prev_indent);
    let (body_tokens, indentation) = match read_body_line(source, prev_indent) {
        Ok(p) => p,
        Err(e) => {
            return Err(e);
        },
    };
    *prev_indent = indentation;
    if body_tokens.len() == 0 || !matches!(&body_tokens[0], Token::TokIndent(_)) {
        return Err(Error::ExpectedIndent);
    }
    let after_indent = tokens_from(&body_tokens, 1);
    let mut body_contents: Vec<PyType> = Vec::new();
    let (tokens4, body) = match parse_body(
        &after_indent,
        prev_indent,
        &mut body_contents,
        indent_stack,
        source,
        depth - 1,
    ) {
        Ok(p) => p,
        Err(e) => {
            return Err(e);
        },
    };
    Ok((tokens4, PyType::Stmt(Stmt::Function(name, params, body))))
}

/// Parses one statement or expression from the front of `tokens`. Statement
/// dispatch is by one token of lookahead (one more for assignment). A line
/// that opens no block is parsed exactly by `spec_parse_line`, with the
/// remaining tokens returned and the state untouched; `if` and `def` pull
/// further lines from the source for their indented bodies.
pub fn parse<S: LineSource>(
    tokens: &Vec<Token>,
    prev_indent: &mut i32,
    indent_stack: &mut Vec<i32>,
    source: &mut S,
    depth: u64,
) -> (r: Result<(Vec<Token>, PyType), Error>)
    ensures
        // With a known lines view, exactly one statement parse.
        ({
            let o = spec_parse(
                tokens.deep_view(),
                PState {
                    prev: *old(prev_indent),
                    stack: old(indent_stack)@,
                    lines: old(source).lines(),
                },
                depth as nat,
            );
            match o {
                Some(res) => {
                    &&& *final (prev_indent) == res.1.prev
                    &&& final (indent_stack)@ == res.1.stack
                    &&& final (source).lines() == res.1.lines
                    &&& match res.0 {
                        Ok(p) => (r matches Ok(q) && q.0.deep_view() == p.0 && q.1@ == p.1),
                        Err(e) => (r matches Err(err) && err@ == e),
                    }
                },
                None => true,
            }
        }),
        !starts_block(tokens.deep_view()) ==> ({
            let toks = tokens.deep_view();
            &&& *final (prev_indent) == *old(prev_indent)
            &&& final (indent_stack)@ == old(indent_stack)@
            &&& final (source).lines() == old(source).lines()
            &&& match spec_parse_line(toks, 0) {
                ParseOut::Parsed(j, n) => {
                    &&& r matches Ok(p)
                    &&& p.1@ == n
                    &&& 0 < j <= toks.len()
                    &&& p.0.deep_view() == toks.skip(j)
                },
                ParseOut::Failed(e) => {
                    &&& r matches Err(err)
                    &&& err@ == e
                },
            }
        }),
        (starts_block(tokens.deep_view()) && tokens.deep_view()[0] == TokV::TokIf) ==> ({
            match r {
                Ok(p) => ({
                    let toks = tokens.deep_view();
                    &&& spec_parse_expr(toks, 1) matches ParseOut::Parsed(j, c)
                    &&& spec_match(toks, j, TokV::TokColon) matches Ok(k)
                    &&& k == toks.len()
                    &&& p.1@ matches NodeV::Stmt(StmtV::If(cb, bd, _))
                    &&& *cb == c
                    &&& bd.len() > 0
                }),
                Err(_) => true,
            }
        }),
        (starts_block(tokens.deep_view()) && tokens.deep_view()[0] == TokV::TokDef) ==> ({
            match r {
                Ok(p) => ({
                    let toks = tokens.deep_view();
                    &&& 1 < toks.len()
                    &&& toks[1] matches TokV::TokVar(nm)
                    &&& p.1@ matches NodeV::Stmt(StmtV::Function(nm2, _, bd))
                    &&& nm2 == nm
                    &&& bd.len() > 0
                }),
                Err(_) => true,
            }
        }),
    decreases depth, 2int,
{
    if tokens.len() > 0 {
        proof {
            lemma_token_view_shape(&tokens[0int]);
        }
        if matches!(&tokens[0], Token::TokIf) {
            if depth == 0 {
                return Err(Error::RecursionLimit);
            }
            return parse_if(tokens, 1, prev_indent, indent_stack, source, depth - 1);
        }
        if matches!(&tokens[0], Token::TokDef) {
            if depth == 0 {
                return Err(Error::RecursionLimit);
            }
            return parse_def(tokens, 1, prev_indent, indent_stack, source, depth - 1);
        }
    }
    match parse_simple(tokens, 0) {
        Ok((j, node)) => Ok((tokens_from(tokens, j), node)),
        Err(e) => Err(e),
    }
}

} // verus!
