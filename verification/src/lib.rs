//! A small dynamically typed scripting language: a tokenizer, an
//! indentation-driven recursive-descent parser that pulls source lines on
//! demand, and a tree-walking evaluator over a single shared environment.
//!
//! `execute` runs one top-level input: it tokenizes the line, then repeatedly
//! parses one statement or expression (pulling further lines for indented
//! block bodies) and evaluates it, until the tokens of the current line are
//! consumed. The values of the statements are collected in order; the first
//! error ends the run, and bindings made before it stay in place.
pub mod interpreter;
pub mod lexer;
pub mod laws;
pub mod parser;
pub mod rational;
pub mod types;

use crate::interpreter::{evaluate, spec_eval};
use crate::lexer::{spec_tokenize, tokenize};
use crate::parser::{parse, spec_parse_line, LineSource, ParseOut};
use crate::types::{env_view, view_nodes, EnvV, Environment, Error, ErrorV, NodeV, PyType, TokV,
    Token};
use vstd::prelude::*;

verus! {

broadcast use {vstd::std_specs::vec::group_vec_axioms, vstd::seq::group_seq_axioms,
    crate::types::lemma_view_nodes_len, crate::types::lemma_view_nodes_index};

/// Whether a token sequence opens no block anywhere: no `if` and no `def`.
pub open spec fn no_blocks(toks: Seq<TokV>) -> bool {
    forall|k: int| 0 <= k < toks.len() ==> toks[k] != TokV::TokIf && toks[k] != TokV::TokDef
}

/// Running one block-free token sequence: parse one statement, require that
/// it consumed the whole line (trailing unconsumed tokens are a syntax
/// error, before anything is evaluated), then evaluate it. The statement's
/// value and the environment after it are the result.
pub open spec fn spec_run(toks: Seq<TokV>, env: EnvV, eval_fuel: nat) -> (Result<
    Seq<NodeV>,
    ErrorV,
>, EnvV) {
    if toks.len() == 0 {
        (Ok(seq![]), env)
    } else {
        match spec_parse_line(toks, 0) {
            ParseOut::Failed(e) => (Err(e), env),
            ParseOut::Parsed(j, node) => if j != toks.len() {
                (Err(ErrorV::TrailingTokens), env)
            } else {
                let (r1, env1) = spec_eval(eval_fuel, node, env);
                match r1 {
                    Err(e) => (Err(e), env1),
                    Ok(v) => (Ok(seq![v]), env1),
                }
            },
        }
    }
}

/// Runs one top-level input line against the shared environment. Block bodies
/// pull further lines from `source`; `eval_fuel` bounds the depth of each
/// evaluation, and `depth` bounds the parser's work.
///
/// Each top-level parse must consume every token of the line it ends on:
/// tokens left over after a statement that opened no block are a syntax
/// error, raised before that statement is evaluated. A block-closing parse
/// may hand the rest of its final line to the next top-level parse, which is
/// held to the same rule. On an input whose tokens open no block this
/// computes exactly `spec_run` on the tokens of the line.
pub fn execute<S: LineSource>(
    input: &str,
    env: &mut Environment,
    source: &mut S,
    eval_fuel: u64,
    depth: u64,
) -> (r: Result<Vec<PyType>, Error>)
    ensures
        match spec_tokenize(input@, 0) {
            Err(rem) => {
                &&& r matches Err(e)
                &&& e@ == ErrorV::LexError(rem)
                &&& env_view(final (env)@) == env_view(old(env)@)
            },
            Ok(t) => no_blocks(t.0) ==> ({
                let (sr, senv) = spec_run(t.0, env_view(old(env)@), eval_fuel as nat);
                &&& env_view(final (env)@) == senv
                &&& final (source).lines() == old(source).lines()
                &&& match sr {
                    Ok(vs) => r matches Ok(out) && view_nodes(out@) == vs,
                    Err(e) => r matches Err(err) && err@ == e,
                }
            }),
        },
{
    let mut prev_indent: i32 = 0;
    let (toks, indentation) = match tokenize(input, &prev_indent) {
        Ok(p) => p,
        Err(e) => {
            return Err(e);
        },
    };
    prev_indent = indentation;
    let ghost toks0 = toks.deep_view();
    let ghost env0 = env_view(env@);
    let ghost pure = no_blocks(toks0);
    let mut indent_stack: Vec<i32> = Vec::new();
    let mut cur: Vec<Token> = toks;
    let mut results: Vec<PyType> = Vec::new();
    let mut budget = depth;
    while cur.len() > 0
        invariant
            spec_tokenize(input@, 0) matches Ok(t) && t.0 == toks0,
            env0 == env_view(old(env)@),
            pure == no_blocks(toks0),
            pure ==> source.lines() == old(source).lines(),
            pure ==> ({
                ||| (results@.len() == 0 && cur.deep_view() == toks0 && env_view(env@) == env0)
                ||| ({
                    let (sr, senv) = spec_run(toks0, env0, eval_fuel as nat);
                    &&& cur.deep_view().len() == 0
                    &&& sr == Ok::<Seq<NodeV>, ErrorV>(view_nodes(results@))
                    &&& env_view(env@) == senv
                })
            }),
        decreases budget, cur.len(),
    {
        let ghost env_at = env_view(env@);
        let ghost cur0 = cur.deep_view();
        let n_before = cur.len();
        let opened_block = matches!(&cur[0], Token::TokIf) || matches!(&cur[0], Token::TokDef);
        proof {
            lemma_head_block_shape(&cur);
            assert(opened_block == crate::parser::starts_block(cur.deep_view()));
            if pure {
                // The loop guard rules out the completed state, so this is
                // the first iteration of a block-free run.
                assert(cur.deep_view().len() == cur@.len());
                assert(results@.len() == 0 && cur0 == toks0 && env_at == env0);
                assert(!crate::parser::starts_block(toks0));
            }
        }
        let pr = parse(&cur, &mut prev_indent, &mut indent_stack, source, depth);
        let (rest, node) = match pr {
            Ok(p) => p,
            Err(e) => {
                return Err(e);
            },
        };
        if !opened_block && rest.len() > 0 {
            // Trailing unconsumed tokens on a line that opened no block: a
            // syntax error, before the statement is evaluated.
            proof {
                if pure {
                    match spec_parse_line(toks0, 0) {
                        ParseOut::Parsed(j, _) => {
                            assert(rest.deep_view() == toks0.skip(j));
                            assert(rest.deep_view().len() == rest@.len());
                            assert(j < toks0.len());
                        },
                        ParseOut::Failed(_) => {},
                    }
                }
            }
            return Err(Error::TrailingTokens);
        }
        let ghost nodev = node@;
        proof {
            if pure {
                match spec_parse_line(toks0, 0) {
                    ParseOut::Parsed(j, _) => {
                        assert(rest.deep_view() == toks0.skip(j));
                        assert(rest.deep_view().len() == rest@.len());
                        assert(j == toks0.len());
                    },
                    ParseOut::Failed(_) => {},
                }
            }
        }
        let v = match evaluate(&node, env, eval_fuel) {
            Ok(v) => v,
            Err(e) => {
                return Err(e);
            },
        };
        let ghost vv = v@;
        proof {
            if pure {
                // A block-free statement consumed the whole line, so this
                // iteration completes the run: its value is the one result.
                match spec_parse_line(toks0, 0) {
                    ParseOut::Parsed(j, _) => {
                        assert(rest.deep_view() == toks0.skip(j));
                        assert(rest.deep_view().len() == rest@.len());
                        assert(j == toks0.len());
                    },
                    ParseOut::Failed(_) => {},
                }
                assert(view_nodes(results@.push(v)) =~= seq![vv]);
            }
        }
        results.push(v);
        if rest.len() >= n_before {
            if budget == 0 {
                return Err(Error::RecursionLimit);
            }
            budget = budget - 1;
        }
        cur = rest;
    }
    proof {
        if pure && results@.len() == 0 {
            assert(view_nodes(results@) =~= Seq::<NodeV>::empty());
        }
    }
    Ok(results)
}

/// A token list starts a block exactly when its head token is `if` or `def`.
proof fn lemma_head_block_shape(tokens: &Vec<Token>)
    requires
        tokens@.len() > 0,
    ensures
        crate::parser::starts_block(tokens.deep_view()) == ((tokens@[0] matches Token::TokIf) || (
        tokens@[0] matches Token::TokDef)),
{
    lemma_token_view_shape_head(&tokens[0]);
    assert(tokens.deep_view()[0] == tokens@[0]@);
}

/// A token's view is `if`/`def` exactly when the token is.
proof fn lemma_token_view_shape_head(t: &Token)
    ensures
        (t@ == TokV::TokIf) == (t matches Token::TokIf),
        (t@ == TokV::TokDef) == (t matches Token::TokDef),
{
    match t {
        Token::TokInt(_) => {},
        Token::TokFloat(_) => {},
        Token::TokBool(_) => {},
        Token::TokString(_) => {},
        Token::TokUnaryMinus => {},
        Token::TokPlus => {},
        Token::TokMinus => {},
        Token::TokMult => {},
        Token::TokDiv => {},
        Token::TokLParen => {},
        Token::TokRParen => {},
        Token::TokOr => {},
        Token::TokAnd => {},
        Token::TokDoubleEqual => {},
        Token::TokNotEqual => {},
        Token::TokLess => {},
        Token::TokGreater => {},
        Token::TokLessEqual => {},
        Token::TokGreaterEqual => {},
        Token::TokVar(_) => {},
        Token::TokAssign => {},
        Token::TokIf => {},
        Token::TokElif => {},
        Token::TokElse => {},
        Token::TokColon => {},
        Token::TokIndent(_) => {},
        Token::TokDedent(_) => {},
        Token::TokNot => {},
        Token::TokDef => {},
        Token::TokReturn => {},
        Token::TokComma => {},
    }
}

} // verus!
