//! The tree-walking evaluator. `spec_eval` is the semantics of the language:
//! a total, fuel-indexed function from a node and an environment to a result
//! and the environment after evaluation. `evaluate` computes exactly that
//! function. The fuel bounds the depth of evaluation, like an interpreter's
//! recursion limit; exhausting it is the `RecursionLimit` error.
use crate::rational::{rat_add, rat_div, rat_eq, rat_in_range, rat_le, rat_lt, rat_mul,
    rat_of_int, rat_sub, Rat, RatV, in_i64, lemma_rat_view_range};
use crate::types::{env_view, spec_to_bool, view_nodes, lemma_view_nodes_len, lemma_view_nodes_index, EnvV, Environment, Error, ErrorV, Expr,
    ExprV, NodeV, Op, PyType, Stmt, StmtV};
use vstd::prelude::*;
use vstd::string::StringExecFns;
use vstd::string::StrSliceExecFns;

verus! {

broadcast use {vstd::std_specs::vec::group_vec_axioms, vstd::seq::group_seq_axioms,
    crate::types::lemma_view_nodes_len, crate::types::lemma_view_nodes_index,
    crate::rational::lemma_rat_view_range};

// ---------------------------------------------------------------------------
// The environment: an ordered list of bindings, scanned front to back.
// ---------------------------------------------------------------------------
/// The value bound to the first binding of `name`, if any.
pub open spec fn env_lookup(env: EnvV, name: Seq<char>) -> Option<NodeV>
    decreases env.len(),
{
    if env.len() == 0 {
        None
    } else if env[0].0 == name {
        Some(env[0].1)
    } else {
        env_lookup(env.skip(1), name)
    }
}

/// The environment after binding `name` to `val`: the first binding of `name`
/// is overwritten in place, or a new binding is appended at the end.
pub open spec fn env_update(env: EnvV, name: Seq<char>, val: NodeV) -> EnvV
    decreases env.len(),
{
    if env.len() == 0 {
        seq![(name, val)]
    } else if env[0].0 == name {
        env.update(0, (env[0].0, val))
    } else {
        seq![env[0]] + env_update(env.skip(1), name, val)
    }
}

proof fn lemma_env_lookup_found(env: EnvV, name: Seq<char>, i: int)
    requires
        0 <= i < env.len(),
        forall|j: int| 0 <= j < i ==> env[j].0 != name,
        env[i].0 == name,
    ensures
        env_lookup(env, name) == Some(env[i].1),
    decreases i,
{
    if i > 0 {
        lemma_env_lookup_found(env.skip(1), name, i - 1);
    }
}

proof fn lemma_env_lookup_missing(env: EnvV, name: Seq<char>)
    requires
        forall|j: int| 0 <= j < env.len() ==> env[j].0 != name,
    ensures
        env_lookup(env, name) is None,
    decreases env.len(),
{
    if env.len() > 0 {
        lemma_env_lookup_missing(env.skip(1), name);
    }
}

proof fn lemma_env_update_found(env: EnvV, name: Seq<char>, val: NodeV, i: int)
    requires
        0 <= i < env.len(),
        forall|j: int| 0 <= j < i ==> env[j].0 != name,
        env[i].0 == name,
    ensures
        env_update(env, name, val) == env.update(i, (env[i].0, val)),
    decreases i,
{
    if i == 0 {
        assert(env_update(env, name, val) =~= env.update(0, (env[0].0, val)));
    } else {
        lemma_env_update_found(env.skip(1), name, val, i - 1);
        assert(env_update(env, name, val) =~= env.update(i, (env[i].0, val)));
    }
}

proof fn lemma_env_update_missing(env: EnvV, name: Seq<char>, val: NodeV)
    requires
        forall|j: int| 0 <= j < env.len() ==> env[j].0 != name,
    ensures
        env_update(env, name, val) == env + seq![(name, val)],
    decreases env.len(),
{
    if env.len() == 0 {
        assert(env_update(env, name, val) =~= env + seq![(name, val)]);
    } else {
        lemma_env_update_missing(env.skip(1), name, val);
        assert(env_update(env, name, val) =~= env + seq![(name, val)]);
    }
}

/// The value bound to `target`, deep-copied out of the environment.
pub fn env_get(env: &Environment, target: &String) -> (r: Option<PyType>)
    ensures
        match r {
            Some(v) => env_lookup(env_view(env@), target@) == Some(v@),
            None => env_lookup(env_view(env@), target@) is None,
        },
{
    let ghost ev = env_view(env@);
    let mut i: usize = 0;
    while i < env.len()
        invariant
            i <= env.len(),
            ev == env_view(env@),
            forall|j: int| 0 <= j < i ==> ev[j].0 != target@,
        decreases env.len() - i,
    {
        if env[i].0 == *target {
            let v = env[i].1.clone();
            proof {
                lemma_env_lookup_found(ev, target@, i as int);
            }
            return Some(v);
        }
        i = i + 1;
    }
    proof {
        lemma_env_lookup_missing(ev, target@);
    }
    None
}

/// Binds `name` to `value`: overwrites the first binding of `name` in place,
/// or appends a new binding.
pub fn env_insert(env: &mut Environment, name: &String, value: &PyType)
    ensures
        env_view(final (env)@) == env_update(env_view(old(env)@), name@, value@),
{
    let ghost ev = env_view(old(env)@);
    let mut i: usize = 0;
    while i < env.len()
        invariant
            i <= env.len(),
            *env == *old(env),
            ev == env_view(env@),
            forall|j: int| 0 <= j < i ==> ev[j].0 != name@,
        decreases env.len() - i,
    {
        if env[i].0 == *name {
            let key = env[i].0.clone();
            let val = value.clone();
            env[i] = (key, val);
            proof {
                lemma_env_update_found(ev, name@, value@, i as int);
                assert(env_view(env@) =~= ev.update(i as int, (ev[i as int].0, value@)));
            }
            return ;
        }
        i = i + 1;
    }
    env.push((name.clone(), value.clone()));
    proof {
        lemma_env_update_missing(ev, name@, value@);
        assert(env_view(env@) =~= ev + seq![(name@, value@)]);
    }
}

// ---------------------------------------------------------------------------
// String order and repetition.
// ---------------------------------------------------------------------------
/// Lexicographic order on character sequences (the order of the language's
/// string comparisons).
pub open spec fn spec_str_lt(a: Seq<char>, b: Seq<char>) -> bool
    decreases a.len(),
{
    if b.len() == 0 {
        false
    } else if a.len() == 0 {
        true
    } else if a[0] != b[0] {
        (a[0] as int) < (b[0] as int)
    } else {
        spec_str_lt(a.skip(1), b.skip(1))
    }
}

/// `s` repeated `n` times; the empty sequence when `n <= 0`.
pub open spec fn spec_repeat(s: Seq<char>, n: int) -> Seq<char>
    decreases n,
{
    if n <= 0 {
        Seq::empty()
    } else {
        spec_repeat(s, n - 1) + s
    }
}

/// Whether `a` comes strictly before `b` in lexicographic order.
fn str_lt(a: &str, b: &str) -> (r: bool)
    ensures
        r == spec_str_lt(a@, b@),
{
    let alen = a.unicode_len();
    let blen = b.unicode_len();
    proof {
        assert(a@.skip(0) =~= a@);
        assert(b@.skip(0) =~= b@);
    }
    let mut i: usize = 0;
    while i < alen && i < blen
        invariant
            i <= alen,
            i <= blen,
            alen == a@.len(),
            blen == b@.len(),
            spec_str_lt(a@, b@) == spec_str_lt(a@.skip(i as int), b@.skip(i as int)),
            forall|j: int| 0 <= j < i ==> a@[j] == b@[j],
        decreases alen - i,
    {
        let ca = a.get_char(i);
        let cb = b.get_char(i);
        proof {
            assert(a@.skip(i as int)[0] == a@[i as int]);
            assert(b@.skip(i as int)[0] == b@[i as int]);
            assert(a@.skip(i as int).skip(1) =~= a@.skip(i as int + 1));
            assert(b@.skip(i as int).skip(1) =~= b@.skip(i as int + 1));
        }
        if ca != cb {
            return (ca as u32) < (cb as u32);
        }
        i = i + 1;
    }
    proof {
        assert(a@.skip(i as int).len() == alen - i);
        assert(b@.skip(i as int).len() == blen - i);
    }
    if i >= blen {
        false
    } else {
        true
    }
}

/// `s` repeated `n` times as a fresh string; empty when `n <= 0`.
fn repeat_str(s: &str, n: i64) -> (r: String)
    ensures
        r@ == spec_repeat(s@, n as int),
{
    let mut out = String::new();
    if n <= 0 {
        return out;
    }
    let mut k: i64 = 0;
    while k < n
        invariant
            0 <= k <= n,
            out@ == spec_repeat(s@, k as int),
        decreases n - k,
    {
        out.append(s);
        k = k + 1;
    }
    out
}

// ---------------------------------------------------------------------------
// Binary operators.
// ---------------------------------------------------------------------------
/// An exact integer result, or `Overflow` when it leaves machine range.
pub open spec fn int_result(n: int) -> Result<NodeV, ErrorV> {
    if in_i64(n) {
        Ok(NodeV::Expr(ExprV::Int(n)))
    } else {
        Err(ErrorV::Overflow)
    }
}

/// An exact fraction result, or `Overflow` when it leaves machine range.
pub open spec fn float_result(c: RatV) -> Result<NodeV, ErrorV> {
    if rat_in_range(c) {
        Ok(NodeV::Expr(ExprV::Float(c)))
    } else {
        Err(ErrorV::Overflow)
    }
}

/// What a binary operator yields on two evaluated values.
///
/// The asymmetries of the source language are part of the specification:
/// `Or` yields the original left or right value while a false `And` yields
/// the boolean `false`; `String * Int` repeats but `Int * String` does not;
/// `!=` on two strings computes string equality; a zero divisor is reported
/// before the left operand's type is examined.
pub open spec fn spec_binop(op: Op, l: NodeV, r: NodeV) -> Result<NodeV, ErrorV> {
    match (l, r) {
        (NodeV::Expr(le), NodeV::Expr(re)) => match op {
            Op::Add => match (le, re) {
                (ExprV::Int(a), ExprV::Int(b)) => int_result(a + b),
                (ExprV::Int(a), ExprV::Float(q)) => float_result(rat_add(rat_of_int(a), q)),
                (ExprV::Float(p), ExprV::Int(b)) => float_result(rat_add(p, rat_of_int(b))),
                (ExprV::Float(p), ExprV::Float(q)) => float_result(rat_add(p, q)),
                (ExprV::Str(s1), ExprV::Str(s2)) => Ok(NodeV::Expr(ExprV::Str(s1 + s2))),
                _ => Err(ErrorV::InvalidOperands(op)),
            },
            Op::Sub => match (le, re) {
                (ExprV::Int(a), ExprV::Int(b)) => int_result(a - b),
                (ExprV::Int(a), ExprV::Float(q)) => float_result(rat_sub(rat_of_int(a), q)),
                (ExprV::Float(p), ExprV::Int(b)) => float_result(rat_sub(p, rat_of_int(b))),
                (ExprV::Float(p), ExprV::Float(q)) => float_result(rat_sub(p, q)),
                _ => Err(ErrorV::InvalidOperands(op)),
            },
            Op::Mult => match (le, re) {
                (ExprV::Int(a), ExprV::Int(b)) => int_result(a * b),
                (ExprV::Int(a), ExprV::Float(q)) => float_result(rat_mul(rat_of_int(a), q)),
                (ExprV::Float(p), ExprV::Int(b)) => float_result(rat_mul(p, rat_of_int(b))),
                (ExprV::Float(p), ExprV::Float(q)) => float_result(rat_mul(p, q)),
                (ExprV::Str(s), ExprV::Int(n)) => Ok(NodeV::Expr(ExprV::Str(spec_repeat(s, n)))),
                _ => Err(ErrorV::InvalidOperands(op)),
            },
            Op::Div => if (re matches ExprV::Int(b) && b == 0) || (re matches ExprV::Float(q)
                && q.num == 0) {
                Err(ErrorV::ZeroDivision)
            } else {
                match (le, re) {
                    (ExprV::Int(a), ExprV::Int(b)) => float_result(
                        rat_div(rat_of_int(a), rat_of_int(b)),
                    ),
                    (ExprV::Int(a), ExprV::Float(q)) => float_result(rat_div(rat_of_int(a), q)),
                    (ExprV::Float(p), ExprV::Int(b)) => float_result(rat_div(p, rat_of_int(b))),
                    (ExprV::Float(p), ExprV::Float(q)) => float_result(rat_div(p, q)),
                    _ => Err(ErrorV::InvalidOperands(op)),
                }
            },
            Op::Or => match spec_to_bool(l) {
                Ok(b) => if !b {
                    Ok(r)
                } else {
                    Ok(l)
                },
                Err(e) => Err(e),
            },
            Op::And => match spec_to_bool(l) {
                Ok(b) => if !b {
                    Ok(NodeV::Expr(ExprV::Bool(false)))
                } else {
                    Ok(r)
                },
                Err(e) => Err(e),
            },
            Op::Equal => match (le, re) {
                (ExprV::Int(a), ExprV::Int(b)) => Ok(NodeV::Expr(ExprV::Bool(a == b))),
                (ExprV::Int(a), ExprV::Float(q)) => Ok(
                    NodeV::Expr(ExprV::Bool(rat_eq(rat_of_int(a), q))),
                ),
                (ExprV::Float(p), ExprV::Int(b)) => Ok(
                    NodeV::Expr(ExprV::Bool(rat_eq(p, rat_of_int(b)))),
                ),
                (ExprV::Float(p), ExprV::Float(q)) => Ok(NodeV::Expr(ExprV::Bool(rat_eq(p, q)))),
                (ExprV::Bool(b1), ExprV::Bool(b2)) => Ok(NodeV::Expr(ExprV::Bool(b1 == b2))),
                (ExprV::Str(s1), ExprV::Str(s2)) => Ok(NodeV::Expr(ExprV::Bool(s1 == s2))),
                _ => Err(ErrorV::InvalidOperands(op)),
            },
            Op::NotEqual => match (le, re) {
                (ExprV::Int(a), ExprV::Int(b)) => Ok(NodeV::Expr(ExprV::Bool(a != b))),
                (ExprV::Int(a), ExprV::Float(q)) => Ok(
                    NodeV::Expr(ExprV::Bool(!rat_eq(rat_of_int(a), q))),
                ),
                (ExprV::Float(p), ExprV::Int(b)) => Ok(
                    NodeV::Expr(ExprV::Bool(!rat_eq(p, rat_of_int(b)))),
                ),
                (ExprV::Float(p), ExprV::Float(q)) => Ok(NodeV::Expr(ExprV::Bool(!rat_eq(p, q)))),
                (ExprV::Bool(b1), ExprV::Bool(b2)) => Ok(NodeV::Expr(ExprV::Bool(b1 != b2))),
                // `!=` on two strings yields string *equality*: a quirk of the
                // language, kept as observed behavior.
                (ExprV::Str(s1), ExprV::Str(s2)) => Ok(NodeV::Expr(ExprV::Bool(s1 == s2))),
                _ => Err(ErrorV::InvalidOperands(op)),
            },
            Op::Less => match (le, re) {
                (ExprV::Int(a), ExprV::Int(b)) => Ok(NodeV::Expr(ExprV::Bool(a < b))),
                (ExprV::Int(a), ExprV::Float(q)) => Ok(
                    NodeV::Expr(ExprV::Bool(rat_lt(rat_of_int(a), q))),
                ),
                (ExprV::Float(p), ExprV::Int(b)) => Ok(
                    NodeV::Expr(ExprV::Bool(rat_lt(p, rat_of_int(b)))),
                ),
                (ExprV::Float(p), ExprV::Float(q)) => Ok(NodeV::Expr(ExprV::Bool(rat_lt(p, q)))),
                (ExprV::Bool(b1), ExprV::Bool(b2)) => Ok(NodeV::Expr(ExprV::Bool(!b1 && b2))),
                (ExprV::Str(s1), ExprV::Str(s2)) => Ok(
                    NodeV::Expr(ExprV::Bool(spec_str_lt(s1, s2))),
                ),
                _ => Err(ErrorV::InvalidOperands(op)),
            },
            Op::Greater => match (le, re) {
                (ExprV::Int(a), ExprV::Int(b)) => Ok(NodeV::Expr(ExprV::Bool(a > b))),
                (ExprV::Int(a), ExprV::Float(q)) => Ok(
                    NodeV::Expr(ExprV::Bool(rat_lt(q, rat_of_int(a)))),
                ),
                (ExprV::Float(p), ExprV::Int(b)) => Ok(
                    NodeV::Expr(ExprV::Bool(rat_lt(rat_of_int(b), p))),
                ),
                (ExprV::Float(p), ExprV::Float(q)) => Ok(NodeV::Expr(ExprV::Bool(rat_lt(q, p)))),
                (ExprV::Bool(b1), ExprV::Bool(b2)) => Ok(NodeV::Expr(ExprV::Bool(b1 && !b2))),
                (ExprV::Str(s1), ExprV::Str(s2)) => Ok(
                    NodeV::Expr(ExprV::Bool(spec_str_lt(s2, s1))),
                ),
                _ => Err(ErrorV::InvalidOperands(op)),
            },
            Op::LessEqual => match (le, re) {
                (ExprV::Int(a), ExprV::Int(b)) => Ok(NodeV::Expr(ExprV::Bool(a <= b))),
                (ExprV::Int(a), ExprV::Float(q)) => Ok(
                    NodeV::Expr(ExprV::Bool(rat_le(rat_of_int(a), q))),
                ),
                (ExprV::Float(p), ExprV::Int(b)) => Ok(
                    NodeV::Expr(ExprV::Bool(rat_le(p, rat_of_int(b)))),
                ),
                (ExprV::Float(p), ExprV::Float(q)) => Ok(NodeV::Expr(ExprV::Bool(rat_le(p, q)))),
                (ExprV::Bool(b1), ExprV::Bool(b2)) => Ok(NodeV::Expr(ExprV::Bool(!b1 || b2))),
                (ExprV::Str(s1), ExprV::Str(s2)) => Ok(
                    NodeV::Expr(ExprV::Bool(!spec_str_lt(s2, s1))),
                ),
                _ => Err(ErrorV::InvalidOperands(op)),
            },
            Op::GreaterEqual => match (le, re) {
                (ExprV::Int(a), ExprV::Int(b)) => Ok(NodeV::Expr(ExprV::Bool(a >= b))),
                (ExprV::Int(a), ExprV::Float(q)) => Ok(
                    NodeV::Expr(ExprV::Bool(rat_le(q, rat_of_int(a)))),
                ),
                (ExprV::Float(p), ExprV::Int(b)) => Ok(
                    NodeV::Expr(ExprV::Bool(rat_le(rat_of_int(b), p))),
                ),
                (ExprV::Float(p), ExprV::Float(q)) => Ok(NodeV::Expr(ExprV::Bool(rat_le(q, p)))),
                (ExprV::Bool(b1), ExprV::Bool(b2)) => Ok(NodeV::Expr(ExprV::Bool(b1 || !b2))),
                (ExprV::Str(s1), ExprV::Str(s2)) => Ok(
                    NodeV::Expr(ExprV::Bool(!spec_str_lt(s1, s2))),
                ),
                _ => Err(ErrorV::InvalidOperands(op)),
            },
        },
        _ => Err(ErrorV::InvalidOperands(op)),
    }
}

/// View of an evaluation result.
pub open spec fn res_view(r: Result<PyType, Error>) -> Result<NodeV, ErrorV> {
    match r {
        Ok(v) => Ok(v@),
        Err(e) => Err(e@),
    }
}

/// An expression's view has the constructor of the expression.
proof fn lemma_expr_view_shape(e: &Expr)
    ensures
        (e@ matches ExprV::Int(_)) == (e matches Expr::Int(_)),
        (e@ matches ExprV::Float(_)) == (e matches Expr::Float(_)),
        (e@ matches ExprV::Bool(_)) == (e matches Expr::Bool(_)),
        (e@ matches ExprV::Str(_)) == (e matches Expr::Str(_)),
        (e@ matches ExprV::Var(_)) == (e matches Expr::Var(_)),
        (e@ matches ExprV::Binop(_, _, _)) == (e matches Expr::Binop(_, _, _)),
        (e@ matches ExprV::Not(_)) == (e matches Expr::Not(_)),
        (e@ matches ExprV::Return(_)) == (e matches Expr::Return(_)),
        (e@ matches ExprV::FunctionCall(_, _)) == (e matches Expr::FunctionCall(_, _)),
{
    match e {
        Expr::Int(_) => {},
        Expr::Float(_) => {},
        Expr::Bool(_) => {},
        Expr::Str(_) => {},
        Expr::Var(_) => {},
        Expr::Binop(_, _, _) => {},
        Expr::Not(_) => {},
        Expr::Return(_) => {},
        Expr::FunctionCall(_, _) => {},
    }
}

/// Applies `+`: numeric addition with promotion, or string concatenation.
#[verifier::spinoff_prover]
fn eval_arith_add(op: &Op, left: &PyType, right: &PyType) -> (r: Result<PyType, Error>)
    requires
        op matches Op::Add,
        left matches PyType::Expr(_),
        right matches PyType::Expr(_),
    ensures
        res_view(r) == spec_binop(*op, left@, right@),
{
    match (left, right) {
        (PyType::Expr(le), PyType::Expr(re)) => {
            proof {
                lemma_expr_view_shape(le);
                lemma_expr_view_shape(re);
            }
            match (le, re) {
                (Expr::Int(a), Expr::Int(b)) => match a.checked_add(*b) {
                    Some(s) => Ok(PyType::Expr(Expr::Int(s))),
                    None => Err(Error::Overflow),
                },
                (Expr::Int(a), Expr::Float(q)) => match Rat::from_int(*a).add(q) {
                    Some(c) => Ok(PyType::Expr(Expr::Float(c))),
                    None => Err(Error::Overflow),
                },
                (Expr::Float(p), Expr::Int(b)) => match p.add(&Rat::from_int(*b)) {
                    Some(c) => Ok(PyType::Expr(Expr::Float(c))),
                    None => Err(Error::Overflow),
                },
                (Expr::Float(p), Expr::Float(q)) => match p.add(q) {
                    Some(c) => Ok(PyType::Expr(Expr::Float(c))),
                    None => Err(Error::Overflow),
                },
                (Expr::Str(s1), Expr::Str(s2)) => Ok(
                    PyType::Expr(Expr::Str(s1.clone().concat(s2.as_str()))),
                ),
                _ => Err(Error::InvalidOperands(*op)),
            }
        },
        _ => Err(Error::InvalidOperands(*op)),
    }
}

/// Applies `-`: numeric subtraction with promotion.
#[verifier::spinoff_prover]
fn eval_arith_sub(op: &Op, left: &PyType, right: &PyType) -> (r: Result<PyType, Error>)
    requires
        op matches Op::Sub,
        left matches PyType::Expr(_),
        right matches PyType::Expr(_),
    ensures
        res_view(r) == spec_binop(*op, left@, right@),
{
    match (left, right) {
        (PyType::Expr(le), PyType::Expr(re)) => {
            proof {
                lemma_expr_view_shape(le);
                lemma_expr_view_shape(re);
            }
            match (le, re) {
                (Expr::Int(a), Expr::Int(b)) => match a.checked_sub(*b) {
                    Some(s) => Ok(PyType::Expr(Expr::Int(s))),
                    None => Err(Error::Overflow),
                },
                (Expr::Int(a), Expr::Float(q)) => match Rat::from_int(*a).sub(q) {
                    Some(c) => Ok(PyType::Expr(Expr::Float(c))),
                    None => Err(Error::Overflow),
                },
                (Expr::Float(p), Expr::Int(b)) => match p.sub(&Rat::from_int(*b)) {
                    Some(c) => Ok(PyType::Expr(Expr::Float(c))),
                    None => Err(Error::Overflow),
                },
                (Expr::Float(p), Expr::Float(q)) => match p.sub(q) {
                    Some(c) => Ok(PyType::Expr(Expr::Float(c))),
                    None => Err(Error::Overflow),
                },
                _ => Err(Error::InvalidOperands(*op)),
            }
        },
        _ => Err(Error::InvalidOperands(*op)),
    }
}

/// Applies `*`: numeric multiplication with promotion, or string repetition.
#[verifier::spinoff_prover]
fn eval_arith_mult(op: &Op, left: &PyType, right: &PyType) -> (r: Result<PyType, Error>)
    requires
        op matches Op::Mult,
        left matches PyType::Expr(_),
        right matches PyType::Expr(_),
    ensures
        res_view(r) == spec_binop(*op, left@, right@),
{
    match (left, right) {
        (PyType::Expr(le), PyType::Expr(re)) => {
            proof {
                lemma_expr_view_shape(le);
                lemma_expr_view_shape(re);
            }
            match (le, re) {
                (Expr::Int(a), Expr::Int(b)) => match a.checked_mul(*b) {
                    Some(s) => Ok(PyType::Expr(Expr::Int(s))),
                    None => Err(Error::Overflow),
                },
                (Expr::Int(a), Expr::Float(q)) => match Rat::from_int(*a).mul(q) {
                    Some(c) => Ok(PyType::Expr(Expr::Float(c))),
                    None => Err(Error::Overflow),
                },
                (Expr::Float(p), Expr::Int(b)) => match p.mul(&Rat::from_int(*b)) {
                    Some(c) => Ok(PyType::Expr(Expr::Float(c))),
                    None => Err(Error::Overflow),
                },
                (Expr::Float(p), Expr::Float(q)) => match p.mul(q) {
                    Some(c) => Ok(PyType::Expr(Expr::Float(c))),
                    None => Err(Error::Overflow),
                },
                (Expr::Str(s), Expr::Int(n)) => Ok(
                    PyType::Expr(Expr::Str(repeat_str(s.as_str(), *n))),
                ),
                _ => Err(Error::InvalidOperands(*op)),
            }
        },
        _ => Err(Error::InvalidOperands(*op)),
    }
}

/// Applies `/`: exact division; a zero divisor is reported first, and a
/// successful division always yields a `Float`.
#[verifier::spinoff_prover]
fn eval_arith_div(op: &Op, left: &PyType, right: &PyType) -> (r: Result<PyType, Error>)
    requires
        op matches Op::Div,
        left matches PyType::Expr(_),
        right matches PyType::Expr(_),
    ensures
        res_view(r) == spec_binop(*op, left@, right@),
{
    match (left, right) {
        (PyType::Expr(le), PyType::Expr(re)) => {
            proof {
                lemma_expr_view_shape(le);
                lemma_expr_view_shape(re);
            }
            {
                let zero_divisor = match re {
                    Expr::Int(b) => *b == 0,
                    Expr::Float(q) => q.is_zero(),
                    _ => false,
                };
                if zero_divisor {
                    Err(Error::ZeroDivision)
                } else {
                    match (le, re) {
                        (Expr::Int(a), Expr::Int(b)) => match Rat::from_int(*a).div(
                            &Rat::from_int(*b),
                        ) {
                            Some(c) => Ok(PyType::Expr(Expr::Float(c))),
                            None => Err(Error::Overflow),
                        },
                        (Expr::Int(a), Expr::Float(q)) => match Rat::from_int(*a).div(q) {
                            Some(c) => Ok(PyType::Expr(Expr::Float(c))),
                            None => Err(Error::Overflow),
                        },
                        (Expr::Float(p), Expr::Int(b)) => match p.div(&Rat::from_int(*b)) {
                            Some(c) => Ok(PyType::Expr(Expr::Float(c))),
                            None => Err(Error::Overflow),
                        },
                        (Expr::Float(p), Expr::Float(q)) => match p.div(q) {
                            Some(c) => Ok(PyType::Expr(Expr::Float(c))),
                            None => Err(Error::Overflow),
                        },
                        _ => Err(Error::InvalidOperands(*op)),
                    }
                }
            }
        },
        _ => Err(Error::InvalidOperands(*op)),
    }
}

/// Applies `or` or `and` to two expression values.
#[verifier::spinoff_prover]
fn eval_logic(op: &Op, left: &PyType, right: &PyType) -> (r: Result<PyType, Error>)
    requires
        (op matches Op::Or) || (op matches Op::And),
        left matches PyType::Expr(_),
        right matches PyType::Expr(_),
    ensures
        res_view(r) == spec_binop(*op, left@, right@),
{
    match (left, right) {
        (PyType::Expr(le), PyType::Expr(re)) => {
            proof {
                lemma_expr_view_shape(le);
                lemma_expr_view_shape(re);
            }
            match op {
            Op::Or => match left.to_bool() {
                Ok(b) => if !b {
                    Ok(right.clone())
                } else {
                    Ok(left.clone())
                },
                Err(e) => Err(e),
            },
            Op::And => match left.to_bool() {
                Ok(b) => if !b {
                    Ok(PyType::Expr(Expr::Bool(false)))
                } else {
                    Ok(right.clone())
                },
                Err(e) => Err(e),
            },
            _ => Err(Error::InvalidOperands(*op)),
        }
        },
        _ => Err(Error::InvalidOperands(*op)),
    }
}

/// Applies `==` on matching-type pairs, with numeric promotion.
#[verifier::spinoff_prover]
fn eval_cmp_equal(op: &Op, left: &PyType, right: &PyType) -> (r: Result<PyType, Error>)
    requires
        op matches Op::Equal,
        left matches PyType::Expr(_),
        right matches PyType::Expr(_),
    ensures
        res_view(r) == spec_binop(*op, left@, right@),
{
    match (left, right) {
        (PyType::Expr(le), PyType::Expr(re)) => {
            proof {
                lemma_expr_view_shape(le);
                lemma_expr_view_shape(re);
            }
            match (le, re) {
                (Expr::Int(a), Expr::Int(b)) => Ok(PyType::Expr(Expr::Bool(*a == *b))),
                (Expr::Int(a), Expr::Float(q)) => Ok(
                    PyType::Expr(Expr::Bool(Rat::from_int(*a).eq_val(q))),
                ),
                (Expr::Float(p), Expr::Int(b)) => Ok(
                    PyType::Expr(Expr::Bool(p.eq_val(&Rat::from_int(*b)))),
                ),
                (Expr::Float(p), Expr::Float(q)) => Ok(PyType::Expr(Expr::Bool(p.eq_val(q)))),
                (Expr::Bool(b1), Expr::Bool(b2)) => Ok(PyType::Expr(Expr::Bool(*b1 == *b2))),
                (Expr::Str(s1), Expr::Str(s2)) => Ok(PyType::Expr(Expr::Bool(*s1 == *s2))),
                _ => Err(Error::InvalidOperands(*op)),
            }
        },
        _ => Err(Error::InvalidOperands(*op)),
    }
}

/// Applies `!=` on matching-type pairs; on two strings it computes string
/// equality, a preserved quirk of the language.
#[verifier::spinoff_prover]
fn eval_cmp_notequal(op: &Op, left: &PyType, right: &PyType) -> (r: Result<PyType, Error>)
    requires
        op matches Op::NotEqual,
        left matches PyType::Expr(_),
        right matches PyType::Expr(_),
    ensures
        res_view(r) == spec_binop(*op, left@, right@),
{
    match (left, right) {
        (PyType::Expr(le), PyType::Expr(re)) => {
            proof {
                lemma_expr_view_shape(le);
                lemma_expr_view_shape(re);
            }
            match (le, re) {
                (Expr::Int(a), Expr::Int(b)) => Ok(PyType::Expr(Expr::Bool(*a != *b))),
                (Expr::Int(a), Expr::Float(q)) => Ok(
                    PyType::Expr(Expr::Bool(!Rat::from_int(*a).eq_val(q))),
                ),
                (Expr::Float(p), Expr::Int(b)) => Ok(
                    PyType::Expr(Expr::Bool(!p.eq_val(&Rat::from_int(*b)))),
                ),
                (Expr::Float(p), Expr::Float(q)) => Ok(PyType::Expr(Expr::Bool(!p.eq_val(q)))),
                (Expr::Bool(b1), Expr::Bool(b2)) => Ok(PyType::Expr(Expr::Bool(*b1 != *b2))),
                // String *equality*, as the language defines `!=` on strings.
                (Expr::Str(s1), Expr::Str(s2)) => Ok(PyType::Expr(Expr::Bool(*s1 == *s2))),
                _ => Err(Error::InvalidOperands(*op)),
            }
        },
        _ => Err(Error::InvalidOperands(*op)),
    }
}

/// Applies `<` on matching-type pairs, with numeric promotion.
#[verifier::spinoff_prover]
fn eval_cmp_less(op: &Op, left: &PyType, right: &PyType) -> (r: Result<PyType, Error>)
    requires
        op matches Op::Less,
        left matches PyType::Expr(_),
        right matches PyType::Expr(_),
    ensures
        res_view(r) == spec_binop(*op, left@, right@),
{
    match (left, right) {
        (PyType::Expr(le), PyType::Expr(re)) => {
            proof {
                lemma_expr_view_shape(le);
                lemma_expr_view_shape(re);
            }
            match (le, re) {
                (Expr::Int(a), Expr::Int(b)) => Ok(PyType::Expr(Expr::Bool(*a < *b))),
                (Expr::Int(a), Expr::Float(q)) => Ok(
                    PyType::Expr(Expr::Bool(Rat::from_int(*a).lt(q))),
                ),
                (Expr::Float(p), Expr::Int(b)) => Ok(
                    PyType::Expr(Expr::Bool(p.lt(&Rat::from_int(*b)))),
                ),
                (Expr::Float(p), Expr::Float(q)) => Ok(PyType::Expr(Expr::Bool(p.lt(q)))),
                (Expr::Bool(b1), Expr::Bool(b2)) => Ok(PyType::Expr(Expr::Bool(!*b1 && *b2))),
                (Expr::Str(s1), Expr::Str(s2)) => Ok(
                    PyType::Expr(Expr::Bool(str_lt(s1.as_str(), s2.as_str()))),
                ),
                _ => Err(Error::InvalidOperands(*op)),
            }
        },
        _ => Err(Error::InvalidOperands(*op)),
    }
}

/// Applies `>` on matching-type pairs, with numeric promotion.
#[verifier::spinoff_prover]
fn eval_cmp_greater(op: &Op, left: &PyType, right: &PyType) -> (r: Result<PyType, Error>)
    requires
        op matches Op::Greater,
        left matches PyType::Expr(_),
        right matches PyType::Expr(_),
    ensures
        res_view(r) == spec_binop(*op, left@, right@),
{
    match (left, right) {
        (PyType::Expr(le), PyType::Expr(re)) => {
            proof {
                lemma_expr_view_shape(le);
                lemma_expr_view_shape(re);
            }
            match (le, re) {
                (Expr::Int(a), Expr::Int(b)) => Ok(PyType::Expr(Expr::Bool(*a > *b))),
                (Expr::Int(a), Expr::Float(q)) => Ok(
                    PyType::Expr(Expr::Bool(q.lt(&Rat::from_int(*a)))),
                ),
                (Expr::Float(p), Expr::Int(b)) => Ok(
                    PyType::Expr(Expr::Bool(Rat::from_int(*b).lt(p))),
                ),
                (Expr::Float(p), Expr::Float(q)) => Ok(PyType::Expr(Expr::Bool(q.lt(p)))),
                (Expr::Bool(b1), Expr::Bool(b2)) => Ok(PyType::Expr(Expr::Bool(*b1 && !*b2))),
                (Expr::Str(s1), Expr::Str(s2)) => Ok(
                    PyType::Expr(Expr::Bool(str_lt(s2.as_str(), s1.as_str()))),
                ),
                _ => Err(Error::InvalidOperands(*op)),
            }
        },
        _ => Err(Error::InvalidOperands(*op)),
    }
}

/// Applies `<=` on matching-type pairs, with numeric promotion.
#[verifier::spinoff_prover]
fn eval_cmp_lessequal(op: &Op, left: &PyType, right: &PyType) -> (r: Result<PyType, Error>)
    requires
        op matches Op::LessEqual,
        left matches PyType::Expr(_),
        right matches PyType::Expr(_),
    ensures
        res_view(r) == spec_binop(*op, left@, right@),
{
    match (left, right) {
        (PyType::Expr(le), PyType::Expr(re)) => {
            proof {
                lemma_expr_view_shape(le);
                lemma_expr_view_shape(re);
            }
            match (le, re) {
                (Expr::Int(a), Expr::Int(b)) => Ok(PyType::Expr(Expr::Bool(*a <= *b))),
                (Expr::Int(a), Expr::Float(q)) => Ok(
                    PyType::Expr(Expr::Bool(Rat::from_int(*a).le(q))),
                ),
                (Expr::Float(p), Expr::Int(b)) => Ok(
                    PyType::Expr(Expr::Bool(p.le(&Rat::from_int(*b)))),
                ),
                (Expr::Float(p), Expr::Float(q)) => Ok(PyType::Expr(Expr::Bool(p.le(q)))),
                (Expr::Bool(b1), Expr::Bool(b2)) => Ok(PyType::Expr(Expr::Bool(!*b1 || *b2))),
                (Expr::Str(s1), Expr::Str(s2)) => Ok(
                    PyType::Expr(Expr::Bool(!str_lt(s2.as_str(), s1.as_str()))),
                ),
                _ => Err(Error::InvalidOperands(*op)),
            }
        },
        _ => Err(Error::InvalidOperands(*op)),
    }
}

/// Applies `>=` on matching-type pairs, with numeric promotion.
#[verifier::spinoff_prover]
fn eval_cmp_greaterequal(op: &Op, left: &PyType, right: &PyType) -> (r: Result<PyType, Error>)
    requires
        op matches Op::GreaterEqual,
        left matches PyType::Expr(_),
        right matches PyType::Expr(_),
    ensures
        res_view(r) == spec_binop(*op, left@, right@),
{
    match (left, right) {
        (PyType::Expr(le), PyType::Expr(re)) => {
            proof {
                lemma_expr_view_shape(le);
                lemma_expr_view_shape(re);
            }
            match (le, re) {
                (Expr::Int(a), Expr::Int(b)) => Ok(PyType::Expr(Expr::Bool(*a >= *b))),
                (Expr::Int(a), Expr::Float(q)) => Ok(
                    PyType::Expr(Expr::Bool(q.le(&Rat::from_int(*a)))),
                ),
                (Expr::Float(p), Expr::Int(b)) => Ok(
                    PyType::Expr(Expr::Bool(Rat::from_int(*b).le(p))),
                ),
                (Expr::Float(p), Expr::Float(q)) => Ok(PyType::Expr(Expr::Bool(q.le(p)))),
                (Expr::Bool(b1), Expr::Bool(b2)) => Ok(PyType::Expr(Expr::Bool(*b1 || !*b2))),
                (Expr::Str(s1), Expr::Str(s2)) => Ok(
                    PyType::Expr(Expr::Bool(!str_lt(s1.as_str(), s2.as_str()))),
                ),
                _ => Err(Error::InvalidOperands(*op)),
            }
        },
        _ => Err(Error::InvalidOperands(*op)),
    }
}

/// Applies a binary operator to two evaluated values.
fn eval_binop(op: &Op, left: &PyType, right: &PyType) -> (r: Result<PyType, Error>)
    ensures
        res_view(r) == spec_binop(*op, left@, right@),
{
    match (left, right) {
        (PyType::Expr(_), PyType::Expr(_)) => match op {
            Op::Add => eval_arith_add(op, left, right),
            Op::Sub => eval_arith_sub(op, left, right),
            Op::Mult => eval_arith_mult(op, left, right),
            Op::Div => eval_arith_div(op, left, right),
            Op::Or => eval_logic(op, left, right),
            Op::And => eval_logic(op, left, right),
            Op::Equal => eval_cmp_equal(op, left, right),
            Op::NotEqual => eval_cmp_notequal(op, left, right),
            Op::Less => eval_cmp_less(op, left, right),
            Op::Greater => eval_cmp_greater(op, left, right),
            Op::LessEqual => eval_cmp_lessequal(op, left, right),
            Op::GreaterEqual => eval_cmp_greaterequal(op, left, right),
        },
        _ => Err(Error::InvalidOperands(*op)),
    }
}

// ---------------------------------------------------------------------------
// The semantics: a total, fuel-indexed evaluation function.
// ---------------------------------------------------------------------------
/// A node's view is a `Return` expression exactly when the node is one.
proof fn lemma_return_shape(v: &PyType)
    ensures
        (v@ matches NodeV::Expr(ExprV::Return(_))) == (v matches PyType::Expr(Expr::Return(_))),
{
    match v {
        PyType::Stmt(_) => {},
        PyType::Expr(e) => {
            match e {
                Expr::Int(_) => {},
                Expr::Float(_) => {},
                Expr::Bool(_) => {},
                Expr::Str(_) => {},
                Expr::Var(_) => {},
                Expr::Binop(_, _, _) => {},
                Expr::Not(_) => {},
                Expr::Return(_) => {},
                Expr::FunctionCall(_, _) => {},
            }
        },
    }
}

/// View of an optional block body.
pub open spec fn opt_nodes_view(els: &Option<Vec<PyType>>) -> Option<Seq<NodeV>> {
    match els {
        Some(b) => Some(view_nodes(b@)),
        None => None,
    }
}

/// Evaluation of one node. The environment after the call is part of the
/// result: assignments performed before an error stick.
pub open spec fn spec_eval(fuel: nat, node: NodeV, env: EnvV) -> (Result<NodeV, ErrorV>, EnvV)
    decreases fuel, 2int, 0int,
{
    if fuel == 0 {
        (Err(ErrorV::RecursionLimit), env)
    } else {
        let f = (fuel - 1) as nat;
        match node {
            NodeV::Expr(ExprV::Int(_)) => (Ok(node), env),
            NodeV::Expr(ExprV::Float(_)) => (Ok(node), env),
            NodeV::Expr(ExprV::Bool(_)) => (Ok(node), env),
            NodeV::Expr(ExprV::Str(_)) => (Ok(node), env),
            NodeV::Expr(ExprV::Var(v)) => match env_lookup(env, v) {
                Some(val) => spec_eval(f, val, env),
                None => (Err(ErrorV::NameError(v)), env),
            },
            NodeV::Expr(ExprV::Not(e)) => {
                let (r, env1) = spec_eval(f, *e, env);
                match r {
                    Ok(val) => match spec_to_bool(val) {
                        Ok(b) => (Ok(NodeV::Expr(ExprV::Bool(!b))), env1),
                        Err(er) => (Err(er), env1),
                    },
                    Err(er) => (Err(er), env1),
                }
            },
            NodeV::Expr(ExprV::Binop(op, l, r)) => {
                // Both operands are always evaluated, left first, and the
                // left operand's error wins; side effects of the right
                // operand happen even when the left failed.
                let (rl, env1) = spec_eval(f, *l, env);
                let (rr, env2) = spec_eval(f, *r, env1);
                match (rl, rr) {
                    (Ok(lv), Ok(rv)) => (spec_binop(op, lv, rv), env2),
                    (Err(e), _) => (Err(e), env2),
                    (_, Err(e)) => (Err(e), env2),
                }
            },
            NodeV::Expr(ExprV::Return(e)) => {
                let (r, env1) = spec_eval(f, *e, env);
                match r {
                    Ok(NodeV::Expr(ev)) => (
                        Ok(NodeV::Expr(ExprV::Return(Box::new(NodeV::Expr(ev))))),
                        env1,
                    ),
                    Ok(_) => (Err(ErrorV::ReturnedNonExpression), env1),
                    Err(er) => (Err(er), env1),
                }
            },
            NodeV::Expr(ExprV::FunctionCall(name, args)) => spec_eval_call(fuel, name, args, env),
            NodeV::Stmt(StmtV::VarAssign(v, e)) => {
                // The statement's own value is the assigned value.
                let (r, env1) = spec_eval(f, *e, env);
                match r {
                    Ok(NodeV::Expr(ev)) => (
                        Ok(NodeV::Expr(ev)),
                        env_update(env1, v, NodeV::Expr(ev)),
                    ),
                    Ok(_) => (Err(ErrorV::AssignedNonExpression), env1),
                    Err(er) => (Err(er), env1),
                }
            },
            NodeV::Stmt(StmtV::If(c, body, els)) => spec_eval_if(fuel, *c, body, els, env),
            NodeV::Stmt(StmtV::Function(name, _, _)) => (Ok(node), env_update(env, name, node)),
            NodeV::Stmt(StmtV::NoOp) => (Err(ErrorV::NotEvaluable), env),
        }
    }
}

/// Evaluation of an `if` statement: the condition must reduce to a boolean;
/// the chosen branch's block is evaluated; a false condition without an
/// `else` yields `NoOp`.
pub open spec fn spec_eval_if(
    fuel: nat,
    cond: NodeV,
    body: Seq<NodeV>,
    els: Option<Seq<NodeV>>,
    env: EnvV,
) -> (Result<NodeV, ErrorV>, EnvV)
    decreases fuel, 1int, 0int,
{
    if fuel == 0 {
        (Err(ErrorV::RecursionLimit), env)
    } else {
        let f = (fuel - 1) as nat;
        let (rc, env1) = spec_eval(f, cond, env);
        match rc {
            Ok(NodeV::Expr(ExprV::Bool(b))) => if b {
                spec_eval_block(f, body, env1)
            } else {
                match els {
                    Some(eb) => spec_eval_block(f, eb, env1),
                    None => (Ok(NodeV::Stmt(StmtV::NoOp)), env1),
                }
            },
            Ok(_) => (Err(ErrorV::ConditionNotBool), env1),
            Err(e) => (Err(e), env1),
        }
    }
}

/// Evaluation of a block body: entries in order; an entry that evaluates to a
/// `Return` node stops the block and is its value; otherwise the value of the
/// last entry is the value of the block. An empty block yields `NoOp`.
pub open spec fn spec_eval_block(fuel: nat, body: Seq<NodeV>, env: EnvV) -> (
    Result<NodeV, ErrorV>,
    EnvV,
)
    decreases fuel, 0int, body.len(),
{
    if fuel == 0 {
        (Err(ErrorV::RecursionLimit), env)
    } else if body.len() == 0 {
        (Ok(NodeV::Stmt(StmtV::NoOp)), env)
    } else {
        let f = (fuel - 1) as nat;
        let (r, env1) = spec_eval(f, body[0], env);
        match r {
            Ok(v) => if body.len() == 1 {
                (Ok(v), env1)
            } else if v matches NodeV::Expr(ExprV::Return(_)) {
                (Ok(v), env1)
            } else {
                spec_eval_block(fuel, body.skip(1), env1)
            },
            Err(e) => (Err(e), env1),
        }
    }
}

/// Evaluation of a function body: entries in order; the first entry that
/// evaluates to a `Return` node ends the call with the wrapped value; with no
/// `return`, the call yields `NoOp`.
pub open spec fn spec_eval_fn_body(fuel: nat, body: Seq<NodeV>, env: EnvV) -> (
    Result<NodeV, ErrorV>,
    EnvV,
)
    decreases fuel, 0int, body.len(),
{
    if fuel == 0 {
        (Err(ErrorV::RecursionLimit), env)
    } else if body.len() == 0 {
        (Ok(NodeV::Stmt(StmtV::NoOp)), env)
    } else {
        let f = (fuel - 1) as nat;
        let (r, env1) = spec_eval(f, body[0], env);
        match r {
            Ok(NodeV::Expr(ExprV::Return(inner))) => (Ok(*inner), env1),
            Ok(_) => spec_eval_fn_body(fuel, body.skip(1), env1),
            Err(e) => (Err(e), env1),
        }
    }
}

/// Evaluation of call arguments, left to right, in the caller's environment:
/// every argument is evaluated before any parameter is bound. Each must
/// yield an expression value.
pub open spec fn spec_eval_args(fuel: nat, args: Seq<NodeV>, env: EnvV) -> (Result<
    Seq<NodeV>,
    ErrorV,
>, EnvV)
    decreases fuel, 0int, args.len(),
{
    if fuel == 0 {
        (Err(ErrorV::RecursionLimit), env)
    } else if args.len() == 0 {
        (Ok(seq![]), env)
    } else {
        let f = (fuel - 1) as nat;
        let (r, env1) = spec_eval(f, args[0], env);
        match r {
            Ok(NodeV::Expr(ev)) => {
                let (rr, env2) = spec_eval_args(fuel, args.skip(1), env1);
                match rr {
                    Ok(vs) => (Ok(seq![NodeV::Expr(ev)] + vs), env2),
                    Err(e) => (Err(e), env2),
                }
            },
            Ok(_) => (Err(ErrorV::ArgumentNonExpression), env1),
            Err(e) => (Err(e), env1),
        }
    }
}

/// A successful argument evaluation yields one value per argument.
proof fn lemma_eval_args_len(fuel: nat, args: Seq<NodeV>, env: EnvV)
    ensures
        spec_eval_args(fuel, args, env).0 matches Ok(vs) ==> vs.len() == args.len(),
    decreases args.len(),
{
    if fuel > 0 && args.len() > 0 {
        let f = (fuel - 1) as nat;
        let (r, env1) = spec_eval(f, args[0], env);
        match r {
            Ok(NodeV::Expr(_)) => {
                lemma_eval_args_len(fuel, args.skip(1), env1);
            },
            _ => {},
        }
    }
}

/// Binding of parameter names to the evaluated argument values, in order,
/// into the single shared environment: there is no call frame, so a binding
/// clobbers any prior binding of the name.
pub open spec fn spec_bind_params(params: Seq<Seq<char>>, vals: Seq<NodeV>, env: EnvV) -> EnvV
    decreases vals.len(),
{
    if vals.len() == 0 {
        env
    } else {
        spec_bind_params(params.skip(1), vals.skip(1), env_update(env, params[0], vals[0]))
    }
}

/// Evaluation of a call: the name must be bound to a function definition, the
/// argument count must match the parameter count exactly, and there is no
/// call frame: arguments are bound into the single shared environment.
pub open spec fn spec_eval_call(fuel: nat, name: Seq<char>, args: Seq<NodeV>, env: EnvV) -> (
    Result<NodeV, ErrorV>,
    EnvV,
)
    decreases fuel, 1int, 0int,
{
    if fuel == 0 {
        (Err(ErrorV::RecursionLimit), env)
    } else {
        match env_lookup(env, name) {
            None => (Err(ErrorV::NameError(name)), env),
            Some(f) => match f {
                NodeV::Stmt(StmtV::Function(_, params, body)) => if args.len() != params.len() {
                    (Err(ErrorV::ArityMismatch(name, params.len() as int, args.len() as int)), env)
                } else {
                    let (er, env1) = spec_eval_args(fuel, args, env);
                    match er {
                        Err(e) => (Err(e), env1),
                        Ok(vals) => spec_eval_fn_body(
                            (fuel - 1) as nat,
                            body,
                            spec_bind_params(params, vals, env1),
                        ),
                    }
                },
                _ => (Err(ErrorV::NotCallable(name)), env),
            },
        }
    }
}

// ---------------------------------------------------------------------------
// The evaluator: computes exactly `spec_eval`.
// ---------------------------------------------------------------------------
/// Evaluates one node against the shared environment, with at most `fuel`
/// levels of nested evaluation.
pub fn evaluate(expr: &PyType, env: &mut Environment, fuel: u64) -> (r: Result<PyType, Error>)
    ensures
        ({
            let (sr, senv) = spec_eval(fuel as nat, expr@, env_view(old(env)@));
            res_view(r) == sr && env_view(final (env)@) == senv
        }),
    decreases fuel, 2int, 0int,
{
    if fuel == 0 {
        return Err(Error::RecursionLimit);
    }
    match expr {
        PyType::Expr(Expr::Int(n)) => Ok(PyType::Expr(Expr::Int(*n))),
        PyType::Expr(Expr::Float(d)) => Ok(PyType::Expr(Expr::Float(*d))),
        PyType::Expr(Expr::Bool(b)) => Ok(PyType::Expr(Expr::Bool(*b))),
        PyType::Expr(Expr::Str(s)) => Ok(PyType::Expr(Expr::Str(s.clone()))),
        PyType::Expr(Expr::Var(v)) => match env_get(env, v) {
            Some(e) => evaluate(&e, env, fuel - 1),
            None => Err(Error::NameError(v.clone())),
        },
        PyType::Expr(Expr::Not(e)) => match evaluate(&**e, env, fuel - 1) {
            Ok(val) => match val.to_bool() {
                Ok(b) => Ok(PyType::Expr(Expr::Bool(!b))),
                Err(er) => Err(er),
            },
            Err(er) => Err(er),
        },
        PyType::Expr(Expr::Binop(op, l, r)) => {
            let rl = evaluate(&**l, env, fuel - 1);
            let rr = evaluate(&**r, env, fuel - 1);
            match (rl, rr) {
                (Ok(lv), Ok(rv)) => eval_binop(op, &lv, &rv),
                (Err(e), _) => Err(e),
                (_, Err(e)) => Err(e),
            }
        },
        PyType::Expr(Expr::Return(e)) => match evaluate(&**e, env, fuel - 1) {
            Ok(PyType::Expr(ev)) => Ok(
                PyType::Expr(Expr::Return(Box::new(PyType::Expr(ev)))),
            ),
            Ok(_) => Err(Error::ReturnedNonExpression),
            Err(er) => Err(er),
        },
        PyType::Expr(Expr::FunctionCall(func_name, arguments)) => eval_function_call(
            func_name,
            arguments,
            env,
            fuel,
        ),
        PyType::Stmt(Stmt::VarAssign(v, e)) => match evaluate(&**e, env, fuel - 1) {
            Ok(PyType::Expr(ev)) => {
                let val = PyType::Expr(ev);
                env_insert(env, v, &val);
                Ok(val)
            },
            Ok(_) => Err(Error::AssignedNonExpression),
            Err(er) => Err(er),
        },
        PyType::Stmt(Stmt::If(condition, body, else_body)) => eval_if(
            condition,
            body,
            else_body,
            env,
            fuel,
        ),
        PyType::Stmt(Stmt::Function(func_name, _, _)) => {
            env_insert(env, func_name, expr);
            Ok(expr.clone())
        },
        PyType::Stmt(Stmt::NoOp) => Err(Error::NotEvaluable),
    }
}

/// Evaluates an `if` statement.
fn eval_if(
    condition: &Box<PyType>,
    body: &Vec<PyType>,
    else_body: &Option<Vec<PyType>>,
    env: &mut Environment,
    fuel: u64,
) -> (r: Result<PyType, Error>)
    ensures
        ({
            let (sr, senv) = spec_eval_if(
                fuel as nat,
                (**condition)@,
                view_nodes(body@),
                opt_nodes_view(else_body),
                env_view(old(env)@),
            );
            res_view(r) == sr && env_view(final (env)@) == senv
        }),
    decreases fuel, 1int, 0int,
{
    if fuel == 0 {
        return Err(Error::RecursionLimit);
    }
    match evaluate(&**condition, env, fuel - 1) {
        Ok(PyType::Expr(Expr::Bool(b))) => {
            if b {
                proof {
                    assert(view_nodes(body@).skip(0) =~= view_nodes(body@));
                }
                eval_block(body, 0, env, fuel - 1)
            } else {
                match else_body {
                    Some(else_body_list) => {
                        proof {
                            assert(view_nodes(else_body_list@).skip(0) =~= view_nodes(
                                else_body_list@,
                            ));
                        }
                        eval_block(else_body_list, 0, env, fuel - 1)
                    },
                    None => Ok(PyType::Stmt(Stmt::NoOp)),
                }
            }
        },
        Ok(_) => Err(Error::ConditionNotBool),
        Err(e) => Err(e),
    }
}

/// Evaluates the entries of a block body from position `i` on.
fn eval_block(body: &Vec<PyType>, i: usize, env: &mut Environment, fuel: u64) -> (r: Result<
    PyType,
    Error,
>)
    requires
        i <= body@.len(),
    ensures
        ({
            let (sr, senv) = spec_eval_block(
                fuel as nat,
                view_nodes(body@).skip(i as int),
                env_view(old(env)@),
            );
            res_view(r) == sr && env_view(final (env)@) == senv
        }),
    decreases fuel, 0int, body@.len() - i,
{
    if fuel == 0 {
        return Err(Error::RecursionLimit);
    }
    if i == body.len() {
        return Ok(PyType::Stmt(Stmt::NoOp));
    }
    proof {
        assert(view_nodes(body@)[i as int] == body@[i as int]@);
        assert(view_nodes(body@).skip(i as int)[0] == view_nodes(body@)[i as int]);
        assert(view_nodes(body@).skip(i as int).skip(1) =~= view_nodes(body@).skip(i as int + 1));
    }
    let line = evaluate(&body[i], env, fuel - 1);
    match line {
        Ok(v) => {
            proof {
                lemma_return_shape(&v);
            }
            if i == body.len() - 1 {
                Ok(v)
            } else if matches!(v, PyType::Expr(Expr::Return(_))) {
                Ok(v)
            } else {
                eval_block(body, i + 1, env, fuel)
            }
        },
        Err(e) => Err(e),
    }
}

/// Evaluates the entries of a function body from position `i` on.
fn eval_fn_body(body: &Vec<PyType>, i: usize, env: &mut Environment, fuel: u64) -> (r: Result<
    PyType,
    Error,
>)
    requires
        i <= body@.len(),
    ensures
        ({
            let (sr, senv) = spec_eval_fn_body(
                fuel as nat,
                view_nodes(body@).skip(i as int),
                env_view(old(env)@),
            );
            res_view(r) == sr && env_view(final (env)@) == senv
        }),
    decreases fuel, 0int, body@.len() - i,
{
    if fuel == 0 {
        return Err(Error::RecursionLimit);
    }
    if i == body.len() {
        return Ok(PyType::Stmt(Stmt::NoOp));
    }
    proof {
        assert(view_nodes(body@)[i as int] == body@[i as int]@);
        assert(view_nodes(body@).skip(i as int)[0] == view_nodes(body@)[i as int]);
        assert(view_nodes(body@).skip(i as int).skip(1) =~= view_nodes(body@).skip(i as int + 1));
    }
    let line = evaluate(&body[i], env, fuel - 1);
    match line {
        Ok(PyType::Expr(Expr::Return(inner))) => Ok(*inner),
        Ok(v) => {
            proof {
                lemma_return_shape(&v);
            }
            eval_fn_body(body, i + 1, env, fuel)
        },
        Err(e) => Err(e),
    }
}

/// Evaluates the call arguments from position `i` on, left to right, in the
/// caller's environment, collecting their values; no parameter is bound yet.
fn eval_args(arguments: &Vec<PyType>, i: usize, env: &mut Environment, fuel: u64) -> (r: Result<
    Vec<PyType>,
    Error,
>)
    requires
        i <= arguments@.len(),
    ensures
        ({
            let (se, senv) = spec_eval_args(
                fuel as nat,
                view_nodes(arguments@).skip(i as int),
                env_view(old(env)@),
            );
            (match r {
                Ok(vals) => se == Ok::<Seq<NodeV>, ErrorV>(view_nodes(vals@)),
                Err(e) => se == Err::<Seq<NodeV>, ErrorV>(e@),
            }) && env_view(final (env)@) == senv
        }),
    decreases fuel, 0int, arguments@.len() - i,
{
    if fuel == 0 {
        return Err(Error::RecursionLimit);
    }
    if i == arguments.len() {
        let empty: Vec<PyType> = Vec::new();
        proof {
            assert(view_nodes(empty@) =~= Seq::<NodeV>::empty());
        }
        return Ok(empty);
    }
    proof {
        assert(view_nodes(arguments@)[i as int] == arguments@[i as int]@);
        assert(view_nodes(arguments@).skip(i as int)[0] == view_nodes(arguments@)[i as int]);
        assert(view_nodes(arguments@).skip(i as int).skip(1) =~= view_nodes(arguments@).skip(
            i as int + 1,
        ));
    }
    match evaluate(&arguments[i], env, fuel - 1) {
        Ok(PyType::Expr(eval_arg)) => {
            let val = PyType::Expr(eval_arg);
            match eval_args(arguments, i + 1, env, fuel) {
                Ok(rest) => Ok(prepend_value(val, rest)),
                Err(e) => Err(e),
            }
        },
        Ok(_) => Err(Error::ArgumentNonExpression),
        Err(e) => Err(e),
    }
}

/// Puts an evaluated value in front of a list of evaluated values.
fn prepend_value(val: PyType, rest: Vec<PyType>) -> (r: Vec<PyType>)
    ensures
        view_nodes(r@) == seq![val@] + view_nodes(rest@),
{
    let mut out: Vec<PyType> = Vec::new();
    let ghost vv = val@;
    out.push(val);
    let mut t: usize = 0;
    while t < rest.len()
        invariant
            t <= rest@.len(),
            out@.len() == t + 1,
            out@[0]@ == vv,
            forall|k: int| 0 <= k < t ==> out@[k + 1]@ == rest@[k]@,
        decreases rest@.len() - t,
    {
        let c = rest[t].clone();
        out.push(c);
        t = t + 1;
    }
    proof {
        assert forall|k: int| 0 <= k < out@.len() implies view_nodes(out@)[k] == (seq![vv]
            + view_nodes(rest@))[k] by {}
        assert(view_nodes(out@) =~= seq![vv] + view_nodes(rest@));
    }
    out
}

/// Binds the parameter names to the evaluated argument values, in order,
/// into the single shared environment.
fn bind_params(parameters: &Vec<String>, values: &Vec<PyType>, i: usize, env: &mut Environment)
    requires
        parameters@.len() == values@.len(),
        i <= values@.len(),
    ensures
        env_view(final (env)@) == spec_bind_params(
            parameters.deep_view().skip(i as int),
            view_nodes(values@).skip(i as int),
            env_view(old(env)@),
        ),
    decreases values@.len() - i,
{
    if i == values.len() {
        return ;
    }
    proof {
        assert(view_nodes(values@)[i as int] == values@[i as int]@);
        assert(view_nodes(values@).skip(i as int)[0] == view_nodes(values@)[i as int]);
        assert(view_nodes(values@).skip(i as int).skip(1) =~= view_nodes(values@).skip(
            i as int + 1,
        ));
        assert(parameters.deep_view().skip(i as int)[0] == parameters@[i as int]@);
        assert(parameters.deep_view().skip(i as int).skip(1) =~= parameters.deep_view().skip(
            i as int + 1,
        ));
    }
    env_insert(env, &parameters[i], &values[i]);
    bind_params(parameters, values, i + 1, env)
}

/// Evaluates a function call against the single shared environment.
fn eval_function_call(
    func_name: &String,
    arguments: &Vec<PyType>,
    env: &mut Environment,
    fuel: u64,
) -> (r: Result<PyType, Error>)
    ensures
        ({
            let (sr, senv) = spec_eval_call(
                fuel as nat,
                func_name@,
                view_nodes(arguments@),
                env_view(old(env)@),
            );
            res_view(r) == sr && env_view(final (env)@) == senv
        }),
    decreases fuel, 1int, 0int,
{
    if fuel == 0 {
        return Err(Error::RecursionLimit);
    }
    match env_get(env, func_name) {
        Some(PyType::Stmt(Stmt::Function(_, parameters, body))) => {
            if arguments.len() != parameters.len() {
                return Err(
                    Error::ArityMismatch(func_name.clone(), parameters.len(), arguments.len()),
                );
            }
            proof {
                assert(parameters.deep_view().skip(0) =~= parameters.deep_view());
                assert(view_nodes(arguments@).skip(0) =~= view_nodes(arguments@));
                assert(view_nodes(body@).skip(0) =~= view_nodes(body@));
            }
            match eval_args(arguments, 0, env, fuel) {
                Err(e) => Err(e),
                Ok(values) => {
                    proof {
                        lemma_eval_args_len(
                            fuel as nat,
                            view_nodes(arguments@),
                            env_view(old(env)@),
                        );
                        assert(view_nodes(values@).skip(0) =~= view_nodes(values@));
                        assert(parameters.deep_view().skip(0) =~= parameters.deep_view());
                    }
                    bind_params(&parameters, &values, 0, env);
                    eval_fn_body(&body, 0, env, fuel - 1)
                },
            }
        },
        Some(_) => Err(Error::NotCallable(func_name.clone())),
        None => Err(Error::NameError(func_name.clone())),
    }
}

} // verus!
