//! Laws of the language, stated over the specification functions that the
//! executable functions are proved to compute: exact integer division,
//! string repetition, truthiness of `not`, the `and`/`or` asymmetry, and
//! overwrite semantics of the environment.
use crate::interpreter::{env_lookup, env_update, spec_binop, spec_eval, spec_repeat};
use crate::rational::in_i64;
use crate::types::{spec_to_bool, EnvV, ErrorV, ExprV, NodeV, Op};
use vstd::prelude::*;

verus! {

broadcast use {vstd::std_specs::vec::group_vec_axioms, vstd::seq::group_seq_axioms};

/// Division of two integers yields a `Float` equal to the real quotient
/// (stated by cross multiplication: the result `q` satisfies
/// `q.num * b == a * q.den` with a positive denominator), and a zero divisor
/// yields exactly the zero-division error. The one machine limit: the
/// smallest machine integer is left out, since its negation (needed to keep
/// the denominator positive when a sign moves) has no machine representation.
pub proof fn lemma_int_division_exact(a: int, b: int)
    requires
        in_i64(a),
        in_i64(b),
        a != i64::MIN,
        b != i64::MIN,
    ensures
        b != 0 ==> (spec_binop(Op::Div, NodeV::Expr(ExprV::Int(a)), NodeV::Expr(ExprV::Int(b)))
            matches Ok(v) && v matches NodeV::Expr(ExprV::Float(q)) && q.den > 0 && q.num * b == a
            * q.den),
        b == 0 ==> spec_binop(Op::Div, NodeV::Expr(ExprV::Int(a)), NodeV::Expr(ExprV::Int(b)))
            == Err::<NodeV, ErrorV>(ErrorV::ZeroDivision),
{
    if b != 0 {
        if b >= 0 {
            assert(a * 1 == a && 1 * b == b && a * b == a * b) by (nonlinear_arith);
        } else {
            assert(a * 1 == a && 1 * b == b) by (nonlinear_arith);
            assert((-(a * 1)) * b == a * (-(1 * b))) by (nonlinear_arith);
        }
    }
}

proof fn lemma_repeat_shape(s: Seq<char>, n: int)
    requires
        0 <= n,
    ensures
        spec_repeat(s, n).len() == n * s.len(),
        forall|q: int|
            0 <= q < n ==> #[trigger] spec_repeat(s, n).subrange(
                q * s.len() as int,
                (q + 1) * s.len() as int,
            ) == s,
    decreases n,
{
    let len = s.len() as int;
    if n == 0 {
        assert(spec_repeat(s, 0).len() == 0);
        assert(0 * len == 0) by (nonlinear_arith);
    } else {
        lemma_repeat_shape(s, n - 1);
        assert((n - 1) * len + len == n * len) by (nonlinear_arith);
        let whole = spec_repeat(s, n);
        let front = spec_repeat(s, n - 1);
        assert(whole == front + s);
        assert forall|q: int| 0 <= q < n implies #[trigger] whole.subrange(
            q * len,
            (q + 1) * len,
        ) == s by {
            assert(0 <= q * len && q * len + len <= n * len) by (nonlinear_arith)
                requires
                    0 <= q < n,
                    len >= 0,
            ;
            assert((q + 1) * len == q * len + len) by (nonlinear_arith);
            if q < n - 1 {
                assert(q * len + len <= (n - 1) * len) by (nonlinear_arith)
                    requires
                        0 <= q < n - 1,
                        len >= 0,
                ;
                assert(whole.subrange(q * len, (q + 1) * len) =~= front.subrange(
                    q * len,
                    (q + 1) * len,
                ));
            } else {
                assert(whole.subrange(q * len, (q + 1) * len) =~= s);
            }
        }
    }
}

/// Multiplying a string by a non-negative integer `n` yields that string
/// repeated `n` times: the result has `n` times its length and every block is
/// the string; `n == 0` yields the empty string.
pub proof fn lemma_string_repetition(s: Seq<char>, n: int)
    requires
        0 <= n <= i64::MAX,
    ensures
        spec_binop(Op::Mult, NodeV::Expr(ExprV::Str(s)), NodeV::Expr(ExprV::Int(n))) == Ok::<
            NodeV,
            ErrorV,
        >(NodeV::Expr(ExprV::Str(spec_repeat(s, n)))),
        spec_repeat(s, n).len() == n * s.len(),
        forall|q: int|
            0 <= q < n ==> #[trigger] spec_repeat(s, n).subrange(
                q * s.len() as int,
                (q + 1) * s.len() as int,
            ) == s,
        n == 0 ==> spec_repeat(s, n) == Seq::<char>::empty(),
{
    lemma_repeat_shape(s, n);
    if n == 0 {
        assert(spec_repeat(s, 0) =~= Seq::<char>::empty());
    }
}

/// Truthiness of `not`: on an integer it yields the boolean of the integer
/// being zero; on a string it is a type error. Stated over full evaluation.
pub proof fn lemma_not_truthiness(n: int, s: Seq<char>, env: EnvV, fuel: nat)
    requires
        fuel >= 2,
        in_i64(n),
    ensures
        spec_eval(fuel, NodeV::Expr(ExprV::Not(Box::new(NodeV::Expr(ExprV::Int(n))))), env) == (
        Ok::<NodeV, ErrorV>(NodeV::Expr(ExprV::Bool(n == 0))), env),
        spec_eval(fuel, NodeV::Expr(ExprV::Not(Box::new(NodeV::Expr(ExprV::Str(s))))), env) == (
        Err::<NodeV, ErrorV>(ErrorV::NotBoolable), env),
{
    reveal_with_fuel(spec_eval, 3);
}

/// The `and`/`or` asymmetry: `or` yields one of the original operand values
/// (the left one when it is truthy, else the right one), while a falsy `and`
/// yields the boolean `false` itself and a truthy `and` yields the right
/// operand value.
pub proof fn lemma_and_or_asymmetry(l: NodeV, r: NodeV)
    requires
        l matches NodeV::Expr(_),
        r matches NodeV::Expr(_),
        spec_to_bool(l) is Ok,
    ensures
        spec_to_bool(l) == Ok::<bool, ErrorV>(true) ==> spec_binop(Op::Or, l, r) == Ok::<
            NodeV,
            ErrorV,
        >(l) && spec_binop(Op::And, l, r) == Ok::<NodeV, ErrorV>(r),
        spec_to_bool(l) == Ok::<bool, ErrorV>(false) ==> spec_binop(Op::Or, l, r) == Ok::<
            NodeV,
            ErrorV,
        >(r) && spec_binop(Op::And, l, r) == Ok::<NodeV, ErrorV>(
            NodeV::Expr(ExprV::Bool(false)),
        ),
{
}

/// Assignment overwrites: after binding a name, looking it up yields the
/// bound value; rebinding the same name overwrites in place, leaving the
/// environment's length unchanged and the second value bound.
pub proof fn lemma_env_overwrite(env: EnvV, name: Seq<char>, v1: NodeV, v2: NodeV)
    ensures
        env_lookup(env_update(env, name, v1), name) == Some(v1),
        env_update(env_update(env, name, v1), name, v2) == env_update(env, name, v2),
        env_update(env_update(env, name, v1), name, v2).len() == env_update(env, name, v1).len(),
    decreases env.len(),
{
    if env.len() == 0 {
        assert(env_update(env_update(env, name, v1), name, v2) =~= env_update(env, name, v2));
    } else if env[0].0 == name {
        assert(env_update(env_update(env, name, v1), name, v2) =~= env_update(env, name, v2));
    } else {
        lemma_env_overwrite(env.skip(1), name, v1, v2);
        assert(env_update(env, name, v1).skip(1) =~= env_update(env.skip(1), name, v1));
        assert(env_update(env_update(env, name, v1), name, v2) =~= env_update(env, name, v2));
    }
}

} // verus!
