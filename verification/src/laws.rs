//! General laws of the evaluator, proved against the semantics in
//! `sem`: shadowing, definition visibility, branch laziness of `if`,
//! quasiquote on plain templates, and idempotence of full macro
//! expansion.

use vstd::prelude::*;

use crate::env::{env_lookup, lemma_upd_last_id, lemma_upd_last_push_drop, lemma_upd_last_twice,
    upd_last};
use crate::expr::{Builtin, ErrV, ExprV};
use crate::sem::{
    eval_s, eval_script_s, expand_all_s, expand_list_s, expand_once_s, qq_elem_s, qq_list_s,
    EnvChainV,
};

verus! {

broadcast use lemma_upd_last_id, lemma_upd_last_twice, lemma_upd_last_push_drop;

/// A template is plain when no list anywhere in it has the
/// `(unquote SYM ...)` or `(splice-unquote SYM ...)` shape.
pub open spec fn qq_plain(e: ExprV) -> bool
    decreases e,
{
    match e {
        ExprV::List(l) => {
            &&& !(l.len() >= 2 && l[0] is Symbol && l[1] is Symbol && (l[0]->Symbol_0
                == "unquote"@ || l[0]->Symbol_0 == "splice-unquote"@))
            &&& forall|i: int| 0 <= i < l.len() ==> qq_plain(#[trigger] l[i])
        },
        _ => true,
    }
}

proof fn lemma_qq_elem_plain(e: ExprV, env: EnvChainV)
    requires
        qq_plain(e),
    ensures
        qq_elem_s(e, env) == Ok::<Seq<ExprV>, ErrV>(seq![e]),
    decreases e,
{
    match e {
        ExprV::List(l) => {
            lemma_qq_list_plain(l, env);
        },
        _ => {},
    }
}

/// Quasiquote leaves a plain template unchanged, element for element
/// and in order.
pub proof fn lemma_qq_list_plain(es: Seq<ExprV>, env: EnvChainV)
    requires
        forall|i: int| 0 <= i < es.len() ==> qq_plain(#[trigger] es[i]),
    ensures
        qq_list_s(es, env) == Ok::<Seq<ExprV>, ErrV>(es),
    decreases es,
{
    if es.len() == 0 {
        assert(es =~= Seq::<ExprV>::empty());
    } else {
        lemma_qq_elem_plain(es[0], env);
        assert(forall|j: int|
            0 <= j < es.skip(1).len() ==> qq_plain(#[trigger] es.skip(1)[j]) && es.skip(1)[j]
                == es[j + 1]);
        lemma_qq_list_plain(es.skip(1), env);
        assert(seq![es[0]].add(es.skip(1)) =~= es);
    }
}

/// No list anywhere in `e` has a symbol head that the environment
/// binds to a macro.
pub open spec fn no_macro_heads(e: ExprV, env: EnvChainV) -> bool
    decreases e,
{
    match e {
        ExprV::List(l) => {
            &&& (l.len() > 0 && l[0] is Symbol ==> !(env_lookup(env, l[0]->Symbol_0)
                matches Some(ExprV::Macro { .. })))
            &&& forall|i: int| 0 <= i < l.len() ==> no_macro_heads(#[trigger] l[i], env)
        },
        _ => true,
    }
}

proof fn lemma_expand_list_fixed(f: nat, es: Seq<ExprV>, env: EnvChainV)
    requires
        f >= 1,
        forall|i: int| 0 <= i < es.len() ==> no_macro_heads(#[trigger] es[i], env),
    ensures
        expand_list_s(f, es, env) == Ok::<Seq<ExprV>, ErrV>(es),
    decreases es,
{
    if es.len() == 0 {
        assert(es =~= Seq::<ExprV>::empty());
    } else {
        lemma_expand_all_fixed(f, es[0], env);
        assert(forall|j: int|
            0 <= j < es.skip(1).len() ==> no_macro_heads(#[trigger] es.skip(1)[j], env)
                && es.skip(1)[j] == es[j + 1]);
        lemma_expand_list_fixed(f, es.skip(1), env);
        assert(seq![es[0]].add(es.skip(1)) =~= es);
    }
}

/// Full expansion does not change an expression in which no macro
/// head remains, whatever fuel it is given.
pub proof fn lemma_expand_all_fixed(f: nat, e: ExprV, env: EnvChainV)
    requires
        f >= 1,
        no_macro_heads(e, env),
    ensures
        expand_all_s(f, e, env) == Ok::<ExprV, ErrV>(e),
    decreases e,
{
    match e {
        ExprV::List(l) => {
            assert(expand_once_s(f, e, env) == Ok::<Option<ExprV>, ErrV>(None));
            lemma_expand_list_fixed(f, l, env);
        },
        _ => {},
    }
}

/// Full macro expansion is idempotent on its result, provided no
/// macro head remains in it: expanding a second time, with any fuel,
/// returns the result unchanged.  (A head position that is itself a
/// list can expand to a symbol a macro is bound to; such a residue is
/// only reduced by a further pass, so it is excluded here.)
pub proof fn lemma_expand_all_idempotent(f: nat, f2: nat, e: ExprV, r: ExprV, env: EnvChainV)
    requires
        f2 >= 1,
        expand_all_s(f, e, env) == Ok::<ExprV, ErrV>(r),
        no_macro_heads(r, env),
    ensures
        expand_all_s(f2, r, env) == Ok::<ExprV, ErrV>(r),
{
    lemma_expand_all_fixed(f2, r, env);
}


/// How an `if` form with a literal boolean test evaluates: with
/// enough fuel it is exactly the taken branch's evaluation, and with
/// too little fuel it is the fuel error — in neither case does the
/// untaken branch enter into the result.
proof fn lemma_if_branches(f: nat, t: ExprV, a: ExprV, b: ExprV, env: EnvChainV)
    requires
        env.len() >= 1,
        env_lookup(env, "if"@) == Some(ExprV::NativeProc(Builtin::If)),
        t is Bool,
    ensures
        ({
            let form = ExprV::List(seq![ExprV::Symbol("if"@), t, a, b]);
            eval_s(f, form, env) == if f <= 2 {
                (Err::<ExprV, ErrV>(ErrV::DepthExceeded), env.last())
            } else if t->Bool_0 {
                eval_s((f - 2) as nat, a, env)
            } else {
                eval_s((f - 2) as nat, b, env)
            }
        }),
{
    let es = seq![ExprV::Symbol("if"@), t, a, b];
    let form = ExprV::List(es);
    let args = seq![t, a, b];
    assert(es.skip(1) =~= args);
    if f == 0 {
        assert(eval_s(f, form, env) == (Err::<ExprV, ErrV>(ErrV::DepthExceeded), env.last()))
            by {
            reveal_with_fuel(eval_s, 1);
        }
    } else if f == 1 {
        assert(eval_s(f, form, env) == (Err::<ExprV, ErrV>(ErrV::DepthExceeded), env.last()))
            by {
            reveal_with_fuel(eval_s, 2);
        }
    } else {
        assert(eval_s((f - 1) as nat, es[0], env) == (
            Ok::<ExprV, ErrV>(ExprV::NativeProc(Builtin::If)),
            env.last(),
        )) by {
            reveal_with_fuel(eval_s, 1);
        }
        assert(eval_s(f, form, env) == crate::sem::apply_s((f - 1) as nat, Builtin::If, args, env))
            by {
            reveal_with_fuel(eval_s, 1);
        }
        assert(eval_s((f - 2) as nat, args[0], env) == if f == 2 {
            (Err::<ExprV, ErrV>(ErrV::DepthExceeded), env.last())
        } else {
            (Ok::<ExprV, ErrV>(t), env.last())
        }) by {
            reveal_with_fuel(eval_s, 1);
        }
        assert(crate::sem::apply_s((f - 1) as nat, Builtin::If, args, env) == if f == 2 {
            (Err::<ExprV, ErrV>(ErrV::DepthExceeded), env.last())
        } else if t->Bool_0 {
            eval_s((f - 2) as nat, a, env)
        } else {
            eval_s((f - 2) as nat, b, env)
        }) by {
            reveal_with_fuel(crate::sem::apply_s, 1);
        }
    }
}

/// `if` never evaluates the untaken branch: when the test is the
/// literal `true`, the result does not depend on the alternative at
/// all — for any fuel, including fuel that runs out mid-way.
#[verifier::rlimit(100)]
pub proof fn lemma_if_ignores_alternative(
    f: nat,
    a: ExprV,
    b1: ExprV,
    b2: ExprV,
    env: EnvChainV,
)
    requires
        env.len() >= 1,
        env_lookup(env, "if"@) == Some(ExprV::NativeProc(Builtin::If)),
    ensures
        eval_s(
            f,
            ExprV::List(seq![ExprV::Symbol("if"@), ExprV::Bool(true), a, b1]),
            env,
        ) == eval_s(
            f,
            ExprV::List(seq![ExprV::Symbol("if"@), ExprV::Bool(true), a, b2]),
            env,
        ),
{
    lemma_if_branches(f, ExprV::Bool(true), a, b1, env);
    lemma_if_branches(f, ExprV::Bool(true), a, b2, env);
}

/// The mirror image: when the test is the literal `false`, the result
/// does not depend on the consequent.
#[verifier::rlimit(100)]
pub proof fn lemma_if_ignores_consequent(
    f: nat,
    a1: ExprV,
    a2: ExprV,
    b: ExprV,
    env: EnvChainV,
)
    requires
        env.len() >= 1,
        env_lookup(env, "if"@) == Some(ExprV::NativeProc(Builtin::If)),
    ensures
        eval_s(
            f,
            ExprV::List(seq![ExprV::Symbol("if"@), ExprV::Bool(false), a1, b]),
            env,
        ) == eval_s(
            f,
            ExprV::List(seq![ExprV::Symbol("if"@), ExprV::Bool(false), a2, b]),
            env,
        ),
{
    lemma_if_branches(f, ExprV::Bool(false), a1, b, env);
    lemma_if_branches(f, ExprV::Bool(false), a2, b, env);
}

/// Nested `let` scopes shadow: `(let (S 1) (let (S 2) S))` is the
/// inner value `2`, for any symbol `S` other than `let` itself, and
/// the caller's innermost scope is left unchanged.
#[verifier::rlimit(100)]
pub proof fn lemma_let_shadowing(f: nat, s: Seq<char>, env: EnvChainV)
    requires
        f >= 12,
        env.len() >= 1,
        env_lookup(env, "let"@) == Some(ExprV::NativeProc(Builtin::Let)),
        s != "let"@,
    ensures
        ({
            let inner = ExprV::List(
                seq![
                    ExprV::Symbol("let"@),
                    ExprV::List(seq![ExprV::Symbol(s), ExprV::Number(2)]),
                    ExprV::Symbol(s),
                ],
            );
            let form = ExprV::List(
                seq![
                    ExprV::Symbol("let"@),
                    ExprV::List(seq![ExprV::Symbol(s), ExprV::Number(1)]),
                    inner,
                ],
            );
            eval_s(f, form, env) == (Ok::<ExprV, ErrV>(ExprV::Number(2)), env.last())
        }),
{
    let bs1 = seq![ExprV::Symbol(s), ExprV::Number(1)];
    let bs2 = seq![ExprV::Symbol(s), ExprV::Number(2)];
    let es_in = seq![ExprV::Symbol("let"@), ExprV::List(bs2), ExprV::Symbol(s)];
    let inner = ExprV::List(es_in);
    let es_out = seq![ExprV::Symbol("let"@), ExprV::List(bs1), inner];
    let form = ExprV::List(es_out);
    let args_out = seq![ExprV::List(bs1), inner];
    let args_in = seq![ExprV::List(bs2), ExprV::Symbol(s)];
    assert(es_out.skip(1) =~= args_out);
    assert(es_in.skip(1) =~= args_in);
    assert(bs1.skip(2) =~= Seq::<ExprV>::empty());
    assert(bs2.skip(2) =~= Seq::<ExprV>::empty());

    let f1 = (f - 1) as nat;
    let f2 = (f - 2) as nat;
    let f3 = (f - 3) as nat;
    let f4 = (f - 4) as nat;
    let f5 = (f - 5) as nat;

    // Head of the outer form.
    assert(eval_s(f1, es_out[0], env) == (
        Ok::<ExprV, ErrV>(ExprV::NativeProc(Builtin::Let)),
        env.last(),
    )) by {
        reveal_with_fuel(eval_s, 1);
    }
    assert(eval_s(f, form, env) == crate::sem::apply_s(f1, Builtin::Let, args_out, env)) by {
        reveal_with_fuel(eval_s, 1);
    }

    // Outer bindings: one pair, binding s to 1 in the child scope.
    let env1 = env.push(Map::<Seq<char>, ExprV>::empty());
    let m1 = Map::<Seq<char>, ExprV>::empty().insert(s, ExprV::Number(1));
    assert(eval_s(f3, bs1[1], env1) == (Ok::<ExprV, ErrV>(ExprV::Number(1)), env1.last())) by {
        reveal_with_fuel(eval_s, 1);
    }
    assert(crate::sem::let_binds_s(f2, bs1, env1) == (
        Ok::<(), ErrV>(()),
        upd_last(env1, m1).last(),
    )) by {
        reveal_with_fuel(crate::sem::let_binds_s, 2);
    }
    assert(upd_last(env1, m1).last() == m1);
    let env2 = upd_last(env1, m1);
    assert(crate::sem::apply_s(f1, Builtin::Let, args_out, env) == (
        eval_s(f2, inner, env2).0,
        env.last(),
    )) by {
        reveal_with_fuel(crate::sem::apply_s, 1);
    }

    // Head of the inner form, looked up through the child scope.
    assert(env2.drop_last() =~= env);
    assert(env_lookup(env2, "let"@) == Some(ExprV::NativeProc(Builtin::Let))) by {
        reveal_with_fuel(env_lookup, 2);
    }
    assert(eval_s(f3, es_in[0], env2) == (
        Ok::<ExprV, ErrV>(ExprV::NativeProc(Builtin::Let)),
        m1,
    )) by {
        reveal_with_fuel(eval_s, 1);
    }
    assert(eval_s(f2, inner, env2) == crate::sem::apply_s(f3, Builtin::Let, args_in, env2)) by {
        reveal_with_fuel(eval_s, 1);
    }

    // Inner bindings: one pair, binding s to 2 in the grandchild scope.
    let env3 = env2.push(Map::<Seq<char>, ExprV>::empty());
    let m2 = Map::<Seq<char>, ExprV>::empty().insert(s, ExprV::Number(2));
    assert(eval_s(f5, bs2[1], env3) == (Ok::<ExprV, ErrV>(ExprV::Number(2)), env3.last())) by {
        reveal_with_fuel(eval_s, 1);
    }
    assert(crate::sem::let_binds_s(f4, bs2, env3) == (
        Ok::<(), ErrV>(()),
        upd_last(env3, m2).last(),
    )) by {
        reveal_with_fuel(crate::sem::let_binds_s, 2);
    }
    let env4 = upd_last(env3, m2);
    assert(env4.last() == m2);
    assert(crate::sem::apply_s(f3, Builtin::Let, args_in, env2) == (
        eval_s(f4, ExprV::Symbol(s), env4).0,
        env2.last(),
    )) by {
        reveal_with_fuel(crate::sem::apply_s, 1);
    }

    // The body of the inner scope sees the innermost binding of s.
    assert(env_lookup(env4, s) == Some(ExprV::Number(2))) by {
        reveal_with_fuel(env_lookup, 1);
    }
    assert(eval_s(f4, ExprV::Symbol(s), env4).0 == Ok::<ExprV, ErrV>(ExprV::Number(2))) by {
        reveal_with_fuel(eval_s, 1);
    }
}

/// `def` returns the defined symbol, records the binding in the
/// innermost scope, and the binding is visible to a later sibling
/// top-level form evaluated against the same environment.
#[verifier::rlimit(100)]
pub proof fn lemma_def_visible(f: nat, s: Seq<char>, n: i64, env: EnvChainV)
    requires
        f >= 8,
        env.len() >= 1,
        env_lookup(env, "def"@) == Some(ExprV::NativeProc(Builtin::Def)),
    ensures
        ({
            let defform = ExprV::List(seq![ExprV::Symbol("def"@), ExprV::Symbol(s), ExprV::Number(n)]);
            &&& eval_s(f, defform, env) == (
                Ok::<ExprV, ErrV>(ExprV::Symbol(s)),
                env.last().insert(s, ExprV::Number(n)),
            )
            &&& eval_script_s(f, seq![defform, ExprV::Symbol(s)], env).0 == Ok::<ExprV, ErrV>(
                ExprV::Number(n),
            )
        }),
{
    let es = seq![ExprV::Symbol("def"@), ExprV::Symbol(s), ExprV::Number(n)];
    let defform = ExprV::List(es);
    let args = seq![ExprV::Symbol(s), ExprV::Number(n)];
    assert(es.skip(1) =~= args);
    let f1 = (f - 1) as nat;
    let f2 = (f - 2) as nat;

    // The def form itself contains no macro head, so expansion keeps it.
    assert(no_macro_heads(es[0], env));
    assert(no_macro_heads(es[1], env));
    assert(no_macro_heads(es[2], env));
    assert(no_macro_heads(defform, env));
    lemma_expand_all_fixed(f, defform, env);

    // Evaluating it returns the symbol and records the binding.
    assert(eval_s(f1, es[0], env) == (
        Ok::<ExprV, ErrV>(ExprV::NativeProc(Builtin::Def)),
        env.last(),
    )) by {
        reveal_with_fuel(eval_s, 1);
    }
    assert(eval_s(f, defform, env) == crate::sem::apply_s(f1, Builtin::Def, args, env)) by {
        reveal_with_fuel(eval_s, 1);
    }
    assert(eval_s(f2, args[1], env) == (Ok::<ExprV, ErrV>(ExprV::Number(n)), env.last())) by {
        reveal_with_fuel(eval_s, 1);
    }
    let m1 = env.last().insert(s, ExprV::Number(n));
    assert(crate::sem::apply_s(f1, Builtin::Def, args, env) == (
        Ok::<ExprV, ErrV>(ExprV::Symbol(s)),
        m1,
    )) by {
        reveal_with_fuel(crate::sem::apply_s, 1);
    }

    // The later sibling form sees the binding.
    let script = seq![defform, ExprV::Symbol(s)];
    assert(script.skip(1) =~= seq![ExprV::Symbol(s)]);
    let env1 = upd_last(env, m1);
    assert(env1.last() == m1);
    assert(env1.len() >= 1);
    assert(no_macro_heads(ExprV::Symbol(s), env1));
    lemma_expand_all_fixed(f, ExprV::Symbol(s), env1);
    assert(env_lookup(env1, s) == Some(ExprV::Number(n))) by {
        reveal_with_fuel(env_lookup, 1);
    }
    assert(eval_s(f, ExprV::Symbol(s), env1).0 == Ok::<ExprV, ErrV>(ExprV::Number(n))) by {
        reveal_with_fuel(eval_s, 1);
    }
    assert(eval_script_s(f, script, env).0 == Ok::<ExprV, ErrV>(ExprV::Number(n))) by {
        reveal_with_fuel(eval_script_s, 2);
    }
}

} // verus!
