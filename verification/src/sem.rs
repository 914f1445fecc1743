//! The mathematical semantics of the language: a fuel-indexed
//! interpreter over expression views and environment views.  Every
//! executable function of the evaluator is specified, case by case,
//! as equal to one of these functions.
//!
//! An evaluation step returns the result together with the new
//! contents of the *innermost* scope — the only scope a step may
//! change.  Scope-introducing forms (`let`, `do`, procedure and macro
//! application) evaluate their bodies in a pushed child scope whose
//! final contents are dropped, so by construction no step ever
//! touches an outer scope.
//!
//! Fuel bounds the number of evaluation steps.  When it runs out the
//! result is the dedicated `DepthExceeded` error; a program that the
//! stack-recursive evaluator could not finish is reported instead of
//! overrunning the host stack.

use vstd::prelude::*;

use crate::env::{env_lookup, upd_last};
use crate::expr::{Builtin, ErrV, ExprV, Type};
use vstd::wrapping::i64_specs;

verus! {

/// The contents of one scope.
pub type FrameV = Map<Seq<char>, ExprV>;

/// A chain of scopes, innermost last.
pub type EnvChainV = Seq<Map<Seq<char>, ExprV>>;

/// 64-bit wrapping sum, folded left to right; the sum of no numbers is 0.
pub open spec fn sum_wrap(ns: Seq<i64>) -> i64
    decreases ns.len(),
{
    if ns.len() == 0 {
        0i64
    } else {
        i64_specs::wrapping_add(sum_wrap(ns.drop_last()), ns.last())
    }
}

/// 64-bit wrapping product, folded left to right; the product of no numbers is 1.
pub open spec fn product_wrap(ns: Seq<i64>) -> i64
    decreases ns.len(),
{
    if ns.len() == 0 {
        1i64
    } else {
        i64_specs::wrapping_mul(product_wrap(ns.drop_last()), ns.last())
    }
}

/// The comparison a tonicity operator applies to one adjacent pair.
pub open spec fn cmp_holds(b: Builtin, x: i64, y: i64) -> bool {
    match b {
        Builtin::CmpEq => x == y,
        Builtin::CmpLt => x < y,
        Builtin::CmpGt => x > y,
        Builtin::CmpLe => x <= y,
        Builtin::CmpGe => x >= y,
        _ => false,
    }
}

/// A tonicity operator holds when every adjacent pair satisfies it.
pub open spec fn chain_ok(b: Builtin, ns: Seq<i64>) -> bool {
    forall|i: int| 0 <= i < ns.len() - 1 ==> #[trigger] cmp_holds(b, ns[i], ns[i + 1])
}

/// Parameter names read off a parameter list, left to right; the
/// first element that is not a symbol is a type mismatch.
pub open spec fn syms_of(es: Seq<ExprV>) -> Result<Seq<Seq<char>>, ErrV>
    decreases es.len(),
{
    if es.len() == 0 {
        Ok(Seq::empty())
    } else {
        match es[0] {
            ExprV::Symbol(s) => match syms_of(es.skip(1)) {
                Ok(rest) => Ok(seq![s].add(rest)),
                Err(e) => Err(e),
            },
            _ => Err(ErrV::TypeMismatch(Type::Symbol, es[0])),
        }
    }
}

/// Parameter names of a procedure or macro: its binding form must be
/// a list of symbols.
pub open spec fn params_of(b: ExprV) -> Result<Seq<Seq<char>>, ErrV> {
    match b {
        ExprV::List(es) => syms_of(es),
        _ => Err(ErrV::TypeMismatch(Type::List, b)),
    }
}

/// The scope created by pairwise binding of names to values.
pub open spec fn bind_frame(ps: Seq<Seq<char>>, vs: Seq<ExprV>) -> FrameV
    decreases ps.len(),
{
    if ps.len() == 0 {
        Map::empty()
    } else {
        bind_frame(ps.drop_last(), vs.drop_last()).insert(ps.last(), vs.last())
    }
}

/// One evaluation step (§ dispatch): atoms are themselves, symbols
/// are looked up, the empty list is malformed, and a nonempty list is
/// dispatched on its evaluated head.
pub open spec fn eval_s(f: nat, e: ExprV, env: EnvChainV) -> (Result<ExprV, ErrV>, FrameV)
    decreases f,
{
    if f == 0 {
        (Err(ErrV::DepthExceeded), env.last())
    } else {
        match e {
            ExprV::Symbol(s) => match env_lookup(env, s) {
                Some(v) => (Ok(v), env.last()),
                None => (Err(ErrV::SymbolNotFound(s)), env.last()),
            },
            ExprV::List(es) => if es.len() == 0 {
                (Err(ErrV::MalformedList(es)), env.last())
            } else {
                let hs = eval_s((f - 1) as nat, es[0], env);
                match hs.0 {
                    Err(er) => (Err(er), hs.1),
                    Ok(ExprV::NativeProc(b)) => apply_s(
                        (f - 1) as nat,
                        b,
                        es.skip(1),
                        upd_last(env, hs.1),
                    ),
                    Ok(ExprV::Lambda { body, bindings }) => {
                        let ag = eval_args_s((f - 1) as nat, es.skip(1), upd_last(env, hs.1));
                        match ag.0 {
                            Err(er) => (Err(er), ag.1),
                            Ok(vs) => match params_of(*bindings) {
                                Err(er) => (Err(er), ag.1),
                                Ok(ps) => if ps.len() != vs.len() {
                                    (Err(ErrV::Arity), ag.1)
                                } else {
                                    let env2 = upd_last(env, ag.1).push(bind_frame(ps, vs));
                                    (eval_s((f - 1) as nat, *body, env2).0, ag.1)
                                },
                            },
                        }
                    },
                    Ok(_) => (Err(ErrV::MalformedList(es)), hs.1),
                }
            },
            _ => (Ok(e), env.last()),
        }
    }
}

/// Eager left-to-right evaluation of argument forms, threading the
/// innermost scope through the sequence.
pub open spec fn eval_args_s(f: nat, es: Seq<ExprV>, env: EnvChainV) -> (
    Result<Seq<ExprV>, ErrV>,
    FrameV,
)
    decreases f,
{
    if f == 0 {
        (Err(ErrV::DepthExceeded), env.last())
    } else if es.len() == 0 {
        (Ok(Seq::empty()), env.last())
    } else {
        let r0 = eval_s((f - 1) as nat, es[0], env);
        match r0.0 {
            Err(er) => (Err(er), r0.1),
            Ok(v) => {
                let rr = eval_args_s((f - 1) as nat, es.skip(1), upd_last(env, r0.1));
                match rr.0 {
                    Err(er) => (Err(er), rr.1),
                    Ok(rest) => (Ok(seq![v].add(rest)), rr.1),
                }
            },
        }
    }
}

/// Evaluation of argument forms that must all produce numbers; the
/// first value of another type is a type mismatch naming `Number`.
pub open spec fn nums_s(f: nat, es: Seq<ExprV>, env: EnvChainV) -> (Result<Seq<i64>, ErrV>, FrameV)
    decreases f,
{
    if f == 0 {
        (Err(ErrV::DepthExceeded), env.last())
    } else if es.len() == 0 {
        (Ok(Seq::empty()), env.last())
    } else {
        let r0 = eval_s((f - 1) as nat, es[0], env);
        match r0.0 {
            Err(er) => (Err(er), r0.1),
            Ok(ExprV::Number(n)) => {
                let rr = nums_s((f - 1) as nat, es.skip(1), upd_last(env, r0.1));
                match rr.0 {
                    Err(er) => (Err(er), rr.1),
                    Ok(rest) => (Ok(seq![n].add(rest)), rr.1),
                }
            },
            Ok(v) => (Err(ErrV::TypeMismatch(Type::Number, v)), r0.1),
        }
    }
}

/// Evaluation of argument forms that must all produce booleans.
pub open spec fn bools_s(f: nat, es: Seq<ExprV>, env: EnvChainV) -> (
    Result<Seq<bool>, ErrV>,
    FrameV,
)
    decreases f,
{
    if f == 0 {
        (Err(ErrV::DepthExceeded), env.last())
    } else if es.len() == 0 {
        (Ok(Seq::empty()), env.last())
    } else {
        let r0 = eval_s((f - 1) as nat, es[0], env);
        match r0.0 {
            Err(er) => (Err(er), r0.1),
            Ok(ExprV::Bool(b)) => {
                let rr = bools_s((f - 1) as nat, es.skip(1), upd_last(env, r0.1));
                match rr.0 {
                    Err(er) => (Err(er), rr.1),
                    Ok(rest) => (Ok(seq![b].add(rest)), rr.1),
                }
            },
            Ok(v) => (Err(ErrV::TypeMismatch(Type::Bool, v)), r0.1),
        }
    }
}

/// Sequential evaluation for side effect, threading the innermost scope.
pub open spec fn forms_s(f: nat, es: Seq<ExprV>, env: EnvChainV) -> (Result<(), ErrV>, FrameV)
    decreases f,
{
    if f == 0 {
        (Err(ErrV::DepthExceeded), env.last())
    } else if es.len() == 0 {
        (Ok(()), env.last())
    } else {
        let r0 = eval_s((f - 1) as nat, es[0], env);
        match r0.0 {
            Err(er) => (Err(er), r0.1),
            Ok(_) => forms_s((f - 1) as nat, es.skip(1), upd_last(env, r0.1)),
        }
    }
}

/// `let` bindings: a flat list of symbol/value pairs, processed left
/// to right inside the child scope, so each value sees the earlier
/// bindings; a trailing lone element is an arity violation.
pub open spec fn let_binds_s(f: nat, bs: Seq<ExprV>, env: EnvChainV) -> (Result<(), ErrV>, FrameV)
    decreases f,
{
    if f == 0 {
        (Err(ErrV::DepthExceeded), env.last())
    } else if bs.len() == 0 {
        (Ok(()), env.last())
    } else if bs.len() == 1 {
        (Err(ErrV::Arity), env.last())
    } else {
        match bs[0] {
            ExprV::Symbol(s) => {
                let r0 = eval_s((f - 1) as nat, bs[1], env);
                match r0.0 {
                    Err(er) => (Err(er), r0.1),
                    Ok(v) => let_binds_s(
                        (f - 1) as nat,
                        bs.skip(2),
                        upd_last(env, r0.1.insert(s, v)),
                    ),
                }
            },
            _ => (Err(ErrV::TypeMismatch(Type::Symbol, bs[0])), env.last()),
        }
    }
}

/// Quasiquote over one template element; a splice contributes a whole
/// sequence, everything else contributes one element.
pub open spec fn qq_elem_s(e: ExprV, env: EnvChainV) -> Result<Seq<ExprV>, ErrV>
    decreases e,
{
    match e {
        ExprV::List(l) => if l.len() >= 2 && l[0] is Symbol && l[1] is Symbol && (l[0]->Symbol_0
            == "unquote"@ || l[0]->Symbol_0 == "splice-unquote"@) {
            if l.len() > 2 {
                Err(ErrV::Arity)
            } else if l[0]->Symbol_0 == "unquote"@ {
                match env_lookup(env, l[1]->Symbol_0) {
                    Some(v) => Ok(seq![v]),
                    None => Ok(seq![e]),
                }
            } else {
                if !env.last().contains_key(l[1]->Symbol_0) {
                    Err(ErrV::SymbolNotFound(l[1]->Symbol_0))
                } else {
                    match env.last()[l[1]->Symbol_0] {
                        ExprV::List(xs) => Ok(xs),
                        _ => Ok(Seq::empty()),
                    }
                }
            }
        } else {
            match qq_list_s(l, env) {
                Ok(items) => Ok(seq![ExprV::List(items)]),
                Err(er) => Err(er),
            }
        },
        _ => Ok(seq![e]),
    }
}

/// Quasiquote over a sequence of template elements, left to right.
pub open spec fn qq_list_s(es: Seq<ExprV>, env: EnvChainV) -> Result<Seq<ExprV>, ErrV>
    decreases es,
{
    if es.len() == 0 {
        Ok(Seq::empty())
    } else {
        match qq_elem_s(es[0], env) {
            Err(er) => Err(er),
            Ok(vs) => match qq_list_s(es.skip(1), env) {
                Err(er) => Err(er),
                Ok(rest) => Ok(vs.add(rest)),
            },
        }
    }
}

/// One macro-expansion step: a list whose head symbol is bound (by
/// lookup, not evaluation) to a macro is replaced by its body's value
/// in a scope binding the parameters to the unevaluated arguments;
/// anything else is left as it is (`None`).
pub open spec fn expand_once_s(f: nat, e: ExprV, env: EnvChainV) -> Result<Option<ExprV>, ErrV>
    decreases f,
{
    if f == 0 {
        Err(ErrV::DepthExceeded)
    } else {
        match e {
            ExprV::List(es) => if es.len() > 0 && es[0] is Symbol {
                match env_lookup(env, es[0]->Symbol_0) {
                    Some(ExprV::Macro { body, bindings }) => match params_of(*bindings) {
                        Err(er) => Err(er),
                        Ok(ps) => if ps.len() != es.len() - 1 {
                            Err(ErrV::Arity)
                        } else {
                            let env2 = env.push(bind_frame(ps, es.skip(1)));
                            match eval_s((f - 1) as nat, *body, env2).0 {
                                Err(er) => Err(er),
                                Ok(v) => Ok(Some(v)),
                            }
                        },
                    },
                    _ => Ok(None),
                }
            } else {
                Ok(None)
            },
            _ => Ok(None),
        }
    }
}

/// Full macro expansion: expand at the current node until no macro
/// head remains there, then expand inside every element.
pub open spec fn expand_all_s(f: nat, e: ExprV, env: EnvChainV) -> Result<ExprV, ErrV>
    decreases f, e,
{
    if f == 0 {
        Err(ErrV::DepthExceeded)
    } else {
        match e {
            ExprV::List(es) => match expand_once_s(f, e, env) {
                Err(er) => Err(er),
                Ok(Some(e2)) => expand_all_s((f - 1) as nat, e2, env),
                Ok(None) => match expand_list_s(f, es, env) {
                    Err(er) => Err(er),
                    Ok(items) => Ok(ExprV::List(items)),
                },
            },
            _ => Ok(e),
        }
    }
}

/// Full macro expansion of every element of a list, left to right.
pub open spec fn expand_list_s(f: nat, es: Seq<ExprV>, env: EnvChainV) -> Result<Seq<ExprV>, ErrV>
    decreases f, es,
{
    if es.len() == 0 {
        Ok(Seq::empty())
    } else {
        match expand_all_s(f, es[0], env) {
            Err(er) => Err(er),
            Ok(v) => match expand_list_s(f, es.skip(1), env) {
                Err(er) => Err(er),
                Ok(rest) => Ok(seq![v].add(rest)),
            },
        }
    }
}

/// Application of a built-in procedure to its unevaluated arguments.
/// Each built-in decides which arguments it evaluates, and in which
/// order; the checks and their order are those listed per form.
pub open spec fn apply_s(f: nat, b: Builtin, args: Seq<ExprV>, env: EnvChainV) -> (
    Result<ExprV, ErrV>,
    FrameV,
)
    decreases f,
{
    if f == 0 {
        (Err(ErrV::DepthExceeded), env.last())
    } else {
        match b {
            Builtin::CmpEq | Builtin::CmpLt | Builtin::CmpGt | Builtin::CmpLe | Builtin::CmpGe => {
                let nr = nums_s((f - 1) as nat, args, env);
                match nr.0 {
                    Err(er) => (Err(er), nr.1),
                    Ok(ns) => (Ok(ExprV::Bool(chain_ok(b, ns))), nr.1),
                }
            },
            Builtin::Add => {
                let nr = nums_s((f - 1) as nat, args, env);
                match nr.0 {
                    Err(er) => (Err(er), nr.1),
                    Ok(ns) => (Ok(ExprV::Number(sum_wrap(ns))), nr.1),
                }
            },
            Builtin::Sub => {
                let nr = nums_s((f - 1) as nat, args, env);
                match nr.0 {
                    Err(er) => (Err(er), nr.1),
                    Ok(ns) => if ns.len() == 0 {
                        (Err(ErrV::Arity), nr.1)
                    } else if ns.len() == 1 {
                        (Ok(ExprV::Number(i64_specs::wrapping_sub(0i64, ns[0]))), nr.1)
                    } else {
                        (Ok(ExprV::Number(i64_specs::wrapping_sub(ns[0], sum_wrap(ns.skip(1))))), nr.1)
                    },
                }
            },
            Builtin::Mul => {
                let nr = nums_s((f - 1) as nat, args, env);
                match nr.0 {
                    Err(er) => (Err(er), nr.1),
                    Ok(ns) => (Ok(ExprV::Number(product_wrap(ns))), nr.1),
                }
            },
            Builtin::Div => {
                let nr = nums_s((f - 1) as nat, args, env);
                match nr.0 {
                    Err(er) => (Err(er), nr.1),
                    Ok(ns) => if ns.len() == 0 {
                        (Err(ErrV::Arity), nr.1)
                    } else {
                        match ns[0].checked_div(product_wrap(ns.skip(1))) {
                            Some(q) => (Ok(ExprV::Number(q)), nr.1),
                            None => (Err(ErrV::MalformedList(args)), nr.1),
                        }
                    },
                }
            },
            Builtin::Not => if args.len() == 0 {
                (Err(ErrV::Arity), env.last())
            } else {
                let r0 = eval_s((f - 1) as nat, args[0], env);
                match r0.0 {
                    Err(er) => (Err(er), r0.1),
                    Ok(ExprV::Bool(b)) => (Ok(ExprV::Bool(!b)), r0.1),
                    Ok(v) => (Err(ErrV::TypeMismatch(Type::Bool, v)), r0.1),
                }
            },
            Builtin::And => {
                let br = bools_s((f - 1) as nat, args, env);
                match br.0 {
                    Err(er) => (Err(er), br.1),
                    Ok(bs) => (
                        Ok(ExprV::Bool(forall|i: int| 0 <= i < bs.len() ==> bs[i])),
                        br.1,
                    ),
                }
            },
            Builtin::ExpandOnce => if args.len() == 0 {
                (Err(ErrV::Arity), env.last())
            } else {
                match expand_once_s((f - 1) as nat, args[0], env) {
                    Err(er) => (Err(er), env.last()),
                    Ok(None) => (Ok(args[0]), env.last()),
                    Ok(Some(v)) => (Ok(v), env.last()),
                }
            },
            Builtin::Quote => if args.len() == 0 {
                (Err(ErrV::Arity), env.last())
            } else {
                (Ok(args[0]), env.last())
            },
            Builtin::Quasiquote => match qq_list_s(args, env) {
                Err(er) => (Err(er), env.last()),
                Ok(items) => (Ok(ExprV::List(items)), env.last()),
            },
            Builtin::Def => if args.len() == 0 {
                (Err(ErrV::Arity), env.last())
            } else {
                match args[0] {
                    ExprV::Symbol(s) => if args.len() == 1 {
                        (Err(ErrV::Arity), env.last())
                    } else if args.len() > 2 {
                        (Err(ErrV::Arity), env.last())
                    } else {
                        let r1 = eval_s((f - 1) as nat, args[1], env);
                        match r1.0 {
                            Err(er) => (Err(er), r1.1),
                            Ok(v) => (Ok(ExprV::Symbol(s)), r1.1.insert(s, v)),
                        }
                    },
                    _ => (Err(ErrV::TypeMismatch(Type::Symbol, args[0])), env.last()),
                }
            },
            Builtin::If => if args.len() != 3 {
                (Err(ErrV::Arity), env.last())
            } else {
                let rt = eval_s((f - 1) as nat, args[0], env);
                match rt.0 {
                    Err(er) => (Err(er), rt.1),
                    Ok(ExprV::Bool(true)) => eval_s((f - 1) as nat, args[1], upd_last(env, rt.1)),
                    Ok(ExprV::Bool(false)) => eval_s((f - 1) as nat, args[2], upd_last(env, rt.1)),
                    Ok(v) => (Err(ErrV::TypeMismatch(Type::Bool, v)), rt.1),
                }
            },
            Builtin::Do => if args.len() == 0 {
                (Err(ErrV::Arity), env.last())
            } else {
                let env2 = env.push(Map::empty());
                let fr = forms_s((f - 1) as nat, args.take(args.len() - 1), env2);
                match fr.0 {
                    Err(er) => (Err(er), env.last()),
                    Ok(_) => (
                        eval_s((f - 1) as nat, args.last(), upd_last(env2, fr.1)).0,
                        env.last(),
                    ),
                }
            },
            Builtin::MkLambda => if args.len() != 2 {
                (Err(ErrV::Arity), env.last())
            } else {
                (
                    Ok(
                        ExprV::Lambda {
                            body: Box::new(args[1]),
                            bindings: Box::new(args[0]),
                        },
                    ),
                    env.last(),
                )
            },
            Builtin::MkMacro => if args.len() != 2 {
                (Err(ErrV::Arity), env.last())
            } else {
                (
                    Ok(
                        ExprV::Macro {
                            body: Box::new(args[1]),
                            bindings: Box::new(args[0]),
                        },
                    ),
                    env.last(),
                )
            },
            Builtin::Let => if args.len() != 2 {
                (Err(ErrV::Arity), env.last())
            } else {
                match args[0] {
                    ExprV::List(bs) => {
                        let env2 = env.push(Map::empty());
                        let br = let_binds_s((f - 1) as nat, bs, env2);
                        match br.0 {
                            Err(er) => (Err(er), env.last()),
                            Ok(_) => (
                                eval_s((f - 1) as nat, args[1], upd_last(env2, br.1)).0,
                                env.last(),
                            ),
                        }
                    },
                    _ => (Err(ErrV::TypeMismatch(Type::List, args[0])), env.last()),
                }
            },
        }
    }
}

/// One top-level form: full macro expansion, then evaluation.
pub open spec fn eval_expr_s(f: nat, e: ExprV, env: EnvChainV) -> (Result<ExprV, ErrV>, FrameV) {
    match expand_all_s(f, e, env) {
        Err(er) => (Err(er), env.last()),
        Ok(e2) => eval_s(f, e2, env),
    }
}

/// A sequence of top-level forms sharing one environment: each form
/// is expanded and evaluated in turn, its definitions visible to the
/// later forms; the result is the last form's, and the first error
/// stops the sequence.  An empty sequence is an arity violation.
pub open spec fn eval_script_s(f: nat, es: Seq<ExprV>, env: EnvChainV) -> (
    Result<ExprV, ErrV>,
    FrameV,
)
    decreases es.len(),
{
    if es.len() == 0 {
        (Err(ErrV::Arity), env.last())
    } else if es.len() == 1 {
        eval_expr_s(f, es[0], env)
    } else {
        let r0 = eval_expr_s(f, es[0], env);
        match r0.0 {
            Err(er) => (Err(er), r0.1),
            Ok(_) => eval_script_s(f, es.skip(1), upd_last(env, r0.1)),
        }
    }
}

/// The default environment: one top-level scope binding every
/// built-in procedure to its name.
pub open spec fn default_env_v() -> EnvChainV {
    seq![
        Map::<Seq<char>, ExprV>::empty().insert("="@, ExprV::NativeProc(Builtin::CmpEq)).insert(
            "<"@,
            ExprV::NativeProc(Builtin::CmpLt),
        ).insert(">"@, ExprV::NativeProc(Builtin::CmpGt)).insert(
            "<="@,
            ExprV::NativeProc(Builtin::CmpLe),
        ).insert(">="@, ExprV::NativeProc(Builtin::CmpGe)).insert(
            "+"@,
            ExprV::NativeProc(Builtin::Add),
        ).insert("-"@, ExprV::NativeProc(Builtin::Sub)).insert(
            "*"@,
            ExprV::NativeProc(Builtin::Mul),
        ).insert("/"@, ExprV::NativeProc(Builtin::Div)).insert(
            "not"@,
            ExprV::NativeProc(Builtin::Not),
        ).insert("and"@, ExprV::NativeProc(Builtin::And)).insert(
            "m-expand1"@,
            ExprV::NativeProc(Builtin::ExpandOnce),
        ).insert("quote"@, ExprV::NativeProc(Builtin::Quote)).insert(
            "quasiquote"@,
            ExprV::NativeProc(Builtin::Quasiquote),
        ).insert("def"@, ExprV::NativeProc(Builtin::Def)).insert(
            "if"@,
            ExprV::NativeProc(Builtin::If),
        ).insert("do"@, ExprV::NativeProc(Builtin::Do)).insert(
            "fn"@,
            ExprV::NativeProc(Builtin::MkLambda),
        ).insert("macro"@, ExprV::NativeProc(Builtin::MkMacro)).insert(
            "let"@,
            ExprV::NativeProc(Builtin::Let),
        ),
    ]
}

} // verus!
