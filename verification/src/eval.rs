//! The evaluator: the executable mirror of the semantics in `sem`.
//! Every function's contract equates its result, and the way it
//! changes the environment's innermost scope, with the corresponding
//! semantic function.

use std::rc::Rc;
use vstd::prelude::*;

use crate::env::{
    lemma_upd_last_id, lemma_upd_last_push_drop, lemma_upd_last_twice, str_eq, upd_last, vscope,
    Env,
};
use crate::expr::{
    clone_expr, clone_exprs, lemma_vexprs_index, lemma_vexprs_push, res_view, vexpr, vexprs,
    Builtin, Expr, ExprV, LispError, Proc, Type,
};
use crate::sem::{
    apply_s, bind_frame, bools_s, chain_ok, cmp_holds, default_env_v, eval_args_s, eval_expr_s,
    eval_s, eval_script_s, expand_all_s, expand_list_s, expand_once_s, forms_s, let_binds_s,
    nums_s, params_of, product_wrap, qq_elem_s, qq_list_s, sum_wrap, syms_of,
};

verus! {

broadcast use lemma_vexprs_index, lemma_upd_last_id, lemma_upd_last_twice,
    lemma_upd_last_push_drop;

/// The step budget used by the top-level entry points.  Programs that
/// need more steps end in the `DepthExceeded` error instead of
/// recursing without bound.
pub const DEFAULT_FUEL: u64 = 1000000;

/// 64-bit wrapping sum of the numbers from `start` on.
fn sum_from(ns: &Vec<i64>, start: usize) -> (r: i64)
    requires
        start <= ns@.len(),
    ensures
        r == sum_wrap(ns@.skip(start as int)),
{
    let mut acc: i64 = 0;
    let mut i: usize = start;
    proof {
        assert(ns@.subrange(start as int, start as int) =~= Seq::<i64>::empty());
    }
    while i < ns.len()
        invariant
            start <= i <= ns@.len(),
            acc == sum_wrap(ns@.subrange(start as int, i as int)),
        decreases ns@.len() - i,
    {
        proof {
            assert(ns@.subrange(start as int, i as int + 1).drop_last() =~= ns@.subrange(
                start as int,
                i as int,
            ));
            assert(ns@.subrange(start as int, i as int + 1).last() == ns@[i as int]);
        }
        acc = acc.wrapping_add(ns[i]);
        i = i + 1;
    }
    proof {
        assert(ns@.subrange(start as int, ns@.len() as int) =~= ns@.skip(start as int));
    }
    acc
}

/// 64-bit wrapping product of the numbers from `start` on.
fn product_from(ns: &Vec<i64>, start: usize) -> (r: i64)
    requires
        start <= ns@.len(),
    ensures
        r == product_wrap(ns@.skip(start as int)),
{
    let mut acc: i64 = 1;
    let mut i: usize = start;
    proof {
        assert(ns@.subrange(start as int, start as int) =~= Seq::<i64>::empty());
    }
    while i < ns.len()
        invariant
            start <= i <= ns@.len(),
            acc == product_wrap(ns@.subrange(start as int, i as int)),
        decreases ns@.len() - i,
    {
        proof {
            assert(ns@.subrange(start as int, i as int + 1).drop_last() =~= ns@.subrange(
                start as int,
                i as int,
            ));
            assert(ns@.subrange(start as int, i as int + 1).last() == ns@[i as int]);
        }
        acc = acc.wrapping_mul(ns[i]);
        i = i + 1;
    }
    proof {
        assert(ns@.subrange(start as int, ns@.len() as int) =~= ns@.skip(start as int));
    }
    acc
}

/// Whether one adjacent pair satisfies a tonicity operator.
fn cmp_pair(b: Builtin, x: i64, y: i64) -> (r: bool)
    ensures
        r == cmp_holds(b, x, y),
{
    match b {
        Builtin::CmpEq => x == y,
        Builtin::CmpLt => x < y,
        Builtin::CmpGt => x > y,
        Builtin::CmpLe => x <= y,
        Builtin::CmpGe => x >= y,
        _ => false,
    }
}

/// Whether every adjacent pair satisfies a tonicity operator.
fn chain_cmp(b: Builtin, ns: &Vec<i64>) -> (r: bool)
    ensures
        r == chain_ok(b, ns@),
{
    if ns.len() == 0 {
        return true;
    }
    let mut i: usize = 0;
    while i < ns.len() - 1
        invariant
            ns@.len() >= 1,
            i <= ns@.len(),
            forall|j: int| 0 <= j < i ==> #[trigger] cmp_holds(b, ns@[j], ns@[j + 1]),
        decreases ns@.len() - i,
    {
        if !cmp_pair(b, ns[i], ns[i + 1]) {
            assert(!chain_ok(b, ns@));
            return false;
        }
        i = i + 1;
    }
    true
}

/// Whether every element is true.
fn all_true(bs: &Vec<bool>) -> (r: bool)
    ensures
        r == (forall|i: int| 0 <= i < bs@.len() ==> bs@[i]),
{
    let mut i: usize = 0;
    while i < bs.len()
        invariant
            i <= bs@.len(),
            forall|j: int| 0 <= j < i ==> bs@[j],
        decreases bs@.len() - i,
    {
        if !bs[i] {
            return false;
        }
        i = i + 1;
    }
    true
}

/// Structural copy of the elements from `start` on.
fn clone_suffix(es: &Vec<Expr>, start: usize) -> (r: Vec<Expr>)
    requires
        start <= es@.len(),
    ensures
        vexprs(r@) == vexprs(es@).skip(start as int),
        r@.len() == es@.len() - start,
{
    let mut out: Vec<Expr> = Vec::new();
    let mut i: usize = start;
    while i < es.len()
        invariant
            start <= i <= es@.len(),
            out@.len() == i - start,
            forall|j: int| 0 <= j < out@.len() ==> vexprs(out@)[j] == vexpr(es@[start as int + j]),
        decreases es@.len() - i,
    {
        let c = clone_expr(&es[i]);
        proof {
            lemma_vexprs_push(out@, c);
        }
        out.push(c);
        i = i + 1;
    }
    proof {
        assert(vexprs(out@) =~= vexprs(es@).skip(start as int));
    }
    out
}

/// Parameter names from `start` on: every element must be a symbol.
fn syms_from(es: &Vec<Expr>, start: usize) -> (r: Result<Vec<String>, LispError>)
    requires
        start <= es@.len(),
    ensures
        match (r, syms_of(vexprs(es@).skip(start as int))) {
            (Ok(ps), Ok(ss)) => ps@.map_values(|s: String| s@) == ss,
            (Err(e1), Err(e2)) => e1@ == e2,
            _ => false,
        },
    decreases es@.len() - start,
{
    let ghost suffix = vexprs(es@).skip(start as int);
    if start >= es.len() {
        let out: Vec<String> = Vec::new();
        proof {
            assert(suffix =~= Seq::<ExprV>::empty());
            assert(out@.map_values(|s: String| s@) =~= Seq::<Seq<char>>::empty());
        }
        Ok(out)
    } else {
        proof {
            assert(suffix[0] == vexpr(es@[start as int]));
            assert(suffix.skip(1) =~= vexprs(es@).skip(start as int + 1));
        }
        match &es[start] {
            Expr::Symbol(s) => {
                match syms_from(es, start + 1) {
                    Ok(mut rest) => {
                        let ghost rest0 = rest@;
                        rest.insert(0, s.clone());
                        proof {
                            assert(rest@.map_values(|x: String| x@) =~= seq![s@].add(
                                rest0.map_values(|x: String| x@),
                            ));
                        }
                        Ok(rest)
                    },
                    Err(e) => Err(e),
                }
            },
            _ => Err(LispError::TypeMismatch(Type::Symbol, clone_expr(&es[start]))),
        }
    }
}

/// Parameter names of a procedure or macro binding form.
fn param_syms(b: &Expr) -> (r: Result<Vec<String>, LispError>)
    ensures
        match (r, params_of(b@)) {
            (Ok(ps), Ok(ss)) => ps@.map_values(|s: String| s@) == ss,
            (Err(e1), Err(e2)) => e1@ == e2,
            _ => false,
        },
{
    match b {
        Expr::List(es) => {
            proof {
                assert(vexprs(es@).skip(0) =~= vexprs(es@));
            }
            syms_from(es, 0)
        },
        _ => Err(LispError::TypeMismatch(Type::List, clone_expr(b))),
    }
}

/// The scope table created by pairwise binding of names to values.
fn zip_frame(ps: Vec<String>, vs: Vec<Expr>) -> (r: Vec<(String, Expr)>)
    requires
        ps@.len() == vs@.len(),
    ensures
        vscope(r@) == bind_frame(ps@.map_values(|s: String| s@), vexprs(vs@)),
{
    let ghost psv = ps@.map_values(|s: String| s@);
    let ghost vsv = vexprs(vs@);
    let mut out: Vec<(String, Expr)> = Vec::new();
    let mut i: usize = 0;
    proof {
        assert(psv.take(0) =~= Seq::<Seq<char>>::empty());
        assert(vsv.take(0) =~= Seq::<ExprV>::empty());
    }
    while i < ps.len()
        invariant
            i <= ps@.len(),
            ps@.len() == vs@.len(),
            vscope(out@) == bind_frame(psv.take(i as int), vsv.take(i as int)),
            psv == ps@.map_values(|s: String| s@),
            vsv == vexprs(vs@),
        decreases ps@.len() - i,
    {
        let name = ps[i].clone();
        let v = clone_expr(&vs[i]);
        proof {
            assert(out@.push((name, v)).drop_last() =~= out@);
            assert(psv.take(i as int + 1).drop_last() =~= psv.take(i as int));
            assert(vsv.take(i as int + 1).drop_last() =~= vsv.take(i as int));
            assert(psv.take(i as int + 1).last() == psv[i as int]);
            assert(vsv.take(i as int + 1).last() == vsv[i as int]);
        }
        out.push((name, v));
        i = i + 1;
    }
    proof {
        assert(psv.take(ps@.len() as int) =~= psv);
        assert(vsv.take(vs@.len() as int) =~= vsv);
    }
    out
}

impl Default for Env {
    /// The default environment: one top-level scope binding every
    /// built-in procedure to its name.
    fn default() -> (e: Env)
        ensures
            e.wf(),
            e@ == default_env_v(),
    {
        let mut e = Env::empty();
        e.define("=".to_owned(), Expr::NativeProc(Builtin::CmpEq));
        e.define("<".to_owned(), Expr::NativeProc(Builtin::CmpLt));
        e.define(">".to_owned(), Expr::NativeProc(Builtin::CmpGt));
        e.define("<=".to_owned(), Expr::NativeProc(Builtin::CmpLe));
        e.define(">=".to_owned(), Expr::NativeProc(Builtin::CmpGe));
        e.define("+".to_owned(), Expr::NativeProc(Builtin::Add));
        e.define("-".to_owned(), Expr::NativeProc(Builtin::Sub));
        e.define("*".to_owned(), Expr::NativeProc(Builtin::Mul));
        e.define("/".to_owned(), Expr::NativeProc(Builtin::Div));
        e.define("not".to_owned(), Expr::NativeProc(Builtin::Not));
        e.define("and".to_owned(), Expr::NativeProc(Builtin::And));
        e.define("m-expand1".to_owned(), Expr::NativeProc(Builtin::ExpandOnce));
        e.define("quote".to_owned(), Expr::NativeProc(Builtin::Quote));
        e.define("quasiquote".to_owned(), Expr::NativeProc(Builtin::Quasiquote));
        e.define("def".to_owned(), Expr::NativeProc(Builtin::Def));
        e.define("if".to_owned(), Expr::NativeProc(Builtin::If));
        e.define("do".to_owned(), Expr::NativeProc(Builtin::Do));
        e.define("fn".to_owned(), Expr::NativeProc(Builtin::MkLambda));
        e.define("macro".to_owned(), Expr::NativeProc(Builtin::MkMacro));
        e.define("let".to_owned(), Expr::NativeProc(Builtin::Let));
        proof {
            assert(e@ =~= default_env_v());
        }
        e
    }
}

/// Evaluation of the argument forms from `start` on, eagerly, left to
/// right, threading the innermost scope.
fn eval_args(list: &Vec<Expr>, start: usize, env: &mut Env, fuel: u64) -> (r: Result<
    Vec<Expr>,
    LispError,
>)
    requires
        old(env).wf(),
        start <= list@.len(),
    ensures
        final(env).wf(),
        ({
            let o = eval_args_s(fuel as nat, vexprs(list@).skip(start as int), old(env)@);
            &&& final(env)@ == upd_last(old(env)@, o.1)
            &&& match (r, o.0) {
                (Ok(vs), Ok(ss)) => vexprs(vs@) == ss,
                (Err(e1), Err(e2)) => e1@ == e2,
                _ => false,
            }
        }),
    decreases fuel,
{
    let ghost suffix = vexprs(list@).skip(start as int);
    if fuel == 0 {
        return Err(LispError::DepthExceeded);
    }
    if start >= list.len() {
        let out: Vec<Expr> = Vec::new();
        proof {
            assert(suffix =~= Seq::<ExprV>::empty());
            assert(vexprs(out@) =~= Seq::<ExprV>::empty());
        }
        return Ok(out);
    }
    proof {
        assert(suffix[0] == vexpr(list@[start as int]));
        assert(suffix.skip(1) =~= vexprs(list@).skip(start as int + 1));
    }
    match eval(&list[start], env, fuel - 1) {
        Err(er) => Err(er),
        Ok(v) => {
            let ghost vv = v@;
            match eval_args(list, start + 1, env, fuel - 1) {
                Err(er) => Err(er),
                Ok(mut rest) => {
                    let ghost rest0 = rest@;
                    rest.insert(0, v);
                    proof {
                        assert(vexprs(rest@) =~= seq![vv].add(vexprs(rest0)));
                    }
                    Ok(rest)
                },
            }
        },
    }
}

/// Evaluation of the argument forms from `start` on, each required to
/// produce a number.
fn parse_nums(list: &Vec<Expr>, start: usize, env: &mut Env, fuel: u64) -> (r: Result<
    Vec<i64>,
    LispError,
>)
    requires
        old(env).wf(),
        start <= list@.len(),
    ensures
        final(env).wf(),
        ({
            let o = nums_s(fuel as nat, vexprs(list@).skip(start as int), old(env)@);
            &&& final(env)@ == upd_last(old(env)@, o.1)
            &&& match (r, o.0) {
                (Ok(ns), Ok(ss)) => ns@ == ss,
                (Err(e1), Err(e2)) => e1@ == e2,
                _ => false,
            }
        }),
    decreases fuel,
{
    let ghost suffix = vexprs(list@).skip(start as int);
    if fuel == 0 {
        return Err(LispError::DepthExceeded);
    }
    if start >= list.len() {
        let out: Vec<i64> = Vec::new();
        proof {
            assert(suffix =~= Seq::<ExprV>::empty());
            assert(out@ =~= Seq::<i64>::empty());
        }
        return Ok(out);
    }
    proof {
        assert(suffix[0] == vexpr(list@[start as int]));
        assert(suffix.skip(1) =~= vexprs(list@).skip(start as int + 1));
    }
    match eval(&list[start], env, fuel - 1) {
        Err(er) => Err(er),
        Ok(v) => match v {
            Expr::Number(n) => {
                match parse_nums(list, start + 1, env, fuel - 1) {
                    Err(er) => Err(er),
                    Ok(mut rest) => {
                        let ghost rest0 = rest@;
                        rest.insert(0, n);
                        proof {
                            assert(rest@ =~= seq![n].add(rest0));
                        }
                        Ok(rest)
                    },
                }
            },
            other => Err(LispError::TypeMismatch(Type::Number, other)),
        },
    }
}

/// Evaluation of the argument forms from `start` on, each required to
/// produce a boolean.
fn parse_bools(list: &Vec<Expr>, start: usize, env: &mut Env, fuel: u64) -> (r: Result<
    Vec<bool>,
    LispError,
>)
    requires
        old(env).wf(),
        start <= list@.len(),
    ensures
        final(env).wf(),
        ({
            let o = bools_s(fuel as nat, vexprs(list@).skip(start as int), old(env)@);
            &&& final(env)@ == upd_last(old(env)@, o.1)
            &&& match (r, o.0) {
                (Ok(bs), Ok(ss)) => bs@ == ss,
                (Err(e1), Err(e2)) => e1@ == e2,
                _ => false,
            }
        }),
    decreases fuel,
{
    let ghost suffix = vexprs(list@).skip(start as int);
    if fuel == 0 {
        return Err(LispError::DepthExceeded);
    }
    if start >= list.len() {
        let out: Vec<bool> = Vec::new();
        proof {
            assert(suffix =~= Seq::<ExprV>::empty());
            assert(out@ =~= Seq::<bool>::empty());
        }
        return Ok(out);
    }
    proof {
        assert(suffix[0] == vexpr(list@[start as int]));
        assert(suffix.skip(1) =~= vexprs(list@).skip(start as int + 1));
    }
    match eval(&list[start], env, fuel - 1) {
        Err(er) => Err(er),
        Ok(v) => match v {
            Expr::Bool(b) => {
                match parse_bools(list, start + 1, env, fuel - 1) {
                    Err(er) => Err(er),
                    Ok(mut rest) => {
                        let ghost rest0 = rest@;
                        rest.insert(0, b);
                        proof {
                            assert(rest@ =~= seq![b].add(rest0));
                        }
                        Ok(rest)
                    },
                }
            },
            other => Err(LispError::TypeMismatch(Type::Bool, other)),
        },
    }
}

/// Sequential evaluation, for side effect, of the forms with indices
/// in `start..end`.
fn eval_forms(list: &Vec<Expr>, start: usize, end: usize, env: &mut Env, fuel: u64) -> (r: Result<
    (),
    LispError,
>)
    requires
        old(env).wf(),
        start <= end <= list@.len(),
    ensures
        final(env).wf(),
        ({
            let o = forms_s(
                fuel as nat,
                vexprs(list@).subrange(start as int, end as int),
                old(env)@,
            );
            &&& final(env)@ == upd_last(old(env)@, o.1)
            &&& match (r, o.0) {
                (Ok(_), Ok(_)) => true,
                (Err(e1), Err(e2)) => e1@ == e2,
                _ => false,
            }
        }),
    decreases fuel,
{
    let ghost part = vexprs(list@).subrange(start as int, end as int);
    if fuel == 0 {
        return Err(LispError::DepthExceeded);
    }
    if start >= end {
        proof {
            assert(part =~= Seq::<ExprV>::empty());
        }
        return Ok(());
    }
    proof {
        assert(part[0] == vexpr(list@[start as int]));
        assert(part.skip(1) =~= vexprs(list@).subrange(start as int + 1, end as int));
    }
    match eval(&list[start], env, fuel - 1) {
        Err(er) => Err(er),
        Ok(_) => eval_forms(list, start + 1, end, env, fuel - 1),
    }
}

/// The symbol/value pairs of a `let` binding list, from `start` on:
/// each value is evaluated and bound before the next pair.
fn let_binds(bs: &Vec<Expr>, start: usize, env: &mut Env, fuel: u64) -> (r: Result<(), LispError>)
    requires
        old(env).wf(),
        start <= bs@.len(),
    ensures
        final(env).wf(),
        ({
            let o = let_binds_s(fuel as nat, vexprs(bs@).skip(start as int), old(env)@);
            &&& final(env)@ == upd_last(old(env)@, o.1)
            &&& match (r, o.0) {
                (Ok(_), Ok(_)) => true,
                (Err(e1), Err(e2)) => e1@ == e2,
                _ => false,
            }
        }),
    decreases fuel,
{
    let ghost suffix = vexprs(bs@).skip(start as int);
    if fuel == 0 {
        return Err(LispError::DepthExceeded);
    }
    if start >= bs.len() {
        proof {
            assert(suffix =~= Seq::<ExprV>::empty());
        }
        return Ok(());
    }
    if start + 1 >= bs.len() {
        return Err(LispError::Arity);
    }
    proof {
        assert(suffix[0] == vexpr(bs@[start as int]));
        assert(suffix[1] == vexpr(bs@[start as int + 1]));
        assert(suffix.skip(2) =~= vexprs(bs@).skip(start as int + 2));
    }
    match &bs[start] {
        Expr::Symbol(name) => {
            match eval(&bs[start + 1], env, fuel - 1) {
                Err(er) => Err(er),
                Ok(v) => {
                    env.define(name.clone(), v);
                    let_binds(bs, start + 2, env, fuel - 1)
                },
            }
        },
        other => Err(LispError::TypeMismatch(Type::Symbol, clone_expr(other))),
    }
}

/// One evaluation step, mirroring the dispatch of the semantics:
/// atoms are themselves, symbols are looked up, the empty list is
/// malformed, and a nonempty list is dispatched on its evaluated head.
pub fn eval(e: &Expr, env: &mut Env, fuel: u64) -> (r: Result<Expr, LispError>)
    requires
        old(env).wf(),
    ensures
        final(env).wf(),
        ({
            let o = eval_s(fuel as nat, e@, old(env)@);
            &&& final(env)@ == upd_last(old(env)@, o.1)
            &&& res_view(r) == o.0
        }),
    decreases fuel,
{
    if fuel == 0 {
        return Err(LispError::DepthExceeded);
    }
    match e {
        Expr::Symbol(s) => {
            match env.get(s.as_str()) {
                Some(v) => Ok(v),
                None => Err(LispError::SymbolNotFound(s.clone())),
            }
        },
        Expr::List(es) => {
            if es.len() == 0 {
                let out: Vec<Expr> = Vec::new();
                proof {
                    assert(vexprs(es@) =~= Seq::<ExprV>::empty());
                    assert(vexprs(out@) =~= Seq::<ExprV>::empty());
                }
                return Err(LispError::MalformedList(out));
            }
            proof {
                assert(vexprs(es@)[0] == vexpr(es@[0]));
            }
            match eval(&es[0], env, fuel - 1) {
                Err(er) => Err(er),
                Ok(hv) => match hv {
                    Expr::NativeProc(b) => apply_builtin(b, es, env, fuel - 1),
                    Expr::Lambda(p) => {
                        match eval_args(es, 1, env, fuel - 1) {
                            Err(er) => Err(er),
                            Ok(vs) => match param_syms(&*p.bindings) {
                                Err(er) => Err(er),
                                Ok(ps) => {
                                    if ps.len() != vs.len() {
                                        Err(LispError::Arity)
                                    } else {
                                        let frame = zip_frame(ps, vs);
                                        env.push_scope(frame);
                                        let rb = eval(&*p.body, env, fuel - 1);
                                        env.pop_scope();
                                        rb
                                    }
                                },
                            },
                        }
                    },
                    _ => Err(LispError::MalformedList(clone_exprs(es))),
                },
            }
        },
        _ => Ok(clone_expr(e)),
    }
}

/// Application of a built-in procedure to the unevaluated argument
/// forms `list[1..]`.
fn apply_builtin(b: Builtin, list: &Vec<Expr>, env: &mut Env, fuel: u64) -> (r: Result<
    Expr,
    LispError,
>)
    requires
        old(env).wf(),
        list@.len() >= 1,
    ensures
        final(env).wf(),
        ({
            let o = apply_s(fuel as nat, b, vexprs(list@).skip(1), old(env)@);
            &&& final(env)@ == upd_last(old(env)@, o.1)
            &&& res_view(r) == o.0
        }),
    decreases fuel,
{
    let ghost args = vexprs(list@).skip(1);
    if fuel == 0 {
        return Err(LispError::DepthExceeded);
    }
    proof {
        assert(args.len() == list@.len() - 1);
        assert forall|j: int| 0 <= j < args.len() implies args[j] == vexpr(list@[j + 1]) by {
            assert(args[j] == vexprs(list@)[j + 1]);
        }
    }
    match b {
        Builtin::CmpEq | Builtin::CmpLt | Builtin::CmpGt | Builtin::CmpLe | Builtin::CmpGe => {
            match parse_nums(list, 1, env, fuel - 1) {
                Err(er) => Err(er),
                Ok(ns) => Ok(Expr::Bool(chain_cmp(b, &ns))),
            }
        },
        Builtin::Add => {
            match parse_nums(list, 1, env, fuel - 1) {
                Err(er) => Err(er),
                Ok(ns) => {
                    proof {
                        assert(ns@.skip(0) =~= ns@);
                    }
                    Ok(Expr::Number(sum_from(&ns, 0)))
                },
            }
        },
        Builtin::Sub => {
            match parse_nums(list, 1, env, fuel - 1) {
                Err(er) => Err(er),
                Ok(ns) => {
                    if ns.len() == 0 {
                        Err(LispError::Arity)
                    } else if ns.len() == 1 {
                        Ok(Expr::Number(0i64.wrapping_sub(ns[0])))
                    } else {
                        Ok(Expr::Number(ns[0].wrapping_sub(sum_from(&ns, 1))))
                    }
                },
            }
        },
        Builtin::Mul => {
            match parse_nums(list, 1, env, fuel - 1) {
                Err(er) => Err(er),
                Ok(ns) => {
                    proof {
                        assert(ns@.skip(0) =~= ns@);
                    }
                    Ok(Expr::Number(product_from(&ns, 0)))
                },
            }
        },
        Builtin::Div => {
            match parse_nums(list, 1, env, fuel - 1) {
                Err(er) => Err(er),
                Ok(ns) => {
                    if ns.len() == 0 {
                        Err(LispError::Arity)
                    } else {
                        let d = product_from(&ns, 1);
                        match ns[0].checked_div(d) {
                            Some(q) => Ok(Expr::Number(q)),
                            None => Err(LispError::MalformedList(clone_suffix(list, 1))),
                        }
                    }
                },
            }
        },
        Builtin::Not => {
            if list.len() < 2 {
                Err(LispError::Arity)
            } else {
                match eval(&list[1], env, fuel - 1) {
                    Err(er) => Err(er),
                    Ok(Expr::Bool(bb)) => Ok(Expr::Bool(!bb)),
                    Ok(other) => Err(LispError::TypeMismatch(Type::Bool, other)),
                }
            }
        },
        Builtin::And => {
            match parse_bools(list, 1, env, fuel - 1) {
                Err(er) => Err(er),
                Ok(bs) => Ok(Expr::Bool(all_true(&bs))),
            }
        },
        Builtin::ExpandOnce => {
            if list.len() < 2 {
                Err(LispError::Arity)
            } else {
                match expand_once(&list[1], env, fuel - 1) {
                    Err(er) => Err(er),
                    Ok(None) => Ok(clone_expr(&list[1])),
                    Ok(Some(v)) => Ok(v),
                }
            }
        },
        Builtin::Quote => {
            if list.len() < 2 {
                Err(LispError::Arity)
            } else {
                Ok(clone_expr(&list[1]))
            }
        },
        Builtin::Quasiquote => {
            match qq_list(list, 1, env) {
                Err(er) => Err(er),
                Ok(items) => Ok(Expr::List(items)),
            }
        },
        Builtin::Def => {
            if list.len() < 2 {
                Err(LispError::Arity)
            } else {
                match &list[1] {
                    Expr::Symbol(name) => {
                        if list.len() == 2 {
                            Err(LispError::Arity)
                        } else if list.len() > 3 {
                            Err(LispError::Arity)
                        } else {
                            match eval(&list[2], env, fuel - 1) {
                                Err(er) => Err(er),
                                Ok(v) => {
                                    env.define(name.clone(), v);
                                    Ok(Expr::Symbol(name.clone()))
                                },
                            }
                        }
                    },
                    other => Err(LispError::TypeMismatch(Type::Symbol, clone_expr(other))),
                }
            }
        },
        Builtin::If => {
            if list.len() != 4 {
                Err(LispError::Arity)
            } else {
                match eval(&list[1], env, fuel - 1) {
                    Err(er) => Err(er),
                    Ok(Expr::Bool(true)) => eval(&list[2], env, fuel - 1),
                    Ok(Expr::Bool(false)) => eval(&list[3], env, fuel - 1),
                    Ok(other) => Err(LispError::TypeMismatch(Type::Bool, other)),
                }
            }
        },
        Builtin::Do => {
            if list.len() < 2 {
                Err(LispError::Arity)
            } else {
                proof {
                    assert(vscope(Seq::<(String, Expr)>::empty()) =~= Map::<Seq<char>, ExprV>::empty());
                    assert(args.take(args.len() - 1) =~= vexprs(list@).subrange(
                        1,
                        list@.len() - 1,
                    ));
                    assert(args.last() == vexpr(list@[list@.len() - 1]));
                }
                env.push_scope(Vec::new());
                match eval_forms(list, 1, list.len() - 1, env, fuel - 1) {
                    Err(er) => {
                        env.pop_scope();
                        Err(er)
                    },
                    Ok(_) => {
                        let rl = eval(&list[list.len() - 1], env, fuel - 1);
                        env.pop_scope();
                        rl
                    },
                }
            }
        },
        Builtin::MkLambda => {
            if list.len() != 3 {
                Err(LispError::Arity)
            } else {
                Ok(
                    Expr::Lambda(
                        Proc {
                            body: Rc::new(clone_expr(&list[2])),
                            bindings: Rc::new(clone_expr(&list[1])),
                        },
                    ),
                )
            }
        },
        Builtin::MkMacro => {
            if list.len() != 3 {
                Err(LispError::Arity)
            } else {
                Ok(
                    Expr::Macro(
                        Proc {
                            body: Rc::new(clone_expr(&list[2])),
                            bindings: Rc::new(clone_expr(&list[1])),
                        },
                    ),
                )
            }
        },
        Builtin::Let => {
            if list.len() != 3 {
                Err(LispError::Arity)
            } else {
                match &list[1] {
                    Expr::List(bsv) => {
                        proof {
                            assert(vscope(Seq::<(String, Expr)>::empty())
                                =~= Map::<Seq<char>, ExprV>::empty());
                            assert(vexprs(bsv@).skip(0) =~= vexprs(bsv@));
                        }
                        env.push_scope(Vec::new());
                        match let_binds(bsv, 0, env, fuel - 1) {
                            Err(er) => {
                                env.pop_scope();
                                Err(er)
                            },
                            Ok(_) => {
                                let rb = eval(&list[2], env, fuel - 1);
                                env.pop_scope();
                                rb
                            },
                        }
                    },
                    other => Err(LispError::TypeMismatch(Type::List, clone_expr(other))),
                }
            }
        },
    }
}

/// One macro-expansion step; the environment is left as it was.
pub fn expand_once(e: &Expr, env: &mut Env, fuel: u64) -> (r: Result<Option<Expr>, LispError>)
    requires
        old(env).wf(),
    ensures
        final(env).wf(),
        final(env)@ == old(env)@,
        match (r, expand_once_s(fuel as nat, e@, old(env)@)) {
            (Ok(Some(v)), Ok(Some(vs))) => v@ == vs,
            (Ok(None), Ok(None)) => true,
            (Err(e1), Err(e2)) => e1@ == e2,
            _ => false,
        },
    decreases fuel,
{
    if fuel == 0 {
        return Err(LispError::DepthExceeded);
    }
    match e {
        Expr::List(es) => {
            if es.len() == 0 {
                return Ok(None);
            }
            proof {
                assert(vexprs(es@)[0] == vexpr(es@[0]));
            }
            match &es[0] {
                Expr::Symbol(s) => {
                    match env.get(s.as_str()) {
                        Some(Expr::Macro(p)) => {
                            match param_syms(&*p.bindings) {
                                Err(er) => Err(er),
                                Ok(ps) => {
                                    if ps.len() != es.len() - 1 {
                                        Err(LispError::Arity)
                                    } else {
                                        let frame_args = clone_suffix(es, 1);
                                        let frame = zip_frame(ps, frame_args);
                                        env.push_scope(frame);
                                        let rb = eval(&*p.body, env, fuel - 1);
                                        env.pop_scope();
                                        match rb {
                                            Err(er) => Err(er),
                                            Ok(v) => Ok(Some(v)),
                                        }
                                    }
                                },
                            }
                        },
                        _ => Ok(None),
                    }
                },
                _ => Ok(None),
            }
        },
        _ => Ok(None),
    }
}

/// Full macro expansion of one expression; the environment is left as
/// it was.
pub fn expand_all(e: &Expr, env: &mut Env, fuel: u64) -> (r: Result<Expr, LispError>)
    requires
        old(env).wf(),
    ensures
        final(env).wf(),
        final(env)@ == old(env)@,
        match (r, expand_all_s(fuel as nat, e@, old(env)@)) {
            (Ok(v), Ok(vs)) => v@ == vs,
            (Err(e1), Err(e2)) => e1@ == e2,
            _ => false,
        },
    decreases fuel, *e, 0int,
{
    if fuel == 0 {
        return Err(LispError::DepthExceeded);
    }
    match e {
        Expr::List(es) => {
            match expand_once(e, env, fuel) {
                Err(er) => Err(er),
                Ok(Some(e2)) => expand_all(&e2, env, fuel - 1),
                Ok(None) => {
                    proof {
                        assert(vexprs(es@).skip(0) =~= vexprs(es@));
                    }
                    match expand_list(es, 0, env, fuel) {
                        Err(er) => Err(er),
                        Ok(items) => Ok(Expr::List(items)),
                    }
                },
            }
        },
        _ => Ok(clone_expr(e)),
    }
}

/// Full macro expansion of the elements from `start` on.
fn expand_list(list: &Vec<Expr>, start: usize, env: &mut Env, fuel: u64) -> (r: Result<
    Vec<Expr>,
    LispError,
>)
    requires
        old(env).wf(),
        start <= list@.len(),
    ensures
        final(env).wf(),
        final(env)@ == old(env)@,
        match (r, expand_list_s(fuel as nat, vexprs(list@).skip(start as int), old(env)@)) {
            (Ok(vs), Ok(ss)) => vexprs(vs@) == ss,
            (Err(e1), Err(e2)) => e1@ == e2,
            _ => false,
        },
    decreases fuel, list@, list@.len() - start,
{
    let ghost suffix = vexprs(list@).skip(start as int);
    if start >= list.len() {
        let out: Vec<Expr> = Vec::new();
        proof {
            assert(suffix =~= Seq::<ExprV>::empty());
            assert(vexprs(out@) =~= Seq::<ExprV>::empty());
        }
        return Ok(out);
    }
    proof {
        assert(suffix[0] == vexpr(list@[start as int]));
        assert(suffix.skip(1) =~= vexprs(list@).skip(start as int + 1));
    }
    match expand_all(&list[start], env, fuel) {
        Err(er) => Err(er),
        Ok(v) => {
            let ghost vv = v@;
            match expand_list(list, start + 1, env, fuel) {
                Err(er) => Err(er),
                Ok(mut rest) => {
                    let ghost rest0 = rest@;
                    rest.insert(0, v);
                    proof {
                        assert(vexprs(rest@) =~= seq![vv].add(vexprs(rest0)));
                    }
                    Ok(rest)
                },
            }
        },
    }
}

/// Quasiquote expansion of one template element.
fn qq_elem(e: &Expr, env: &Env) -> (r: Result<Vec<Expr>, LispError>)
    requires
        env.wf(),
    ensures
        match (r, qq_elem_s(e@, env@)) {
            (Ok(vs), Ok(ss)) => vexprs(vs@) == ss,
            (Err(e1), Err(e2)) => e1@ == e2,
            _ => false,
        },
    decreases *e, 0int,
{
    match e {
        Expr::List(l) => {
            proof {
                assert(forall|j: int|
                    0 <= j < l@.len() ==> vexprs(l@)[j] == vexpr(#[trigger] l@[j]));
            }
            if l.len() >= 2 {
                if let Expr::Symbol(s0) = &l[0] {
                    if let Expr::Symbol(s1) = &l[1] {
                        let uq = str_eq(s0.as_str(), "unquote");
                        let sp = str_eq(s0.as_str(), "splice-unquote");
                        if uq || sp {
                            if l.len() > 2 {
                                return Err(LispError::Arity);
                            }
                            if uq {
                                match env.get(s1.as_str()) {
                                    Some(v) => {
                                        let ghost vv = v@;
                                        let out = vec![v];
                                        proof {
                                            assert(vexprs(out@) =~= seq![vv]);
                                        }
                                        return Ok(out);
                                    },
                                    None => {
                                        let c = clone_expr(e);
                                        let ghost cv = c@;
                                        let out = vec![c];
                                        proof {
                                            assert(vexprs(out@) =~= seq![cv]);
                                        }
                                        return Ok(out);
                                    },
                                }
                            } else {
                                match env.get_local(s1.as_str()) {
                                    None => {
                                        return Err(LispError::SymbolNotFound(s1.clone()));
                                    },
                                    Some(v) => match v {
                                        Expr::List(xs) => {
                                            return Ok(xs);
                                        },
                                        _ => {
                                            let out: Vec<Expr> = Vec::new();
                                            proof {
                                                assert(vexprs(out@) =~= Seq::<ExprV>::empty());
                                            }
                                            return Ok(out);
                                        },
                                    },
                                }
                            }
                        }
                    }
                }
            }
            proof {
                assert(vexprs(l@).skip(0) =~= vexprs(l@));
            }
            match qq_list(l, 0, env) {
                Err(er) => Err(er),
                Ok(items) => {
                    let wrapped = Expr::List(items);
                    let ghost wv = wrapped@;
                    let out = vec![wrapped];
                    proof {
                        assert(vexprs(out@) =~= seq![wv]);
                    }
                    Ok(out)
                },
            }
        },
        _ => {
            let c = clone_expr(e);
            let ghost cv = c@;
            let out = vec![c];
            proof {
                assert(vexprs(out@) =~= seq![cv]);
            }
            Ok(out)
        },
    }
}

/// Quasiquote expansion of the template elements from `start` on.
fn qq_list(list: &Vec<Expr>, start: usize, env: &Env) -> (r: Result<Vec<Expr>, LispError>)
    requires
        env.wf(),
        start <= list@.len(),
    ensures
        match (r, qq_list_s(vexprs(list@).skip(start as int), env@)) {
            (Ok(vs), Ok(ss)) => vexprs(vs@) == ss,
            (Err(e1), Err(e2)) => e1@ == e2,
            _ => false,
        },
    decreases list@, list@.len() - start,
{
    let ghost suffix = vexprs(list@).skip(start as int);
    if start >= list.len() {
        let out: Vec<Expr> = Vec::new();
        proof {
            assert(suffix =~= Seq::<ExprV>::empty());
            assert(vexprs(out@) =~= Seq::<ExprV>::empty());
        }
        return Ok(out);
    }
    proof {
        assert(suffix[0] == vexpr(list@[start as int]));
        assert(suffix.skip(1) =~= vexprs(list@).skip(start as int + 1));
    }
    match qq_elem(&list[start], env) {
        Err(er) => Err(er),
        Ok(mut first) => {
            let ghost first0 = first@;
            match qq_list(list, start + 1, env) {
                Err(er) => Err(er),
                Ok(mut rest) => {
                    let ghost rest0 = rest@;
                    first.append(&mut rest);
                    proof {
                        assert(vexprs(first@) =~= vexprs(first0).add(vexprs(rest0)));
                    }
                    Ok(first)
                },
            }
        },
    }
}

/// One top-level form: full macro expansion, then evaluation, with
/// the default step budget.
pub fn eval_expr(e: &Expr, env: &mut Env) -> (r: Result<Expr, LispError>)
    requires
        old(env).wf(),
    ensures
        final(env).wf(),
        ({
            let o = eval_expr_s(DEFAULT_FUEL as nat, e@, old(env)@);
            &&& final(env)@ == upd_last(old(env)@, o.1)
            &&& res_view(r) == o.0
        }),
{
    match expand_all(e, env, DEFAULT_FUEL) {
        Err(er) => Err(er),
        Ok(e2) => eval(&e2, env, DEFAULT_FUEL),
    }
}

/// The top-level forms from `start` on, sharing one environment.
fn script_from(forms: &Vec<Expr>, start: usize, env: &mut Env) -> (r: Result<Expr, LispError>)
    requires
        old(env).wf(),
        start < forms@.len(),
    ensures
        final(env).wf(),
        ({
            let o = eval_script_s(
                DEFAULT_FUEL as nat,
                vexprs(forms@).skip(start as int),
                old(env)@,
            );
            &&& final(env)@ == upd_last(old(env)@, o.1)
            &&& res_view(r) == o.0
        }),
    decreases forms@.len() - start,
{
    let ghost suffix = vexprs(forms@).skip(start as int);
    proof {
        assert(suffix[0] == vexpr(forms@[start as int]));
        assert(suffix.skip(1) =~= vexprs(forms@).skip(start as int + 1));
    }
    if start == forms.len() - 1 {
        eval_expr(&forms[start], env)
    } else {
        match eval_expr(&forms[start], env) {
            Err(er) => Err(er),
            Ok(_) => script_from(forms, start + 1, env),
        }
    }
}

/// A sequence of top-level forms sharing one environment: each form's
/// definitions are visible to the later forms, the result is the last
/// form's, and the first error stops the sequence.
pub fn eval_script(forms: &Vec<Expr>, env: &mut Env) -> (r: Result<Expr, LispError>)
    requires
        old(env).wf(),
    ensures
        final(env).wf(),
        ({
            let o = eval_script_s(DEFAULT_FUEL as nat, vexprs(forms@), old(env)@);
            &&& final(env)@ == upd_last(old(env)@, o.1)
            &&& res_view(r) == o.0
        }),
{
    if forms.len() == 0 {
        return Err(LispError::Arity);
    }
    proof {
        assert(vexprs(forms@).skip(0) =~= vexprs(forms@));
    }
    script_from(forms, 0, env)
}

} // verus!
