use lisp_eval::env::Env;
use lisp_eval::eval::{eval, eval_expr, eval_script, expand_all};
use lisp_eval::expr::{Expr, LispError, Type};

fn sym(s: &str) -> Expr {
    Expr::Symbol(s.to_string())
}

fn num(n: i64) -> Expr {
    Expr::Number(n)
}

fn text(s: &str) -> Expr {
    Expr::Text(s.to_string())
}

fn boolean(b: bool) -> Expr {
    Expr::Bool(b)
}

fn list(items: Vec<Expr>) -> Expr {
    Expr::List(items)
}

fn run(e: Expr) -> Result<Expr, LispError> {
    let mut env = Env::default();
    eval_expr(&e, &mut env)
}

fn run_script(forms: Vec<Expr>) -> Result<Expr, LispError> {
    let mut env = Env::default();
    eval_script(&forms, &mut env)
}

#[test]
fn shadowing_inner_scope_wins() {
    // (let (x 1) (let (x 2) x)) => 2
    let inner = list(vec![sym("let"), list(vec![sym("x"), num(2)]), sym("x")]);
    let form = list(vec![sym("let"), list(vec![sym("x"), num(1)]), inner]);
    assert_eq!(run(form), Ok(num(2)));
}

#[test]
fn shadowing_outer_value_restored() {
    // (let (x 1) (do (let (x 2) x) x)) => 1
    let inner = list(vec![sym("let"), list(vec![sym("x"), num(2)]), sym("x")]);
    let body = list(vec![sym("do"), inner, sym("x")]);
    let form = list(vec![sym("let"), list(vec![sym("x"), num(1)]), body]);
    assert_eq!(run(form), Ok(num(1)));
}

#[test]
fn def_visible_to_later_forms() {
    // (def x 5) then (+ x 1) => 6
    let forms = vec![
        list(vec![sym("def"), sym("x"), num(5)]),
        list(vec![sym("+"), sym("x"), num(1)]),
    ];
    assert_eq!(run_script(forms), Ok(num(6)));
}

#[test]
fn def_returns_symbol() {
    assert_eq!(run(list(vec![sym("def"), sym("x"), num(3)])), Ok(sym("x")));
}

#[test]
fn if_skips_untaken_branch() {
    // An undefined symbol in the untaken branch must not be evaluated.
    let t = list(vec![sym("if"), boolean(true), num(1), sym("nosuch")]);
    assert_eq!(run(t), Ok(num(1)));
    let f = list(vec![sym("if"), boolean(false), sym("nosuch"), num(2)]);
    assert_eq!(run(f), Ok(num(2)));
}

#[test]
fn if_requires_bool_and_three_args() {
    let bad = list(vec![sym("if"), num(5), num(1), num(2)]);
    assert_eq!(
        run(bad),
        Err(LispError::TypeMismatch(Type::Bool, num(5)))
    );
    let short = list(vec![sym("if"), boolean(true), num(1)]);
    assert_eq!(run(short), Err(LispError::Arity));
}

#[test]
fn fn_arity_enforced() {
    // (fn (a) (+ a 1) extra) => Arity
    let form = list(vec![
        sym("fn"),
        list(vec![sym("a")]),
        list(vec![sym("+"), sym("a"), num(1)]),
        sym("extra"),
    ]);
    assert_eq!(run(form), Err(LispError::Arity));
}

#[test]
fn quasiquote_plain_unchanged() {
    // (quasiquote 1 2 3) => (1 2 3), order preserved
    let form = list(vec![sym("quasiquote"), num(1), num(2), num(3)]);
    assert_eq!(run(form), Ok(list(vec![num(1), num(2), num(3)])));
}

#[test]
fn quasiquote_plain_nested_unchanged() {
    let form = list(vec![
        sym("quasiquote"),
        list(vec![num(1), num(2)]),
        text("s"),
    ]);
    assert_eq!(
        run(form),
        Ok(list(vec![list(vec![num(1), num(2)]), text("s")]))
    );
}

#[test]
fn splice_order_preserved() {
    // lst = (2 3); `(1 ,@lst 4)` => (1 2 3 4)
    let forms = vec![
        list(vec![
            sym("def"),
            sym("lst"),
            list(vec![sym("quote"), list(vec![num(2), num(3)])]),
        ]),
        list(vec![
            sym("quasiquote"),
            num(1),
            list(vec![sym("splice-unquote"), sym("lst")]),
            num(4),
        ]),
    ];
    assert_eq!(
        run_script(forms),
        Ok(list(vec![num(1), num(2), num(3), num(4)]))
    );
}

#[test]
fn splice_requires_innermost_binding() {
    // The splice target must be bound in the innermost scope's own
    // table; a top-level binding is not visible from a let body.
    let forms = vec![
        list(vec![
            sym("def"),
            sym("lst"),
            list(vec![sym("quote"), list(vec![num(2)])]),
        ]),
        list(vec![
            sym("let"),
            list(vec![sym("z"), num(1)]),
            list(vec![
                sym("quasiquote"),
                list(vec![sym("splice-unquote"), sym("lst")]),
            ]),
        ]),
    ];
    assert_eq!(
        run_script(forms),
        Err(LispError::SymbolNotFound("lst".to_string()))
    );
}

#[test]
fn splice_of_non_list_contributes_nothing() {
    let forms = vec![
        list(vec![sym("def"), sym("q"), num(5)]),
        list(vec![
            sym("quasiquote"),
            num(1),
            list(vec![sym("splice-unquote"), sym("q")]),
            num(2),
        ]),
    ];
    assert_eq!(run_script(forms), Ok(list(vec![num(1), num(2)])));
}

#[test]
fn unquote_substitutes_binding() {
    let forms = vec![
        list(vec![sym("def"), sym("x"), num(9)]),
        list(vec![
            sym("quasiquote"),
            sym("a"),
            list(vec![sym("unquote"), sym("x")]),
        ]),
    ];
    assert_eq!(run_script(forms), Ok(list(vec![sym("a"), num(9)])));
}

#[test]
fn unquote_unbound_left_literal() {
    let form = list(vec![
        sym("quasiquote"),
        list(vec![sym("unquote"), sym("zz")]),
    ]);
    assert_eq!(
        run(form),
        Ok(list(vec![list(vec![sym("unquote"), sym("zz")])]))
    );
}

#[test]
fn unquote_with_extra_payload_is_arity_error() {
    let form = list(vec![
        sym("quasiquote"),
        list(vec![sym("unquote"), sym("a"), sym("b")]),
    ]);
    assert_eq!(run(form), Err(LispError::Arity));
}

#[test]
fn macro_chain_fully_reduced() {
    // m1 expands to (m2); (m1) must be reduced through both macros.
    // m1 is defined first, so its body still names m2 when (m1) is
    // expanded at the use site.
    let forms = vec![
        list(vec![
            sym("def"),
            sym("m1"),
            list(vec![
                sym("macro"),
                list(vec![]),
                list(vec![sym("quote"), list(vec![sym("m2")])]),
            ]),
        ]),
        list(vec![
            sym("def"),
            sym("m2"),
            list(vec![sym("macro"), list(vec![]), num(42)]),
        ]),
        list(vec![sym("m1")]),
    ];
    assert_eq!(run_script(forms), Ok(num(42)));
}

#[test]
fn expand_all_idempotent_on_result() {
    let mut env = Env::default();
    let def_m = list(vec![
        sym("def"),
        sym("m"),
        list(vec![
            sym("macro"),
            list(vec![]),
            list(vec![sym("quote"), list(vec![sym("+"), num(1), num(2)])]),
        ]),
    ]);
    eval_expr(&def_m, &mut env).unwrap();
    let call = list(vec![sym("m")]);
    let once = expand_all(&call, &mut env, 1000).unwrap();
    let twice = expand_all(&once, &mut env, 1000).unwrap();
    assert_eq!(once, list(vec![sym("+"), num(1), num(2)]));
    assert_eq!(once, twice);
}

#[test]
fn expand_once_builtin_single_step() {
    // (m-expand1 (m1)) performs one step only: (m1) becomes (m2).
    let forms = vec![
        list(vec![
            sym("def"),
            sym("m1"),
            list(vec![
                sym("macro"),
                list(vec![]),
                list(vec![sym("quote"), list(vec![sym("m2")])]),
            ]),
        ]),
        list(vec![
            sym("def"),
            sym("m2"),
            list(vec![sym("macro"), list(vec![]), num(42)]),
        ]),
        list(vec![sym("m-expand1"), list(vec![sym("m1")])]),
    ];
    // Macro expansion of the whole form would reduce (m1) in place,
    // so drive the builtin through eval directly on an unexpanded tree.
    let mut env = Env::default();
    eval_expr(&forms[0], &mut env).unwrap();
    eval_expr(&forms[1], &mut env).unwrap();
    let r = eval(&forms[2], &mut env, 1000);
    assert_eq!(r, Ok(list(vec![sym("m2")])));
}

#[test]
fn macro_parameters_bind_unevaluated_forms() {
    // (addself e) expands to (+ e e).
    let forms = vec![
        list(vec![
            sym("def"),
            sym("addself"),
            list(vec![
                sym("macro"),
                list(vec![sym("e")]),
                list(vec![
                    sym("quasiquote"),
                    sym("+"),
                    list(vec![sym("unquote"), sym("e")]),
                    list(vec![sym("unquote"), sym("e")]),
                ]),
            ]),
        ]),
        list(vec![sym("addself"), num(21)]),
    ];
    assert_eq!(run_script(forms), Ok(num(42)));
}

#[test]
fn plus_type_mismatch_names_number() {
    // (+ 1 "a") => TypeMismatch with Number expected
    let form = list(vec![sym("+"), num(1), text("a")]);
    assert_eq!(
        run(form),
        Err(LispError::TypeMismatch(Type::Number, text("a")))
    );
}

#[test]
fn arithmetic_basics() {
    assert_eq!(run(list(vec![sym("+"), num(1), num(2), num(3)])), Ok(num(6)));
    assert_eq!(run(list(vec![sym("+")])), Ok(num(0)));
    assert_eq!(run(list(vec![sym("-"), num(10), num(1), num(2)])), Ok(num(7)));
    assert_eq!(run(list(vec![sym("-"), num(5)])), Ok(num(-5)));
    assert_eq!(run(list(vec![sym("-")])), Err(LispError::Arity));
    assert_eq!(run(list(vec![sym("*"), num(2), num(3), num(4)])), Ok(num(24)));
    assert_eq!(run(list(vec![sym("*")])), Ok(num(1)));
}

#[test]
fn division_truncates_toward_zero() {
    assert_eq!(run(list(vec![sym("/"), num(7), num(2)])), Ok(num(3)));
    assert_eq!(run(list(vec![sym("/"), num(-7), num(2)])), Ok(num(-3)));
    assert_eq!(run(list(vec![sym("/"), num(20), num(2), num(5)])), Ok(num(2)));
    assert_eq!(run(list(vec![sym("/")])), Err(LispError::Arity));
}

#[test]
fn division_by_zero_is_an_error() {
    assert_eq!(
        run(list(vec![sym("/"), num(1), num(0)])),
        Err(LispError::MalformedList(vec![num(1), num(0)]))
    );
}

#[test]
fn wrapping_addition() {
    assert_eq!(
        run(list(vec![sym("+"), num(i64::MAX), num(1)])),
        Ok(num(i64::MIN))
    );
}

#[test]
fn comparisons_are_chains() {
    assert_eq!(run(list(vec![sym("<"), num(1), num(2), num(3)])), Ok(boolean(true)));
    assert_eq!(run(list(vec![sym("<"), num(1), num(3), num(2)])), Ok(boolean(false)));
    assert_eq!(run(list(vec![sym("="), num(2), num(2), num(2)])), Ok(boolean(true)));
    assert_eq!(run(list(vec![sym("<="), num(1), num(1), num(2)])), Ok(boolean(true)));
    assert_eq!(run(list(vec![sym(">"), num(3), num(2), num(1)])), Ok(boolean(true)));
    assert_eq!(run(list(vec![sym(">="), num(3), num(4)])), Ok(boolean(false)));
    assert_eq!(run(list(vec![sym("<"), num(5)])), Ok(boolean(true)));
    assert_eq!(run(list(vec![sym("<")])), Ok(boolean(true)));
}

#[test]
fn not_and_and() {
    assert_eq!(run(list(vec![sym("not"), boolean(false)])), Ok(boolean(true)));
    assert_eq!(run(list(vec![sym("not"), boolean(true)])), Ok(boolean(false)));
    assert_eq!(
        run(list(vec![sym("not"), num(5)])),
        Err(LispError::TypeMismatch(Type::Bool, num(5)))
    );
    assert_eq!(run(list(vec![sym("not")])), Err(LispError::Arity));
    assert_eq!(
        run(list(vec![sym("and"), boolean(true), boolean(true)])),
        Ok(boolean(true))
    );
    assert_eq!(
        run(list(vec![sym("and"), boolean(true), boolean(false)])),
        Ok(boolean(false))
    );
    assert_eq!(run(list(vec![sym("and")])), Ok(boolean(true)));
    assert_eq!(
        run(list(vec![sym("and"), boolean(true), num(5)])),
        Err(LispError::TypeMismatch(Type::Bool, num(5)))
    );
}

#[test]
fn symbol_resolution_errors() {
    assert_eq!(
        run(sym("nosuch")),
        Err(LispError::SymbolNotFound("nosuch".to_string()))
    );
}

#[test]
fn quote_returns_argument_unevaluated() {
    assert_eq!(
        run(list(vec![sym("quote"), list(vec![sym("+"), num(1)])])),
        Ok(list(vec![sym("+"), num(1)]))
    );
    assert_eq!(run(list(vec![sym("quote")])), Err(LispError::Arity));
}

#[test]
fn malformed_lists() {
    assert_eq!(run(list(vec![])), Err(LispError::MalformedList(vec![])));
    assert_eq!(
        run(list(vec![num(1), num(2)])),
        Err(LispError::MalformedList(vec![num(1), num(2)]))
    );
}

#[test]
fn lambda_application() {
    let add = list(vec![
        sym("fn"),
        list(vec![sym("a"), sym("b")]),
        list(vec![sym("+"), sym("a"), sym("b")]),
    ]);
    assert_eq!(run(list(vec![add, num(1), num(2)])), Ok(num(3)));
}

#[test]
fn lambda_arity_mismatch() {
    let id = list(vec![sym("fn"), list(vec![sym("a")]), sym("a")]);
    assert_eq!(
        run(list(vec![id, num(1), num(2)])),
        Err(LispError::Arity)
    );
}

#[test]
fn lambda_free_variables_resolve_dynamically() {
    // The body's free variables are resolved in the caller's
    // environment chain, so a later definition is visible.
    let forms = vec![
        list(vec![sym("def"), sym("f"), list(vec![sym("fn"), list(vec![]), sym("y")])]),
        list(vec![sym("def"), sym("y"), num(7)]),
        list(vec![sym("f")]),
    ];
    assert_eq!(run_script(forms), Ok(num(7)));
}

#[test]
fn let_later_bindings_see_earlier_ones() {
    let form = list(vec![
        sym("let"),
        list(vec![sym("a"), num(1), sym("b"), list(vec![sym("+"), sym("a"), num(1)])]),
        list(vec![sym("+"), sym("a"), sym("b")]),
    ]);
    assert_eq!(run(form), Ok(num(3)));
}

#[test]
fn let_shape_errors() {
    let odd = list(vec![
        sym("let"),
        list(vec![sym("a"), num(1), sym("b")]),
        num(5),
    ]);
    assert_eq!(run(odd), Err(LispError::Arity));
    let not_list = list(vec![sym("let"), num(5), num(6)]);
    assert_eq!(run(not_list), Err(LispError::TypeMismatch(Type::List, num(5))));
    let bad_name = list(vec![sym("let"), list(vec![num(5), num(1)]), num(2)]);
    assert_eq!(run(bad_name), Err(LispError::TypeMismatch(Type::Symbol, num(5))));
}

#[test]
fn def_shape_errors() {
    assert_eq!(
        run(list(vec![sym("def"), num(5), num(1)])),
        Err(LispError::TypeMismatch(Type::Symbol, num(5)))
    );
    assert_eq!(run(list(vec![sym("def"), sym("x")])), Err(LispError::Arity));
    assert_eq!(
        run(list(vec![sym("def"), sym("x"), num(1), num(2)])),
        Err(LispError::Arity)
    );
}

#[test]
fn do_sequences_and_scopes() {
    let form = list(vec![
        sym("do"),
        list(vec![sym("def"), sym("a"), num(1)]),
        list(vec![sym("+"), sym("a"), num(1)]),
    ]);
    assert_eq!(run(form), Ok(num(2)));
    // Definitions inside do live in its child scope only.
    let forms = vec![
        list(vec![sym("do"), list(vec![sym("def"), sym("a"), num(5)]), sym("a")]),
        sym("a"),
    ];
    assert_eq!(
        run_script(forms),
        Err(LispError::SymbolNotFound("a".to_string()))
    );
}

#[test]
fn redefinition_overwrites() {
    let forms = vec![
        list(vec![sym("def"), sym("x"), num(1)]),
        list(vec![sym("def"), sym("x"), num(2)]),
        sym("x"),
    ];
    assert_eq!(run_script(forms), Ok(num(2)));
}

#[test]
fn atoms_self_evaluate() {
    assert_eq!(run(num(5)), Ok(num(5)));
    assert_eq!(run(boolean(true)), Ok(boolean(true)));
    assert_eq!(run(text("hi")), Ok(text("hi")));
}

#[test]
fn expand_once_of_non_macro_returns_argument() {
    assert_eq!(run(list(vec![sym("m-expand1"), num(5)])), Ok(num(5)));
}

#[test]
fn fuel_runs_out_with_dedicated_error() {
    let mut env = Env::default();
    let form = list(vec![sym("quote"), num(1)]);
    assert_eq!(eval(&form, &mut env, 1), Err(LispError::DepthExceeded));
}

#[test]
fn empty_script_is_an_arity_error() {
    assert_eq!(run_script(vec![]), Err(LispError::Arity));
}

#[test]
fn environment_lookup_walks_the_chain() {
    let env = Env::default();
    assert!(matches!(env.get("+"), Some(Expr::NativeProc(_))));
    assert!(env.get("nosuch").is_none());
}
