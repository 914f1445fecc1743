//! The expression data model: the one tagged union shared by parser
//! output, evaluator input and evaluator output (code is data), the
//! error taxonomy, and the mathematical view of both.

use std::rc::Rc;
use vstd::prelude::*;

verus! {

/// The type tags named by type-mismatch errors.
#[derive(Clone, Copy, Debug, PartialEq, Eq, Structural)]
pub enum Type {
    Symbol,
    Number,
    Bool,
    List,
}

/// The built-in procedures seeded into the default environment.
/// A `NativeProc` value is opaque and immutable; evaluating a list
/// whose head resolves to one dispatches here.
#[derive(Clone, Copy, Debug, PartialEq, Eq, Structural)]
pub enum Builtin {
    CmpEq,
    CmpLt,
    CmpGt,
    CmpLe,
    CmpGe,
    Add,
    Sub,
    Mul,
    Div,
    Not,
    And,
    ExpandOnce,
    Quote,
    Quasiquote,
    Def,
    If,
    Do,
    MkLambda,
    MkMacro,
    Let,
}

/// A user-defined callable: a body and a parameter list, both shared
/// (reference-counted) expression trees.  `Lambda` values are applied,
/// `Macro` values are expanded; the shape is the same.
#[derive(Debug, PartialEq)]
pub struct Proc {
    pub body: Rc<Expr>,
    pub bindings: Rc<Expr>,
}

/// An expression: parser output, evaluator input and evaluator output.
#[derive(Debug, PartialEq)]
pub enum Expr {
    /// An identifier, resolved by environment lookup when evaluated.
    Symbol(String),
    /// A numeric literal; arithmetic is 64-bit wrapping arithmetic.
    Number(i64),
    /// A boolean literal, self-evaluating.
    Bool(bool),
    /// A string literal, self-evaluating.
    Text(String),
    /// The only compound form; evaluation dispatches on the head.
    List(Vec<Expr>),
    /// A built-in procedure, self-evaluating.
    NativeProc(Builtin),
    /// A user-defined procedure, applied to eagerly evaluated arguments.
    Lambda(Proc),
    /// A user-defined macro, expanded against unevaluated arguments.
    Macro(Proc),
}

/// The mathematical shape of an expression: sequences for lists,
/// sequences of characters for names and strings.
pub enum ExprV {
    Symbol(Seq<char>),
    Number(i64),
    Bool(bool),
    Text(Seq<char>),
    List(Seq<ExprV>),
    NativeProc(Builtin),
    Lambda { body: Box<ExprV>, bindings: Box<ExprV> },
    Macro { body: Box<ExprV>, bindings: Box<ExprV> },
}

/// Errors are terminal for the form being evaluated: they propagate
/// through every recursive call and are returned to the host.
#[derive(Debug, PartialEq)]
pub enum LispError {
    /// Expected type versus the actual value produced.
    TypeMismatch(Type, Expr),
    /// A symbol not bound anywhere in the environment chain.
    SymbolNotFound(String),
    /// A list form that matches no evaluable shape.
    MalformedList(Vec<Expr>),
    /// Wrong number of forms for the construct being evaluated.
    Arity,
    /// The step budget ran out before evaluation finished.
    DepthExceeded,
}

/// The mathematical shape of an error.
pub enum ErrV {
    TypeMismatch(Type, ExprV),
    SymbolNotFound(Seq<char>),
    MalformedList(Seq<ExprV>),
    Arity,
    DepthExceeded,
}

pub open spec fn vexpr(e: Expr) -> ExprV
    decreases e,
{
    match e {
        Expr::Symbol(s) => ExprV::Symbol(s@),
        Expr::Number(n) => ExprV::Number(n),
        Expr::Bool(b) => ExprV::Bool(b),
        Expr::Text(s) => ExprV::Text(s@),
        Expr::List(es) => ExprV::List(vexprs(es@)),
        Expr::NativeProc(b) => ExprV::NativeProc(b),
        Expr::Lambda(p) => ExprV::Lambda {
            body: Box::new(vexpr(*p.body)),
            bindings: Box::new(vexpr(*p.bindings)),
        },
        Expr::Macro(p) => ExprV::Macro {
            body: Box::new(vexpr(*p.body)),
            bindings: Box::new(vexpr(*p.bindings)),
        },
    }
}

pub open spec fn vexprs(s: Seq<Expr>) -> Seq<ExprV>
    decreases s,
{
    if s.len() == 0 {
        Seq::empty()
    } else {
        vexprs(s.drop_last()).push(vexpr(s.last()))
    }
}

impl View for Expr {
    type V = ExprV;

    open spec fn view(&self) -> ExprV {
        vexpr(*self)
    }
}

pub open spec fn verr(e: LispError) -> ErrV {
    match e {
        LispError::TypeMismatch(t, x) => ErrV::TypeMismatch(t, vexpr(x)),
        LispError::SymbolNotFound(s) => ErrV::SymbolNotFound(s@),
        LispError::MalformedList(es) => ErrV::MalformedList(vexprs(es@)),
        LispError::Arity => ErrV::Arity,
        LispError::DepthExceeded => ErrV::DepthExceeded,
    }
}

impl View for LispError {
    type V = ErrV;

    open spec fn view(&self) -> ErrV {
        verr(*self)
    }
}

/// The view of an evaluation outcome.
pub open spec fn res_view(r: Result<Expr, LispError>) -> Result<ExprV, ErrV> {
    match r {
        Ok(v) => Ok(vexpr(v)),
        Err(e) => Err(verr(e)),
    }
}

pub broadcast proof fn lemma_vexprs_index(s: Seq<Expr>)
    ensures
        (#[trigger] vexprs(s)).len() == s.len(),
        forall|i: int| 0 <= i < s.len() ==> vexprs(s)[i] == vexpr(s[i]),
    decreases s.len(),
{
    if s.len() > 0 {
        lemma_vexprs_index(s.drop_last());
        assert forall|i: int| 0 <= i < s.len() implies vexprs(s)[i] == vexpr(s[i]) by {
            if i < s.len() - 1 {
                assert(vexprs(s)[i] == vexprs(s.drop_last())[i]);
                assert(s.drop_last()[i] == s[i]);
            } else {
                assert(s.last() == s[i]);
            }
        }
    }
}

pub broadcast proof fn lemma_vexprs_push(s: Seq<Expr>, e: Expr)
    ensures
        #[trigger] vexprs(s.push(e)) == vexprs(s).push(vexpr(e)),
{
    assert(s.push(e).drop_last() =~= s);
    assert(s.push(e).last() == e);
}

/// Structural copy of an expression; the view is unchanged.
pub fn clone_expr(e: &Expr) -> (r: Expr)
    ensures
        r@ == e@,
    decreases *e,
{
    match e {
        Expr::Symbol(s) => Expr::Symbol(s.clone()),
        Expr::Number(n) => Expr::Number(*n),
        Expr::Bool(b) => Expr::Bool(*b),
        Expr::Text(s) => Expr::Text(s.clone()),
        Expr::List(es) => Expr::List(clone_exprs(es)),
        Expr::NativeProc(b) => Expr::NativeProc(*b),
        Expr::Lambda(p) => Expr::Lambda(clone_proc(p)),
        Expr::Macro(p) => Expr::Macro(clone_proc(p)),
    }
}

/// Relies on `Rc::clone`: the new handle refers to the same shared
/// value, so the tree is shared rather than copied.
#[verifier::external_body]
fn share_expr(rc: &Rc<Expr>) -> (r: Rc<Expr>)
    ensures
        *r == **rc,
{
    Rc::clone(rc)
}

fn clone_proc(p: &Proc) -> (r: Proc)
    ensures
        vexpr(*r.body) == vexpr(*p.body),
        vexpr(*r.bindings) == vexpr(*p.bindings),
{
    Proc { body: share_expr(&p.body), bindings: share_expr(&p.bindings) }
}

/// Structural copy of a vector of expressions; the views are unchanged.
pub fn clone_exprs(es: &Vec<Expr>) -> (r: Vec<Expr>)
    ensures
        vexprs(r@) == vexprs(es@),
        r@.len() == es@.len(),
    decreases es@,
{
    let mut out: Vec<Expr> = Vec::new();
    let mut i: usize = 0;
    while i < es.len()
        invariant
            i <= es.len(),
            vexprs(out@) == vexprs(es@.take(i as int)),
            out@.len() == i,
        decreases es.len() - i,
    {
        let c = clone_expr(&es[i]);
        proof {
            lemma_vexprs_push(out@, c);
            lemma_vexprs_push(es@.take(i as int), es@[i as int]);
            assert(es@.take(i as int).push(es@[i as int]) =~= es@.take(i as int + 1));
        }
        out.push(c);
        i = i + 1;
    }
    proof {
        assert(es@.take(es@.len() as int) =~= es@);
    }
    out
}

} // verus!
