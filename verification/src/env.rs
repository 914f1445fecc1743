//! The environment: a stack of scopes, each a table from symbol name
//! to expression.  Lookup starts at the innermost scope and walks
//! outward; the first match wins (shadowing).  `define` touches only
//! the innermost scope.  Viewed mathematically, an environment is a
//! sequence of maps, innermost last.

use vstd::prelude::*;

use crate::expr::{clone_expr, vexpr, Expr, ExprV};

verus! {

/// A chain of scopes, innermost last.  Each scope is an association
/// list scanned from its end, so a later binding for the same name
/// shadows an earlier one, which makes the scope a map.
pub struct Env {
    scopes: Vec<Vec<(String, Expr)>>,
}

/// The view of one scope: later entries override earlier ones.
pub open spec fn vscope(s: Seq<(String, Expr)>) -> Map<Seq<char>, ExprV>
    decreases s,
{
    if s.len() == 0 {
        Map::empty()
    } else {
        vscope(s.drop_last()).insert(s.last().0@, vexpr(s.last().1))
    }
}

/// The view of a whole environment: a sequence of maps, innermost last.
pub open spec fn vscopes(ss: Seq<Vec<(String, Expr)>>) -> Seq<Map<Seq<char>, ExprV>> {
    Seq::new(ss.len(), |i: int| vscope(ss[i]@))
}

impl View for Env {
    type V = Seq<Map<Seq<char>, ExprV>>;

    closed spec fn view(&self) -> Seq<Map<Seq<char>, ExprV>> {
        vscopes(self.scopes@)
    }
}

/// Lookup walks the chain from the innermost scope outward and takes
/// the first scope that binds the name.
pub open spec fn env_lookup(env: Seq<Map<Seq<char>, ExprV>>, k: Seq<char>) -> Option<ExprV>
    decreases env.len(),
{
    if env.len() == 0 {
        None
    } else if env.last().contains_key(k) {
        Some(env.last()[k])
    } else {
        env_lookup(env.drop_last(), k)
    }
}

/// The environment after a mutation of the innermost scope only.
pub open spec fn upd_last(
    env: Seq<Map<Seq<char>, ExprV>>,
    m: Map<Seq<char>, ExprV>,
) -> Seq<Map<Seq<char>, ExprV>> {
    env.update(env.len() - 1, m)
}

pub broadcast proof fn lemma_upd_last_id(env: Seq<Map<Seq<char>, ExprV>>)
    requires
        env.len() >= 1,
    ensures
        #[trigger] upd_last(env, env.last()) == env,
{
    assert(upd_last(env, env.last()) =~= env);
}

pub broadcast proof fn lemma_upd_last_twice(
    env: Seq<Map<Seq<char>, ExprV>>,
    m1: Map<Seq<char>, ExprV>,
    m2: Map<Seq<char>, ExprV>,
)
    requires
        env.len() >= 1,
    ensures
        #[trigger] upd_last(upd_last(env, m1), m2) == upd_last(env, m2),
{
    assert(upd_last(upd_last(env, m1), m2) =~= upd_last(env, m2));
}

pub broadcast proof fn lemma_upd_last_push_drop(
    env: Seq<Map<Seq<char>, ExprV>>,
    frame: Map<Seq<char>, ExprV>,
    m: Map<Seq<char>, ExprV>,
)
    ensures
        #[trigger] upd_last(env.push(frame), m).drop_last() == env,
{
    assert(upd_last(env.push(frame), m).drop_last() =~= env);
}

/// Relies on `str::eq` (through `==` on two `&str`): string slices
/// are equal exactly when they consist of the same characters.
#[verifier::external_body]
pub(crate) fn str_eq(a: &str, b: &str) -> (r: bool)
    ensures
        r == (a@ == b@),
{
    a == b
}

/// Scan one scope from its end; the first hit is the map's value.
fn scope_get(scope: &Vec<(String, Expr)>, k: &str) -> (r: Option<Expr>)
    ensures
        match r {
            Some(v) => vscope(scope@).contains_key(k@) && vscope(scope@)[k@] == v@,
            None => !vscope(scope@).contains_key(k@),
        },
{
    let mut i: usize = scope.len();
    proof {
        assert(scope@.take(i as int) =~= scope@);
    }
    while i > 0
        invariant
            i <= scope.len(),
            vscope(scope@.take(i as int)).contains_key(k@) == vscope(scope@).contains_key(k@),
            vscope(scope@.take(i as int)).contains_key(k@) ==> vscope(scope@.take(i as int))[k@]
                == vscope(scope@)[k@],
        decreases i,
    {
        proof {
            assert(scope@.take(i as int).drop_last() =~= scope@.take(i as int - 1));
            assert(scope@.take(i as int).last() == scope@[i as int - 1]);
        }
        i = i - 1;
        if str_eq(scope[i].0.as_str(), k) {
            let v = clone_expr(&scope[i].1);
            return Some(v);
        }
    }
    proof {
        assert(scope@.take(0) =~= Seq::<(String, Expr)>::empty());
    }
    None
}

impl Env {
    /// An environment is well formed when the chain is nonempty; the
    /// outermost scope is the top-level one.
    pub open spec fn wf(&self) -> bool {
        self@.len() >= 1
    }

    /// A fresh environment holding a single empty top-level scope.
    pub fn empty() -> (e: Env)
        ensures
            e.wf(),
            e@ == seq![Map::<Seq<char>, ExprV>::empty()],
    {
        let mut scopes: Vec<Vec<(String, Expr)>> = Vec::new();
        scopes.push(Vec::new());
        let e = Env { scopes };
        proof {
            assert(e@ =~= seq![Map::<Seq<char>, ExprV>::empty()]);
        }
        e
    }

    /// Returns a copy of the binding for `k`, searching the chain
    /// innermost to outermost; `None` if absent everywhere.
    pub fn get(&self, k: &str) -> (r: Option<Expr>)
        ensures
            match r {
                Some(v) => env_lookup(self@, k@) == Some(v@),
                None => env_lookup(self@, k@) is None,
            },
    {
        let mut j: usize = self.scopes.len();
        proof {
            assert(self@.take(j as int) =~= self@);
        }
        while j > 0
            invariant
                j <= self.scopes@.len(),
                env_lookup(self@, k@) == env_lookup(self@.take(j as int), k@),
            decreases j,
        {
            proof {
                assert(self@.take(j as int).drop_last() =~= self@.take(j as int - 1));
                assert(self@.take(j as int).last() == vscope(self.scopes@[j as int - 1]@));
            }
            j = j - 1;
            match scope_get(&self.scopes[j], k) {
                Some(v) => {
                    return Some(v);
                },
                None => {},
            }
        }
        proof {
            assert(self@.take(0) =~= Seq::<Map<Seq<char>, ExprV>>::empty());
        }
        None
    }

    /// Returns a copy of the binding for `k` in the innermost scope's
    /// own table only; outer scopes are not consulted.
    pub fn get_local(&self, k: &str) -> (r: Option<Expr>)
        requires
            self.wf(),
        ensures
            match r {
                Some(v) => self@.last().contains_key(k@) && self@.last()[k@] == v@,
                None => !self@.last().contains_key(k@),
            },
    {
        scope_get(&self.scopes[self.scopes.len() - 1], k)
    }

    /// Inserts or overwrites a binding in the innermost scope only.
    pub fn define(&mut self, k: String, v: Expr)
        requires
            old(self).wf(),
        ensures
            final(self).wf(),
            final(self)@ == upd_last(old(self)@, old(self)@.last().insert(k@, v@)),
    {
        let ghost n = self.scopes@.len() as int;
        let ghost old_scope = self.scopes@[n - 1]@;
        let mut top = self.scopes.pop().unwrap();
        top.push((k, v));
        proof {
            assert(top@.drop_last() =~= old_scope);
        }
        self.scopes.push(top);
        proof {
            assert(self@ =~= upd_last(old(self)@, old(self)@.last().insert(k@, v@)));
        }
    }

    /// Enters a new scope whose bindings are given as a table.
    pub fn push_scope(&mut self, scope: Vec<(String, Expr)>)
        ensures
            final(self).wf(),
            final(self)@ == old(self)@.push(vscope(scope@)),
    {
        self.scopes.push(scope);
        proof {
            assert(self@ =~= old(self)@.push(vscope(scope@)));
        }
    }

    /// Leaves the innermost scope, dropping its bindings.
    pub fn pop_scope(&mut self)
        requires
            old(self)@.len() >= 2,
        ensures
            final(self).wf(),
            final(self)@ == old(self)@.drop_last(),
    {
        let _ = self.scopes.pop();
        proof {
            assert(self@ =~= old(self)@.drop_last());
        }
    }
}

} // verus!
