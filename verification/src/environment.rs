use crate::token::Token;
use crate::value::{Value, ValueModel};
use vstd::prelude::*;

verus! {

/// One lexical scope: the bindings made in it, oldest first. A name bound
/// twice in the same scope keeps both entries; the later one, being nearer
/// the end, wins every lookup, so a redefinition overwrites.
pub type ScopeModel = Seq<(Seq<char>, ValueModel)>;

/// A chain of nested scopes, outermost (global) first, innermost last.
pub type EnvModel = Seq<ScopeModel>;

/// The value bound to `name` among the first `j` entries of a scope: the
/// latest such binding wins.
pub open spec fn scope_lookup_upto(scope: ScopeModel, j: int, name: Seq<char>) -> Option<
    ValueModel,
>
    decreases j,
{
    if j <= 0 {
        Option::None
    } else if scope[j - 1].0 == name {
        Option::Some(scope[j - 1].1)
    } else {
        scope_lookup_upto(scope, j - 1, name)
    }
}

/// The value bound to `name` in a scope.
pub open spec fn scope_lookup(scope: ScopeModel, name: Seq<char>) -> Option<ValueModel> {
    scope_lookup_upto(scope, scope.len() as int, name)
}

/// The value bound to `name` in the innermost of the first `i` scopes
/// that binds it.
pub open spec fn env_lookup_from(env: EnvModel, i: int, name: Seq<char>) -> Option<ValueModel>
    decreases i,
{
    if i <= 0 {
        Option::None
    } else {
        match scope_lookup(env[i - 1], name) {
            Option::Some(v) => Option::Some(v),
            Option::None => env_lookup_from(env, i - 1, name),
        }
    }
}

/// The value bound to `name` in the nearest enclosing scope that binds it.
pub open spec fn env_lookup(env: EnvModel, name: Seq<char>) -> Option<ValueModel> {
    env_lookup_from(env, env.len() as int, name)
}

/// The environment after `define`: the binding is added to the innermost
/// scope, shadowing (not touching) any binding of the name elsewhere.
pub open spec fn env_define(env: EnvModel, name: Seq<char>, v: ValueModel) -> EnvModel {
    env.update(env.len() - 1, env.last().push((name, v)))
}

/// The scope after assignment to its latest binding of `name` among the
/// first `j` entries; `None` when no such binding exists.
pub open spec fn scope_assign_upto(scope: ScopeModel, j: int, name: Seq<char>, v: ValueModel) -> Option<
    ScopeModel,
>
    decreases j,
{
    if j <= 0 {
        Option::None
    } else if scope[j - 1].0 == name {
        Option::Some(scope.update(j - 1, (name, v)))
    } else {
        scope_assign_upto(scope, j - 1, name, v)
    }
}

/// The scope after assignment to its latest binding of `name`.
pub open spec fn scope_assign(scope: ScopeModel, name: Seq<char>, v: ValueModel) -> Option<
    ScopeModel,
> {
    scope_assign_upto(scope, scope.len() as int, name, v)
}

/// The environment after assignment to the binding of `name` in the
/// innermost of the first `i` scopes that has one; `None` when none has.
pub open spec fn env_assign_from(env: EnvModel, i: int, name: Seq<char>, v: ValueModel) -> Option<
    EnvModel,
>
    decreases i,
{
    if i <= 0 {
        Option::None
    } else {
        match scope_assign(env[i - 1], name, v) {
            Option::Some(s) => Option::Some(env.update(i - 1, s)),
            Option::None => env_assign_from(env, i - 1, name, v),
        }
    }
}

/// The environment after assignment to the nearest binding of `name`;
/// `None` when no scope binds it (the environment is then unchanged).
pub open spec fn env_assign(env: EnvModel, name: Seq<char>, v: ValueModel) -> Option<EnvModel> {
    env_assign_from(env, env.len() as int, name, v)
}

/// In a scope, assignment succeeds exactly where lookup does.
pub proof fn lemma_scope_assign_lookup(scope: ScopeModel, j: int, name: Seq<char>, v: ValueModel)
    ensures
        scope_assign_upto(scope, j, name, v) is Some <==> scope_lookup_upto(scope, j, name) is Some,
    decreases j,
{
    if j > 0 && scope[j - 1].0 != name {
        lemma_scope_assign_lookup(scope, j - 1, name, v);
    }
}

/// In an environment, assignment succeeds exactly where lookup does.
pub proof fn lemma_env_assign_lookup(env: EnvModel, i: int, name: Seq<char>, v: ValueModel)
    ensures
        env_assign_from(env, i, name, v) is Some <==> env_lookup_from(env, i, name) is Some,
    decreases i,
{
    if i > 0 {
        lemma_scope_assign_lookup(env[i - 1], env[i - 1].len() as int, name, v);
        if scope_lookup(env[i - 1], name) is None {
            lemma_env_assign_lookup(env, i - 1, name, v);
        }
    }
}

/// A mutable mapping from names to values, organized as a stack of lexical
/// scopes: the first scope is the global one, one more is pushed for each
/// entered block and popped on the way out. Lookup and assignment walk from
/// the innermost scope outward; definition always works on the innermost.
pub struct Environment {
    scopes: Vec<Vec<(String, Value)>>,
}

impl View for Environment {
    type V = EnvModel;

    closed spec fn view(&self) -> EnvModel {
        self.scopes@.map(
            |i: int, scope: Vec<(String, Value)>|
                scope@.map(|j: int, entry: (String, Value)| (entry.0@, entry.1@)),
        )
    }
}

impl Environment {
    /// A well-formed environment has at least its global scope.
    pub open spec fn well_formed(&self) -> bool {
        self@.len() >= 1
    }

    /// A fresh environment: one empty global scope.
    pub fn new() -> (r: Environment)
        ensures
            r.well_formed(),
            r@ == seq![Seq::<(Seq<char>, ValueModel)>::empty()],
    {
        let mut scopes: Vec<Vec<(String, Value)>> = Vec::new();
        scopes.push(Vec::new());
        let r = Environment { scopes };
        proof {
            assert(r@ =~~= seq![Seq::<(Seq<char>, ValueModel)>::empty()]);
        }
        r
    }

    /// Enter a block: push a fresh innermost scope.
    pub fn push_scope(&mut self)
        requires
            old(self).well_formed(),
        ensures
            final(self).well_formed(),
            final(self)@ == old(self)@.push(Seq::<(Seq<char>, ValueModel)>::empty()),
    {
        self.scopes.push(Vec::new());
        proof {
            assert(self@ =~~= old(self)@.push(Seq::<(Seq<char>, ValueModel)>::empty()));
        }
    }

    /// Leave a block: drop the innermost scope, restoring the enclosing one.
    pub fn pop_scope(&mut self)
        requires
            old(self).well_formed(),
            old(self)@.len() >= 2,
        ensures
            final(self).well_formed(),
            final(self)@ == old(self)@.drop_last(),
    {
        let _ = self.scopes.pop();
        proof {
            assert(self@ =~~= old(self)@.drop_last());
        }
    }

    /// Bind `name` to `value` in the innermost scope. Always succeeds;
    /// a name already bound there is overwritten (its new binding shadows
    /// the old at every lookup), and bindings in enclosing scopes are
    /// untouched.
    pub fn define(&mut self, name: &str, value: Value)
        requires
            old(self).well_formed(),
        ensures
            final(self).well_formed(),
            final(self)@ == env_define(old(self)@, name@, value@),
    {
        let n = self.scopes.len();
        let scope = &mut self.scopes[n - 1];
        scope.push((name.to_owned(), value));
        proof {
            assert(self@ =~~= env_define(old(self)@, name@, value@));
        }
    }

    /// Look `name` up, walking from the innermost scope outward; `None`
    /// when no scope binds it.
    pub fn get(&self, name: &Token) -> (r: Option<Value>)
        requires
            self.well_formed(),
        ensures
            match r {
                Option::Some(v) => env_lookup(self@, name@.lexeme) == Option::Some(v@),
                Option::None => env_lookup(self@, name@.lexeme) is None,
            },
    {
        let ghost env = self@;
        let ghost target = name@.lexeme;
        let mut i = self.scopes.len();
        while i > 0
            invariant
                i <= self.scopes@.len(),
                env == self@,
                target == name@.lexeme,
                env_lookup(env, target) == env_lookup_from(env, i as int, target),
            decreases i,
        {
            let scope = &self.scopes[i - 1];
            let ghost scope_model = env[i - 1];
            let mut j = scope.len();
            while j > 0
                invariant
                    j <= scope@.len(),
                    scope_model == env[i as int - 1],
                    0 < i <= self.scopes@.len(),
                    env == self@,
                    target == name@.lexeme,
                    scope_model == scope@.map(
                        |k: int, entry: (String, Value)| (entry.0@, entry.1@),
                    ),
                    env_lookup(env, target) == env_lookup_from(env, i as int, target),
                    scope_lookup(scope_model, target) == scope_lookup_upto(
                        scope_model,
                        j as int,
                        target,
                    ),
                decreases j,
            {
                let entry = &scope[j - 1];
                if entry.0.eq(&name.lexeme) {
                    proof {
                        assert(scope_model[j as int - 1] == (entry.0@, entry.1@));
                        assert(scope_lookup_upto(scope_model, j as int, target)
                            == Option::Some(entry.1@));
                        assert(env_lookup_from(env, i as int, target) == Option::Some(entry.1@));
                    }
                    return Option::Some(entry.1.duplicate());
                }
                j = j - 1;
            }
            i = i - 1;
        }
        Option::None
    }

    /// Assign `value` to the binding of `name` in the nearest enclosing
    /// scope that already has one, and return the value it replaced;
    /// when no scope binds the name, change nothing and return `None` —
    /// assignment never creates a binding.
    pub fn assign(&mut self, name: &Token, value: Value) -> (r: Option<Value>)
        requires
            old(self).well_formed(),
        ensures
            final(self).well_formed(),
            final(self)@.len() == old(self)@.len(),
            match r {
                Option::Some(prev) => {
                    &&& env_lookup(old(self)@, name@.lexeme) == Option::Some(prev@)
                    &&& env_assign(old(self)@, name@.lexeme, value@) == Option::Some(final(self)@)
                },
                Option::None => {
                    &&& env_lookup(old(self)@, name@.lexeme) is None
                    &&& env_assign(old(self)@, name@.lexeme, value@) is None
                    &&& final(self)@ == old(self)@
                },
            },
    {
        let ghost env = old(self)@;
        let ghost target = name@.lexeme;
        let ghost val = value@;
        let mut i = self.scopes.len();
        while i > 0
            invariant
                i <= self.scopes@.len(),
                env == old(self)@,
                self@ == env,
                self.scopes@.len() >= 1,
                target == name@.lexeme,
                val == value@,
                env_lookup(env, target) == env_lookup_from(env, i as int, target),
                env_assign(env, target, val) == env_assign_from(env, i as int, target, val),
            decreases i,
        {
            let ghost scope_model = env[i - 1];
            let scope_len = self.scopes[i - 1].len();
            let mut j = scope_len;
            while j > 0
                invariant
                    j <= scope_len == scope_model.len(),
                    scope_model == env[i as int - 1],
                    0 < i <= self.scopes@.len(),
                    env == old(self)@,
                    self@ == env,
                    self.scopes@.len() >= 1,
                    target == name@.lexeme,
                    val == value@,
                    env_lookup(env, target) == env_lookup_from(env, i as int, target),
                    env_assign(env, target, val) == env_assign_from(env, i as int, target, val),
                    scope_lookup(scope_model, target) == scope_lookup_upto(
                        scope_model,
                        j as int,
                        target,
                    ),
                    scope_assign(scope_model, target, val) == scope_assign_upto(
                        scope_model,
                        j as int,
                        target,
                        val,
                    ),
                decreases j,
            {
                let ghost entry_model = scope_model[j as int - 1];
                let hit = {
                    let entry = &self.scopes[i - 1][j - 1];
                    proof {
                        assert(entry_model == (entry.0@, entry.1@));
                    }
                    entry.0.eq(&name.lexeme)
                };
                if hit {
                    let scope = &mut self.scopes[i - 1];
                    let prev = scope[j - 1].1.duplicate();
                    scope[j - 1] = (name.lexeme.clone(), value);
                    proof {
                        assert(entry_model.0 == target);
                        assert(scope_lookup_upto(scope_model, j as int, target)
                            == Option::Some(entry_model.1));
                        assert(env_lookup_from(env, i as int, target)
                            == Option::Some(entry_model.1));
                        assert(prev@ == entry_model.1);
                        assert(scope_assign_upto(scope_model, j as int, target, val)
                            == Option::Some(scope_model.update(j as int - 1, (target, val))));
                        assert(env_assign_from(env, i as int, target, val) == Option::Some(
                            env.update(
                                i as int - 1,
                                scope_model.update(j as int - 1, (target, val)),
                            ),
                        ));
                        assert(self@ =~~= env.update(
                            i as int - 1,
                            scope_model.update(j as int - 1, (target, val)),
                        ));
                    }
                    return Option::Some(prev);
                }
                j = j - 1;
            }
            i = i - 1;
        }
        Option::None
    }
}

} // verus!
