//! The environment: a stack of scopes, the innermost last.

use crate::interpreter::error::{RuntimeError, RuntimeErrorView};
use crate::literal::{Literal, Value};
use vstd::prelude::*;

verus! {

/// What a name is bound to.
pub struct Variable {
    value: Literal,
    mutable: bool,
}

/// The mathematical model of a [`Variable`].
pub struct VariableView {
    pub value: Value,
    pub mutable: bool,
}

impl View for Variable {
    type V = VariableView;

    closed spec fn view(&self) -> VariableView {
        VariableView { value: self.value@, mutable: self.mutable }
    }
}

/// The mathematical model of a scope: its names and what they are bound to.
pub type ScopeView = Map<Seq<char>, VariableView>;

/// The binding that `name` resolves to: that of the innermost scope that
/// holds the name.
pub open spec fn lookup(scopes: Seq<ScopeView>, name: Seq<char>) -> Option<VariableView>
    decreases scopes.len(),
{
    if scopes.len() == 0 {
        None
    } else if scopes.last().contains_key(name) {
        Some(scopes.last()[name])
    } else {
        lookup(scopes.drop_last(), name)
    }
}

/// The scopes after `value` is stored in the binding that `name` resolves
/// to; nothing else changes, the binding's mutability included.
pub open spec fn assigned(scopes: Seq<ScopeView>, name: Seq<char>, value: Value) -> Seq<ScopeView>
    decreases scopes.len(),
{
    if scopes.len() == 0 {
        scopes
    } else if scopes.last().contains_key(name) {
        scopes.update(
            scopes.len() - 1,
            scopes.last().insert(
                name,
                VariableView { value, mutable: scopes.last()[name].mutable },
            ),
        )
    } else {
        assigned(scopes.drop_last(), name, value).push(scopes.last())
    }
}

/// The scopes after `name` is declared in the innermost one, replacing what
/// that scope held for the name.
pub open spec fn declared(
    scopes: Seq<ScopeView>,
    name: Seq<char>,
    value: Value,
    mutable: bool,
) -> Seq<ScopeView> {
    scopes.update(scopes.len() - 1, scopes.last().insert(name, VariableView { value, mutable }))
}

/// The scopes with an empty one added as the innermost.
pub open spec fn pushed(scopes: Seq<ScopeView>) -> Seq<ScopeView> {
    scopes.push(Map::empty())
}

/// The scopes without the innermost one; the global scope always stays.
pub open spec fn popped(scopes: Seq<ScopeView>) -> Seq<ScopeView> {
    if scopes.len() > 1 {
        scopes.drop_last()
    } else {
        scopes
    }
}

/// A name looked up behind scopes that do not hold it is looked up in the
/// scope `k` that does.
pub proof fn lemma_lookup_at(scopes: Seq<ScopeView>, name: Seq<char>, k: int)
    requires
        0 <= k < scopes.len(),
        scopes[k].contains_key(name),
        forall|j: int| k < j < scopes.len() ==> !(#[trigger] scopes[j]).contains_key(name),
    ensures
        lookup(scopes, name) == Some(scopes[k][name]),
    decreases scopes.len(),
{
    if k < scopes.len() - 1 {
        lemma_lookup_at(scopes.drop_last(), name, k);
    }
}

/// An assignment keeps the number of scopes.
pub proof fn lemma_assigned_len(scopes: Seq<ScopeView>, name: Seq<char>, value: Value)
    ensures
        assigned(scopes, name, value).len() == scopes.len(),
    decreases scopes.len(),
{
    if scopes.len() > 0 && !scopes.last().contains_key(name) {
        lemma_assigned_len(scopes.drop_last(), name, value);
    }
}

/// After an assignment the name resolves to the new value with the
/// mutability it had, and every other name resolves as before.
pub proof fn lemma_lookup_assigned(
    scopes: Seq<ScopeView>,
    name: Seq<char>,
    value: Value,
    other: Seq<char>,
)
    ensures
        lookup(assigned(scopes, name, value), other) == (if other == name {
            match lookup(scopes, name) {
                Some(var) => Some(VariableView { value, mutable: var.mutable }),
                None => None,
            }
        } else {
            lookup(scopes, other)
        }),
    decreases scopes.len(),
{
    if scopes.len() > 0 {
        let after = assigned(scopes, name, value);
        if scopes.last().contains_key(name) {
            assert(after.drop_last() == scopes.drop_last());
        } else {
            lemma_lookup_assigned(scopes.drop_last(), name, value, other);
            assert(after.drop_last() == assigned(scopes.drop_last(), name, value));
            assert(after.last() == scopes.last());
        }
    }
}

/// A declaration binds the name in the innermost scope, whatever was bound
/// to it before and wherever, and leaves every other name as it resolved.
pub proof fn lemma_lookup_declared(
    scopes: Seq<ScopeView>,
    name: Seq<char>,
    value: Value,
    mutable: bool,
    other: Seq<char>,
)
    requires
        scopes.len() >= 1,
    ensures
        lookup(declared(scopes, name, value, mutable), other) == (if other == name {
            Some(VariableView { value, mutable })
        } else {
            lookup(scopes, other)
        }),
{
    let after = declared(scopes, name, value, mutable);
    assert(after.drop_last() == scopes.drop_last());
}

/// Leaving a scope that was just entered restores the scopes.
pub proof fn lemma_pop_undoes_push(scopes: Seq<ScopeView>)
    requires
        scopes.len() >= 1,
    ensures
        popped(pushed(scopes)) == scopes,
{
    assert(pushed(scopes).drop_last() == scopes);
}

/// Whether the first `depth` scopes hold the same names afterwards as
/// before, and there are as many scopes.
pub open spec fn names_kept(before: Seq<ScopeView>, after: Seq<ScopeView>, depth: int) -> bool {
    &&& after.len() == before.len()
    &&& depth <= before.len()
    &&& forall|i: int| 0 <= i < depth ==> (#[trigger] after[i]).dom() == before[i].dom()
}

/// An assignment declares nothing.
pub proof fn lemma_assigned_keeps_names(scopes: Seq<ScopeView>, name: Seq<char>, value: Value)
    ensures
        names_kept(scopes, assigned(scopes, name, value), scopes.len() as int),
    decreases scopes.len(),
{
    if scopes.len() > 0 {
        let after = assigned(scopes, name, value);
        if scopes.last().contains_key(name) {
            assert(after.last().dom() =~= scopes.last().dom());
        } else {
            lemma_assigned_keeps_names(scopes.drop_last(), name, value);
            assert forall|i: int| 0 <= i < scopes.len() implies (#[trigger] after[i]).dom()
                == scopes[i].dom() by {
                if i < scopes.len() - 1 {
                    assert(after[i] == assigned(scopes.drop_last(), name, value)[i]);
                    assert(scopes.drop_last()[i] == scopes[i]);
                }
            }
        }
    }
}

/// Whether a name is declared depends on the names of the scopes alone.
pub proof fn lemma_lookup_by_names(before: Seq<ScopeView>, after: Seq<ScopeView>, name: Seq<char>)
    requires
        names_kept(before, after, before.len() as int),
    ensures
        lookup(before, name) is None <==> lookup(after, name) is None,
    decreases before.len(),
{
    if before.len() > 0 {
        assert(after.last().dom() == before.last().dom());
        assert(after.last().contains_key(name) <==> before.last().contains_key(name));
        assert forall|i: int| 0 <= i < before.len() - 1 implies (#[trigger] after.drop_last()[i]).dom()
            == before.drop_last()[i].dom() by {
            assert(after.drop_last()[i] == after[i]);
        }
        lemma_lookup_by_names(before.drop_last(), after.drop_last(), name);
    }
}

/// A name that no scope holds resolves to nothing.
pub proof fn lemma_lookup_none(scopes: Seq<ScopeView>, name: Seq<char>)
    requires
        forall|j: int| 0 <= j < scopes.len() ==> !(#[trigger] scopes[j]).contains_key(name),
    ensures
        lookup(scopes, name) is None,
    decreases scopes.len(),
{
    if scopes.len() > 0 {
        lemma_lookup_none(scopes.drop_last(), name);
    }
}

/// An assignment behind scopes that do not hold the name changes the scope
/// `k` that does, and only that.
pub proof fn lemma_assigned_at(scopes: Seq<ScopeView>, name: Seq<char>, k: int, value: Value)
    requires
        0 <= k < scopes.len(),
        scopes[k].contains_key(name),
        forall|j: int| k < j < scopes.len() ==> !(#[trigger] scopes[j]).contains_key(name),
    ensures
        assigned(scopes, name, value) == scopes.update(
            k,
            scopes[k].insert(name, VariableView { value, mutable: scopes[k][name].mutable }),
        ),
    decreases scopes.len(),
{
    if k < scopes.len() - 1 {
        lemma_assigned_at(scopes.drop_last(), name, k, value);
        assert(scopes.drop_last().update(
            k,
            scopes[k].insert(name, VariableView { value, mutable: scopes[k][name].mutable }),
        ).push(scopes.last()) == scopes.update(
            k,
            scopes[k].insert(name, VariableView { value, mutable: scopes[k][name].mutable }),
        ));
    }
}

/// A name with what it is bound to.
struct Binding {
    name: String,
    var: Variable,
}

/// The model of a scope that is held as a list of bindings: a later binding
/// of a name hides an earlier one.
spec fn scope_view(bindings: Seq<Binding>) -> ScopeView
    decreases bindings.len(),
{
    if bindings.len() == 0 {
        Map::empty()
    } else {
        scope_view(bindings.drop_last()).insert(bindings.last().name@, bindings.last().var@)
    }
}

/// Whether `i` is the place of the last binding of `name`.
spec fn is_last_of(bindings: Seq<Binding>, name: Seq<char>, i: int) -> bool {
    &&& 0 <= i < bindings.len()
    &&& bindings[i].name@ == name
    &&& forall|j: int| i < j < bindings.len() ==> (#[trigger] bindings[j]).name@ != name
}

proof fn lemma_scope_holds(bindings: Seq<Binding>, name: Seq<char>, i: int)
    requires
        is_last_of(bindings, name, i),
    ensures
        scope_view(bindings).contains_key(name),
        scope_view(bindings)[name] == bindings[i].var@,
    decreases bindings.len(),
{
    if i < bindings.len() - 1 {
        assert(bindings.last() == bindings[bindings.len() - 1]);
        lemma_scope_holds(bindings.drop_last(), name, i);
    }
}

proof fn lemma_scope_lacks(bindings: Seq<Binding>, name: Seq<char>)
    requires
        forall|j: int| 0 <= j < bindings.len() ==> (#[trigger] bindings[j]).name@ != name,
    ensures
        !scope_view(bindings).contains_key(name),
    decreases bindings.len(),
{
    if bindings.len() > 0 {
        assert(bindings.last() == bindings[bindings.len() - 1]);
        lemma_scope_lacks(bindings.drop_last(), name);
    }
}

proof fn lemma_scope_update(bindings: Seq<Binding>, name: Seq<char>, i: int, binding: Binding)
    requires
        is_last_of(bindings, name, i),
        binding.name@ == name,
    ensures
        scope_view(bindings.update(i, binding)) == scope_view(bindings).insert(name, binding.var@),
    decreases bindings.len(),
{
    let after = bindings.update(i, binding);
    if i < bindings.len() - 1 {
        assert(bindings.last() == bindings[bindings.len() - 1]);
        assert(after.drop_last() == bindings.drop_last().update(i, binding));
        lemma_scope_update(bindings.drop_last(), name, i, binding);
        assert(scope_view(after) == scope_view(bindings).insert(name, binding.var@));
    } else {
        assert(after.drop_last() == bindings.drop_last());
        assert(scope_view(after) == scope_view(bindings).insert(name, binding.var@));
    }
}

/// The place of the last binding of `key` in a scope.
fn find(bindings: &Vec<Binding>, key: &String) -> (r: Option<usize>)
    ensures
        match r {
            Some(i) => is_last_of(bindings@, key@, i as int),
            None => !scope_view(bindings@).contains_key(key@),
        },
{
    let mut i: usize = bindings.len();
    while i > 0
        invariant
            i <= bindings.len(),
            forall|j: int| i <= j < bindings.len() ==> (#[trigger] bindings@[j]).name@ != key@,
        decreases i,
    {
        i -= 1;
        if bindings[i].name == *key {
            return Some(i);
        }
    }
    proof {
        lemma_scope_lacks(bindings@, key@);
    }
    None
}

/// The variables of a session: a stack of scopes, of which the first is the
/// global scope and the last the innermost.
pub struct Env {
    scopes: Vec<Vec<Binding>>,
}

impl View for Env {
    type V = Seq<ScopeView>;

    closed spec fn view(&self) -> Seq<ScopeView> {
        self.scopes@.map_values(|scope: Vec<Binding>| scope_view(scope@))
    }
}

impl Env {
    /// There is always a global scope.
    pub open spec fn wf(&self) -> bool {
        self@.len() >= 1
    }

    /// An environment with an empty global scope.
    pub fn new() -> (r: Self)
        ensures
            r.wf(),
            r@ == seq![Map::<Seq<char>, VariableView>::empty()],
    {
        let mut scopes: Vec<Vec<Binding>> = Vec::new();
        scopes.push(Vec::new());
        let r = Self { scopes };
        assert(r@ =~= seq![Map::<Seq<char>, VariableView>::empty()]);
        r
    }

    /// Enters a scope.
    pub fn push_scope(&mut self)
        ensures
            final(self).wf(),
            final(self)@ == pushed(old(self)@),
    {
        self.scopes.push(Vec::new());
        assert(self@ =~= pushed(old(self)@));
    }

    /// Leaves the innermost scope, unless it is the global one.
    pub fn pop_scope(&mut self)
        ensures
            old(self).wf() ==> final(self).wf(),
            final(self)@ == popped(old(self)@),
    {
        if self.scopes.len() > 1 {
            self.scopes.pop();
        }
        assert(self@ =~= popped(old(self)@));
    }

    /// The scope and the place in it of the binding that `key` resolves to.
    fn locate(&self, key: &String) -> (r: Option<(usize, usize)>)
        ensures
            match r {
                Some((k, i)) => {
                    &&& k < self.scopes.len()
                    &&& is_last_of(self.scopes[k as int]@, key@, i as int)
                    &&& self@[k as int].contains_key(key@)
                    &&& forall|j: int|
                        k < j < self@.len() ==> !(#[trigger] self@[j]).contains_key(key@)
                    &&& self@[k as int][key@] == self.scopes[k as int][i as int].var@
                    &&& lookup(self@, key@) == Some(self.scopes[k as int][i as int].var@)
                },
                None => lookup(self@, key@) is None,
            },
    {
        let mut k: usize = self.scopes.len();
        while k > 0
            invariant
                k <= self.scopes.len(),
                forall|j: int| k <= j < self@.len() ==> !(#[trigger] self@[j]).contains_key(key@),
            decreases k,
        {
            k -= 1;
            match find(&self.scopes[k], key) {
                Some(i) => {
                    proof {
                        lemma_scope_holds(self.scopes[k as int]@, key@, i as int);
                        lemma_lookup_at(self@, key@, k as int);
                    }
                    return Some((k, i));
                },
                None => {},
            }
        }
        proof {
            lemma_lookup_none(self@, key@);
        }
        None
    }

    /// The value of the variable that `name` resolves to.
    pub fn get(&self, name: &str) -> (r: Result<&Literal, RuntimeError>)
        ensures
            match lookup(self@, name@) {
                Some(var) => r matches Ok(value) && value@ == var.value,
                None => r matches Err(e) && e@ == RuntimeErrorView::UndeclaredVariable(name@),
            },
    {
        let key = name.to_owned();
        match self.locate(&key) {
            Some((k, i)) => Ok(&self.scopes[k][i].var.value),
            None => RuntimeError::undeclared_var(name),
        }
    }

    /// Stores `new` in the variable that `name` resolves to. An immutable
    /// variable is left as it is.
    pub fn set(&mut self, name: &str, new: Literal) -> (r: Result<(), RuntimeError>)
        ensures
            final(self)@.len() == old(self)@.len(),
            match lookup(old(self)@, name@) {
                None => final(self)@ == old(self)@ && (r matches Err(e) && e@
                    == RuntimeErrorView::UndeclaredVariable(name@)),
                Some(var) => if var.mutable {
                    r is Ok && final(self)@ == assigned(old(self)@, name@, new@)
                } else {
                    final(self)@ == old(self)@ && (r matches Err(e) && e@
                        == RuntimeErrorView::AssignmentToImmutable(name@))
                },
            },
    {
        let key = name.to_owned();
        match self.locate(&key) {
            Some((k, i)) => {
                if !self.scopes[k][i].var.mutable {
                    return RuntimeError::assignment(name);
                }
                proof {
                    lemma_assigned_at(self@, name@, k as int, new@);
                    lemma_assigned_len(self@, name@, new@);
                }
                self.scopes[k][i].var.value = new;
                proof {
                    lemma_scope_update(
                        old(self).scopes[k as int]@,
                        name@,
                        i as int,
                        self.scopes[k as int][i as int],
                    );
                    assert(self.scopes@[k as int]@ == old(self).scopes@[k as int]@.update(
                        i as int,
                        self.scopes[k as int][i as int],
                    ));
                    assert(self@ =~= old(self)@.update(
                        k as int,
                        scope_view(self.scopes@[k as int]@),
                    ));
                    assert(self@ =~= assigned(old(self)@, name@, new@));
                }
                Ok(())
            },
            None => RuntimeError::undeclared_var(name),
        }
    }

    /// Declares `name` in the innermost scope, replacing what that scope
    /// held for the name.
    pub fn declare(&mut self, name: String, value: Literal, mutable: bool)
        requires
            old(self).wf(),
        ensures
            final(self).wf(),
            final(self)@ == declared(old(self)@, name@, value@, mutable),
    {
        let last: usize = self.scopes.len() - 1;
        match find(&self.scopes[last], &name) {
            Some(i) => {
                self.scopes[last][i].var = Variable { value, mutable };
                proof {
                    lemma_scope_update(
                        old(self).scopes[last as int]@,
                        name@,
                        i as int,
                        self.scopes[last as int][i as int],
                    );
                    assert(self@ =~= declared(old(self)@, name@, value@, mutable));
                }
            },
            None => {
                self.scopes[last].push(Binding { name, var: Variable { value, mutable } });
                proof {
                    assert(self.scopes[last as int]@.drop_last() == old(self).scopes[last as int]@);
                    assert(self@ =~= declared(old(self)@, name@, value@, mutable));
                }
            },
        }
    }
}

} // verus!
