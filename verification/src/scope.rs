//! The scope tree: a hierarchy of binding environments. Each scope owns a
//! mapping from names to bindings and may refer to one parent; lookup and
//! reassignment search a scope, then its ancestors, in that order.
//!
//! The scopes of a tree live in one arena and are addressed by index, so a
//! child holds the index of its parent and no reference to it.

use crate::error::{Failure, RuntimeErr};
use crate::primitive::{outcome, Primitive, Value};
use vstd::prelude::*;

verus! {

/// A value bound to a name, and whether the binding may be overwritten.
#[derive(Debug, PartialEq, Eq)]
pub struct Binding {
    pub value: Primitive,
    pub mutable: bool,
}

/// The mathematical model of a [`Binding`].
pub struct Entry {
    pub value: Value,
    pub mutable: bool,
}

impl View for Binding {
    type V = Entry;

    open spec fn view(&self) -> Entry {
        Entry { value: self.value@, mutable: self.mutable }
    }
}

/// The mathematical model of a [`Scope`]: the index of its parent, its own
/// bindings by name, and the indices of the children it created, in order.
pub struct Frame {
    pub parent: Option<usize>,
    pub bindings: Map<Seq<char>, Entry>,
    pub children: Seq<usize>,
}

/// Whether one of the names is `key`.
pub open spec fn names_hold(names: Seq<String>, key: Seq<char>) -> bool {
    exists|i: int| 0 <= i < names.len() && (#[trigger] names[i])@ == key
}

/// An index at which the names hold `key`.
pub open spec fn index_of(names: Seq<String>, key: Seq<char>) -> int {
    choose|i: int| 0 <= i < names.len() && (#[trigger] names[i])@ == key
}

/// Whether no name occurs twice.
pub open spec fn distinct(names: Seq<String>) -> bool {
    forall|i: int, j: int|
        0 <= i < j < names.len() ==> (#[trigger] names[i])@ != (#[trigger] names[j])@
}

/// Among distinct names, the index of a name is the one place that holds it.
proof fn lemma_index_unique(names: Seq<String>, key: Seq<char>, i: int)
    requires
        distinct(names),
        0 <= i < names.len(),
        names[i]@ == key,
    ensures
        names_hold(names, key),
        index_of(names, key) == i,
{
    let k = index_of(names, key);
    assert(0 <= k < names.len() && names[k]@ == key);
    if k < i {
        assert(names[k]@ != names[i]@);
    } else if i < k {
        assert(names[i]@ != names[k]@);
    }
}

/// A node of the scope tree.
#[derive(Debug, PartialEq, Eq)]
pub struct Scope {
    parent: Option<usize>,
    names: Vec<String>,
    slots: Vec<Binding>,
    children: Vec<usize>,
}

impl View for Scope {
    type V = Frame;

    closed spec fn view(&self) -> Frame {
        Frame {
            parent: self.parent,
            bindings: Map::new(
                |key: Seq<char>| names_hold(self.names@, key),
                |key: Seq<char>| self.slots@[index_of(self.names@, key)]@,
            ),
            children: self.children@,
        }
    }
}

impl Scope {
    /// Every name has its binding, and no name is bound twice.
    pub closed spec fn well_formed(&self) -> bool {
        &&& self.names.len() == self.slots.len()
        &&& distinct(self.names@)
    }

    /// A scope without bindings and without children.
    pub fn new(parent: Option<usize>) -> (scope: Scope)
        ensures
            scope.well_formed(),
            scope@ == (Frame { parent, bindings: Map::empty(), children: Seq::empty() }),
    {
        let scope = Scope { parent, names: Vec::new(), slots: Vec::new(), children: Vec::new() };
        assert(scope@.bindings =~= Map::empty());
        scope
    }

    /// The slot that holds the binding of a name.
    fn find(&self, key: &String) -> (found: Option<usize>)
        requires
            self.well_formed(),
        ensures
            match found {
                Some(i) => i < self.names.len() && self.names@[i as int]@ == key@
                    && self@.bindings.contains_key(key@) && self@.bindings[key@]
                    == self.slots@[i as int]@,
                None => !self@.bindings.contains_key(key@),
            },
    {
        let mut i: usize = 0;
        while i < self.names.len()
            invariant
                self.well_formed(),
                i <= self.names.len(),
                forall|j: int| 0 <= j < i ==> (#[trigger] self.names@[j])@ != key@,
            decreases self.names.len() - i,
        {
            if self.names[i] == *key {
                proof {
                    lemma_index_unique(self.names@, key@, i as int);
                }
                return Some(i);
            }
            i += 1;
        }
        None
    }
}

/// Pushing a new name with its binding adds one entry to the bindings.
proof fn lemma_declared(before: Scope, after: Scope, key: String, slot: Binding)
    requires
        before.well_formed(),
        !before@.bindings.contains_key(key@),
        after.parent == before.parent,
        after.children == before.children,
        after.names@ == before.names@.push(key),
        after.slots@ == before.slots@.push(slot),
    ensures
        after.well_formed(),
        after@ == (Frame {
            parent: before@.parent,
            bindings: before@.bindings.insert(key@, slot@),
            children: before@.children,
        }),
{
    let n = before.names@.len() as int;
    assert forall|i: int, j: int| 0 <= i < j < after.names@.len() implies (
    #[trigger] after.names@[i])@ != (#[trigger] after.names@[j])@ by {
        if j == n {
            assert(before.names@[i]@ == after.names@[i]@);
        } else {
            assert(before.names@[i]@ != before.names@[j]@);
        }
    }
    lemma_index_unique(after.names@, key@, n);
    assert forall|k: Seq<char>| #[trigger]
        after@.bindings.contains_key(k) == before@.bindings.insert(key@, slot@).contains_key(
            k,
        ) by {
        if names_hold(before.names@, k) {
            let i = index_of(before.names@, k);
            assert(after.names@[i]@ == k);
        }
        if names_hold(after.names@, k) && k != key@ {
            let i = index_of(after.names@, k);
            assert(before.names@[i]@ == k);
        }
    }
    assert forall|k: Seq<char>| #[trigger]
        after@.bindings.contains_key(k) implies after@.bindings[k] == before@.bindings.insert(
        key@,
        slot@,
    )[k] by {
        if k != key@ {
            let i = index_of(before.names@, k);
            assert(after.names@[i]@ == k);
            lemma_index_unique(after.names@, k, i);
        }
    }
    assert(after@.bindings =~= before@.bindings.insert(key@, slot@));
}

/// Replacing the binding in one slot replaces one entry of the bindings.
proof fn lemma_overwritten(before: Scope, after: Scope, i: int, slot: Binding)
    requires
        before.well_formed(),
        0 <= i < before.names@.len(),
        after.parent == before.parent,
        after.children == before.children,
        after.names@ == before.names@,
        after.slots@ == before.slots@.update(i, slot),
    ensures
        after.well_formed(),
        after@ == (Frame {
            parent: before@.parent,
            bindings: before@.bindings.insert(before.names@[i]@, slot@),
            children: before@.children,
        }),
{
    let key = before.names@[i]@;
    lemma_index_unique(before.names@, key, i);
    assert forall|k: Seq<char>| #[trigger]
        after@.bindings.contains_key(k) implies after@.bindings[k] == before@.bindings.insert(
        key,
        slot@,
    )[k] by {
        if k != key {
            let j = index_of(before.names@, k);
            assert(j != i);
        }
    }
    assert(after@.bindings =~= before@.bindings.insert(key, slot@));
}

/// Whether a scope other than the root names a parent that was created
/// before it.
pub open spec fn parent_before(frames: Seq<Frame>, i: int) -> bool {
    frames[i].parent matches Some(p) && p < i
}

/// Whether the `k`-th child that the scope `p` lists is a later scope whose
/// parent is `p`.
pub open spec fn child_of(frames: Seq<Frame>, p: int, k: int) -> bool {
    let c = frames[p].children[k];
    p < c < frames.len() && frames[c as int].parent == Some(p as usize)
}

/// Whether the parent of the scope `c` lists it among its children.
pub open spec fn listed(frames: Seq<Frame>, c: int) -> bool {
    frames[c].parent matches Some(p) && frames[p as int].children.contains(c as usize)
}

/// Whether the scopes form one tree: the first scope is the root and has no
/// parent, every other scope has a parent that was created before it, and
/// the children that a scope lists are exactly the scopes whose parent it is.
pub open spec fn rooted(frames: Seq<Frame>) -> bool {
    &&& frames.len() > 0
    &&& frames[0].parent is None
    &&& forall|i: int| 0 < i < frames.len() ==> #[trigger] parent_before(frames, i)
    &&& forall|p: int, k: int|
        0 <= p < frames.len() && 0 <= k < frames[p].children.len() ==> #[trigger] child_of(
            frames,
            p,
            k,
        )
    &&& forall|c: int| 0 < c < frames.len() ==> #[trigger] listed(frames, c)
}

/// The scope that owns the binding which `name` resolves to from `scope`:
/// `scope` itself if it binds the name, else what the name resolves to from
/// its parent; nothing where the search runs out of ancestors.
pub open spec fn owner(frames: Seq<Frame>, scope: int, name: Seq<char>) -> Option<int>
    decreases scope,
{
    if !(0 <= scope < frames.len()) {
        None
    } else if frames[scope].bindings.contains_key(name) {
        Some(scope)
    } else {
        match frames[scope].parent {
            Some(p) => if p < scope {
                owner(frames, p as int, name)
            } else {
                None
            },
            None => None,
        }
    }
}

/// What a lookup of `name` from `scope` gives: the value of the binding
/// that the name resolves to, or `UndefinedVariable`.
pub open spec fn looked_up(frames: Seq<Frame>, scope: int, name: Seq<char>) -> Result<
    Value,
    Failure,
> {
    match owner(frames, scope, name) {
        Some(o) => Ok(frames[o].bindings[name].value),
        None => Err(Failure::UndefinedVariable(name)),
    }
}

/// The scopes after the scope `at` has bound `name` to `entry`; nothing else
/// changes.
pub open spec fn with_binding(frames: Seq<Frame>, at: int, name: Seq<char>, entry: Entry) -> Seq<
    Frame,
> {
    frames.update(
        at,
        Frame {
            parent: frames[at].parent,
            bindings: frames[at].bindings.insert(name, entry),
            children: frames[at].children,
        },
    )
}

/// The model of what a declaration or an assignment hands back.
pub open spec fn effect(r: Result<(), RuntimeErr>) -> Result<(), Failure> {
    match r {
        Ok(_) => Ok(()),
        Err(e) => Err(e@),
    }
}

/// What declaring `name` in `scope` gives, and the scopes after it: where
/// the scope itself already binds the name, `DuplicateDeclaration` and the
/// scopes as they were; else the scopes with the new binding.
pub open spec fn declared(frames: Seq<Frame>, scope: int, name: Seq<char>, entry: Entry) -> (
    Result<(), Failure>,
    Seq<Frame>,
) {
    if frames[scope].bindings.contains_key(name) {
        (Err(Failure::DuplicateDeclaration(name)), frames)
    } else {
        (Ok(()), with_binding(frames, scope, name, entry))
    }
}

/// What assigning `value` to `name` from `scope` gives, and the scopes after
/// it: where the name resolves to nothing, `UndefinedVariable`; where it
/// resolves to an immutable binding, `ImmutableBinding`; in both cases the
/// scopes as they were; else the scopes with the value overwritten in the
/// scope that owns the binding.
pub open spec fn assigned(frames: Seq<Frame>, scope: int, name: Seq<char>, value: Value) -> (
    Result<(), Failure>,
    Seq<Frame>,
) {
    match owner(frames, scope, name) {
        None => (Err(Failure::UndefinedVariable(name)), frames),
        Some(o) => if frames[o].bindings[name].mutable {
            (Ok(()), with_binding(frames, o, name, Entry { value, mutable: true }))
        } else {
            (Err(Failure::ImmutableBinding(name)), frames)
        },
    }
}

/// The scopes after the scope `parent` has created a child: the child is
/// the last scope, it is empty, and the parent lists it last.
pub open spec fn with_child(frames: Seq<Frame>, parent: int) -> Seq<Frame> {
    frames.update(
        parent,
        Frame {
            parent: frames[parent].parent,
            bindings: frames[parent].bindings,
            children: frames[parent].children.push(frames.len() as usize),
        },
    ).push(
        Frame { parent: Some(parent as usize), bindings: Map::empty(), children: Seq::empty() },
    )
}

/// A tree of scopes. The root has index 0; every other scope is a child
/// that [`ScopeTree::create_child`] made, addressed by the index it returned.
#[derive(Debug, PartialEq, Eq)]
pub struct ScopeTree {
    scopes: Vec<Scope>,
}

impl View for ScopeTree {
    type V = Seq<Frame>;

    closed spec fn view(&self) -> Seq<Frame> {
        Seq::new(self.scopes@.len(), |i: int| self.scopes@[i]@)
    }
}

impl ScopeTree {
    /// Every scope is well formed, and the scopes form one tree.
    pub closed spec fn well_formed(&self) -> bool {
        &&& forall|i: int| 0 <= i < self.scopes@.len() ==> (#[trigger] self.scopes@[i]).well_formed()
        &&& rooted(self@)
    }

    /// The scopes of a well-formed tree form one tree rooted at index 0.
    pub proof fn shape(&self)
        requires
            self.well_formed(),
        ensures
            rooted(self@),
    {
    }

    /// A tree of one scope, the root, which has no parent and binds nothing.
    pub fn create_root() -> (tree: ScopeTree)
        ensures
            tree.well_formed(),
            tree@ == seq![Frame { parent: None, bindings: Map::empty(), children: Seq::empty() }],
    {
        let mut scopes: Vec<Scope> = Vec::new();
        scopes.push(Scope::new(None));
        let tree = ScopeTree { scopes };
        assert(tree@ =~= seq![
            Frame { parent: None, bindings: Map::empty(), children: Seq::empty() },
        ]);
        tree
    }

    /// The number of scopes in the tree.
    pub fn len(&self) -> (n: usize)
        ensures
            n == self@.len(),
    {
        self.scopes.len()
    }

    /// The index of the root.
    pub fn root(&self) -> (id: usize)
        ensures
            id == 0,
    {
        0
    }

    /// The parent of a scope; the root has none.
    pub fn parent_of(&self, scope: usize) -> (parent: Option<usize>)
        requires
            self.well_formed(),
            scope < self@.len(),
        ensures
            parent == self@[scope as int].parent,
    {
        self.scopes[scope].parent
    }

    /// The children that a scope created, in the order of their creation.
    pub fn children_of(&self, scope: usize) -> (children: Vec<usize>)
        requires
            self.well_formed(),
            scope < self@.len(),
        ensures
            children@ == self@[scope as int].children,
    {
        self.scopes[scope].children.clone()
    }

    /// Tells whether a scope itself binds a name, whatever its ancestors
    /// bind.
    pub fn binds(&self, scope: usize, name: &str) -> (bound: bool)
        requires
            self.well_formed(),
            scope < self@.len(),
        ensures
            bound == self@[scope as int].bindings.contains_key(name@),
    {
        let key = name.to_owned();
        self.scopes[scope].find(&key).is_some()
    }

    /// Creates an empty scope whose parent is `parent` and returns its index.
    /// The parent lists the new scope as its last child.
    pub fn create_child(&mut self, parent: usize) -> (child: usize)
        requires
            old(self).well_formed(),
            parent < old(self)@.len(),
        ensures
            final(self).well_formed(),
            child == old(self)@.len(),
            final(self)@ == with_child(old(self)@, parent as int),
    {
        let child = self.scopes.len();
        self.scopes[parent].children.push(child);
        self.scopes.push(Scope::new(Some(parent)));
        proof {
            let before = old(self)@;
            let after = self@;
            assert(after =~= with_child(before, parent as int));
            assert forall|i: int| 0 <= i < self.scopes@.len() implies (
            #[trigger] self.scopes@[i]).well_formed() by {
                if i < child && i != parent {
                    assert(self.scopes@[i] == old(self).scopes@[i]);
                } else if i == parent {
                    assert(old(self).scopes@[i].well_formed());
                }
            }
            assert forall|i: int| 0 < i < after.len() implies #[trigger] parent_before(
                after,
                i,
            ) by {
                if i < child {
                    assert(parent_before(before, i));
                }
            }
            assert forall|p: int, k: int|
                0 <= p < after.len() && 0 <= k < after[p].children.len() implies #[trigger] child_of(
                after,
                p,
                k,
            ) by {
                if p == parent && k == before[p].children.len() {
                } else {
                    assert(child_of(before, p, k));
                }
            }
            assert forall|c: int| 0 < c < after.len() implies #[trigger] listed(after, c) by {
                if c < child {
                    assert(parent_before(before, c));
                    assert(listed(before, c));
                    let p = before[c].parent->Some_0 as int;
                    let k = choose|k: int|
                        0 <= k < before[p].children.len() && before[p].children[k] == c as usize;
                    assert(after[p].children[k] == c as usize);
                } else {
                    let last = before[parent as int].children.len() as int;
                    assert(after[parent as int].children[last] == c as usize);
                }
            }
        }
        child
    }

    /// Finds the binding that a name resolves to from a scope: the scope
    /// that owns it and the slot that holds it there.
    fn resolve(&self, scope: usize, key: &String) -> (found: Option<(usize, usize)>)
        requires
            self.well_formed(),
            scope < self@.len(),
        ensures
            match found {
                Some((o, i)) => owner(self@, scope as int, key@) == Some(o as int) && o
                    < self.scopes@.len() && i < self.scopes@[o as int].names@.len()
                    && self.scopes@[o as int].names@[i as int]@ == key@ && self@[o as int].bindings[key@]
                    == self.scopes@[o as int].slots@[i as int]@,
                None => owner(self@, scope as int, key@) is None,
            },
    {
        let mut cur = scope;
        loop
            invariant
                self.well_formed(),
                cur < self@.len(),
                owner(self@, cur as int, key@) == owner(self@, scope as int, key@),
            decreases cur,
        {
            match self.scopes[cur].find(key) {
                Some(i) => {
                    return Some((cur, i));
                },
                None => {
                    match self.scopes[cur].parent {
                        Some(p) => {
                            assert(cur > 0 ==> parent_before(self@, cur as int));
                            cur = p;
                        },
                        None => {
                            return None;
                        },
                    }
                },
            }
        }
    }

    /// Looks a name up from a scope: the scope itself is searched first,
    /// then its ancestors up to the root. Fails with `UndefinedVariable`
    /// if none of them binds the name.
    pub fn lookup(&self, scope: usize, name: &str) -> (out: Result<Primitive, RuntimeErr>)
        requires
            self.well_formed(),
            scope < self@.len(),
        ensures
            outcome(out) == looked_up(self@, scope as int, name@),
    {
        let key = name.to_owned();
        match self.resolve(scope, &key) {
            Some((o, i)) => Ok(self.scopes[o].slots[i].value.clone()),
            None => Err(RuntimeErr::UndefinedVariable(key)),
        }
    }

    /// Binds a name in a scope. Fails with `DuplicateDeclaration` if the
    /// scope itself already binds the name; a binding of the same name in an
    /// ancestor is shadowed and left as it is.
    pub fn declare(&mut self, scope: usize, name: &str, value: Primitive, mutable: bool) -> (out:
        Result<(), RuntimeErr>)
        requires
            old(self).well_formed(),
            scope < old(self)@.len(),
        ensures
            final(self).well_formed(),
            final(self)@.len() == old(self)@.len(),
            (effect(out), final(self)@) == declared(
                old(self)@,
                scope as int,
                name@,
                Entry { value: value@, mutable },
            ),
    {
        let key = name.to_owned();
        match self.scopes[scope].find(&key) {
            Some(_) => Err(RuntimeErr::DuplicateDeclaration(key)),
            None => {
                let ghost slot = Binding { value, mutable };
                self.scopes[scope].names.push(key);
                self.scopes[scope].slots.push(Binding { value, mutable });
                proof {
                    lemma_declared(
                        old(self).scopes@[scope as int],
                        self.scopes@[scope as int],
                        key,
                        slot,
                    );
                    self.lemma_rebound(*old(self), scope as int, name@, slot@);
                }
                Ok(())
            },
        }
    }

    /// Overwrites the binding that a name resolves to from a scope, in the
    /// scope that owns it. Fails with `UndefinedVariable` if no scope on the
    /// way to the root binds the name, and with `ImmutableBinding` if the
    /// binding found is immutable.
    pub fn assign(&mut self, scope: usize, name: &str, value: Primitive) -> (out: Result<
        (),
        RuntimeErr,
    >)
        requires
            old(self).well_formed(),
            scope < old(self)@.len(),
        ensures
            final(self).well_formed(),
            final(self)@.len() == old(self)@.len(),
            (effect(out), final(self)@) == assigned(old(self)@, scope as int, name@, value@),
    {
        let key = name.to_owned();
        match self.resolve(scope, &key) {
            None => Err(RuntimeErr::UndefinedVariable(key)),
            Some((o, i)) => {
                if !self.scopes[o].slots[i].mutable {
                    return Err(RuntimeErr::ImmutableBinding(key));
                }
                let ghost slot = Binding { value, mutable: true };
                self.scopes[o].slots[i] = Binding { value, mutable: true };
                proof {
                    lemma_overwritten(
                        old(self).scopes@[o as int],
                        self.scopes@[o as int],
                        i as int,
                        slot,
                    );
                    self.lemma_rebound(*old(self), o as int, name@, slot@);
                }
                Ok(())
            },
        }
    }

    /// A tree in which one scope has rebound one name, and which is
    /// otherwise as before, is well formed and has the view that
    /// [`with_binding`] gives.
    proof fn lemma_rebound(&self, before: ScopeTree, at: int, name: Seq<char>, entry: Entry)
        requires
            before.well_formed(),
            0 <= at < before.scopes@.len(),
            self.scopes@.len() == before.scopes@.len(),
            forall|i: int|
                0 <= i < before.scopes@.len() && i != at ==> self.scopes@[i] == before.scopes@[i],
            self.scopes@[at].well_formed(),
            self.scopes@[at]@ == (Frame {
                parent: before.scopes@[at]@.parent,
                bindings: before.scopes@[at]@.bindings.insert(name, entry),
                children: before.scopes@[at]@.children,
            }),
        ensures
            self.well_formed(),
            self@ == with_binding(before@, at, name, entry),
    {
        let frames = before@;
        let after = self@;
        assert(after =~= with_binding(frames, at, name, entry));
        assert forall|i: int| 0 < i < after.len() implies #[trigger] parent_before(after, i) by {
            assert(parent_before(frames, i));
        }
        assert forall|p: int, k: int|
            0 <= p < after.len() && 0 <= k < after[p].children.len() implies #[trigger] child_of(
            after,
            p,
            k,
        ) by {
            assert(child_of(frames, p, k));
        }
        assert forall|c: int| 0 < c < after.len() implies #[trigger] listed(after, c) by {
            assert(parent_before(frames, c));
            assert(listed(frames, c));
        }
    }
}

/// A search for a name never leaves the scopes that were created before
/// the scope it starts from: the owner it finds is the scope itself or an
/// earlier one, and it binds the name.
pub proof fn owner_is_an_ancestor(frames: Seq<Frame>, scope: int, name: Seq<char>)
    ensures
        owner(frames, scope, name) matches Some(o) ==> 0 <= o <= scope && o < frames.len()
            && frames[o].bindings.contains_key(name),
    decreases scope,
{
    if 0 <= scope < frames.len() && !frames[scope].bindings.contains_key(name) {
        if let Some(p) = frames[scope].parent {
            if p < scope {
                owner_is_an_ancestor(frames, p as int, name);
            }
        }
    }
}

/// A declaration shadows: after the scope `at` has bound `name`, a lookup
/// of the name from `at` gives the new value, whatever its ancestors bind.
pub proof fn declaration_shadows(frames: Seq<Frame>, at: int, name: Seq<char>, entry: Entry)
    requires
        0 <= at < frames.len(),
    ensures
        looked_up(with_binding(frames, at, name, entry), at, name) == Ok::<Value, Failure>(
            entry.value,
        ),
{
}

/// A binding made in a scope is not seen from the scopes created before it,
/// among which are all its ancestors: every lookup from such a scope gives
/// what it gave before.
pub proof fn binding_is_local(
    frames: Seq<Frame>,
    at: int,
    name: Seq<char>,
    entry: Entry,
    scope: int,
    other: Seq<char>,
)
    requires
        0 <= scope < at < frames.len(),
    ensures
        owner(with_binding(frames, at, name, entry), scope, other) == owner(frames, scope, other),
        looked_up(with_binding(frames, at, name, entry), scope, other) == looked_up(
            frames,
            scope,
            other,
        ),
    decreases scope,
{
    let after = with_binding(frames, at, name, entry);
    assert(after[scope] == frames[scope]);
    if !frames[scope].bindings.contains_key(other) {
        if let Some(p) = frames[scope].parent {
            if p < scope {
                binding_is_local(frames, at, name, entry, p as int, other);
            }
        }
    }
    owner_is_an_ancestor(frames, scope, other);
}

/// The last write wins: after the binding that `name` resolves to from
/// `scope` has been overwritten in the scope that owns it, the name still
/// resolves to that scope, and a lookup from `scope` gives the new value.
pub proof fn last_write_wins(frames: Seq<Frame>, scope: int, name: Seq<char>, entry: Entry)
    requires
        owner(frames, scope, name) is Some,
    ensures
        owner(with_binding(frames, owner(frames, scope, name)->Some_0, name, entry), scope, name)
            == owner(frames, scope, name),
        looked_up(
            with_binding(frames, owner(frames, scope, name)->Some_0, name, entry),
            scope,
            name,
        ) == Ok::<Value, Failure>(entry.value),
    decreases scope,
{
    let o = owner(frames, scope, name)->Some_0;
    let after = with_binding(frames, o, name, entry);
    owner_is_an_ancestor(frames, scope, name);
    if !frames[scope].bindings.contains_key(name) {
        let p = frames[scope].parent->Some_0;
        last_write_wins(frames, p as int, name, entry);
        assert(after[scope] == frames[scope]);
    }
}

/// A binding changes one name: after a scope has bound or overwritten
/// `name`, a lookup of any other name, from any scope, gives what it gave
/// before.
pub proof fn binding_touches_one_name(
    frames: Seq<Frame>,
    at: int,
    name: Seq<char>,
    entry: Entry,
    scope: int,
    other: Seq<char>,
)
    requires
        0 <= at < frames.len(),
        other != name,
    ensures
        looked_up(with_binding(frames, at, name, entry), scope, other) == looked_up(
            frames,
            scope,
            other,
        ),
    decreases scope,
{
    if 0 <= scope < frames.len() && !frames[scope].bindings.contains_key(other) {
        if let Some(p) = frames[scope].parent {
            if p < scope {
                binding_touches_one_name(frames, at, name, entry, p as int, other);
            }
        }
    }
}

} // verus!
