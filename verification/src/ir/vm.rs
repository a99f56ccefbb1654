//! The scope manager: a stack of frames that map names to declarations.

use vstd::prelude::*;
use crate::error::BuildError;
use crate::ir::entities::ValueId;

verus! {

/// What a name is bound to.
#[derive(Clone, Copy, Debug, PartialEq, Eq, Structural)]
pub enum Decl {
    /// A constant, with its value.
    Const(i32),
    /// A variable, with the handle of its slot.
    Var(ValueId),
}

/// One frame: names and what they are bound to.
pub type Frame = Map<Seq<char>, Decl>;

/// The binding of `name` in the innermost frame that has one.
pub open spec fn scopes_get(scopes: Seq<Frame>, name: Seq<char>) -> Option<Decl>
    decreases scopes.len(),
{
    if scopes.len() == 0 {
        None
    } else if scopes.last().contains_key(name) {
        Some(scopes.last()[name])
    } else {
        scopes_get(scopes.drop_last(), name)
    }
}

/// Whether the innermost frame binds `name`.
pub open spec fn scopes_cur_exist(scopes: Seq<Frame>, name: Seq<char>) -> bool {
    scopes.len() > 0 && scopes.last().contains_key(name)
}

/// The stack with `name` bound in the innermost frame.
pub open spec fn scopes_insert(scopes: Seq<Frame>, name: Seq<char>, decl: Decl) -> Seq<Frame>
    recommends
        scopes.len() > 0,
{
    scopes.update(scopes.len() - 1, scopes.last().insert(name, decl))
}

/// The stack without its innermost frame; an empty stack stays empty.
pub open spec fn scopes_pop(scopes: Seq<Frame>) -> Seq<Frame> {
    if scopes.len() == 0 {
        scopes
    } else {
        scopes.drop_last()
    }
}

/// A name that is bound inside a scope resolves to that binding while the
/// scope is open, whatever the enclosing scopes bind it to. Once the scope is
/// left, every name resolves as it did before the scope was entered; so a name
/// that only the scope bound is unbound again.
pub proof fn law_scoping(scopes: Seq<Frame>, name: Seq<char>, inner: Decl, other: Seq<char>)
    ensures
        scopes_get(scopes_insert(scopes.push(Map::empty()), name, inner), name) == Some(inner),
        scopes_get(scopes_pop(scopes_insert(scopes.push(Map::empty()), name, inner)), other)
            == scopes_get(scopes, other),
        scopes_get(scopes, name) is None ==> scopes_get(
            scopes_pop(scopes_insert(scopes.push(Map::empty()), name, inner)),
            name,
        ) is None,
{
    let entered = scopes.push(Map::empty());
    let bound = scopes_insert(entered, name, inner);
    assert(scopes_pop(bound) =~= scopes);
}

/// A name that the innermost scope does not bind resolves as in the enclosing
/// scopes.
pub proof fn law_lookup_falls_through(scopes: Seq<Frame>, name: Seq<char>)
    requires
        scopes.len() > 0,
        !scopes.last().contains_key(name),
    ensures
        scopes_get(scopes, name) == scopes_get(scopes.drop_last(), name),
{
}

/// The binding of `name` among the entries, the latest first.
pub open spec fn entries_get(entries: Seq<(String, Decl)>, name: Seq<char>) -> Option<Decl>
    decreases entries.len(),
{
    if entries.len() == 0 {
        None
    } else if entries.last().0@ == name {
        Some(entries.last().1)
    } else {
        entries_get(entries.drop_last(), name)
    }
}

/// The frame that a list of entries stands for.
pub open spec fn entries_frame(entries: Seq<(String, Decl)>) -> Frame {
    Map::new(
        |k: Seq<char>| entries_get(entries, k) is Some,
        |k: Seq<char>| entries_get(entries, k).unwrap(),
    )
}

/// Nested symbol table.
pub struct ValueManager {
    vm_stack: Vec<Vec<(String, Decl)>>,
}

impl View for ValueManager {
    type V = Seq<Frame>;

    closed spec fn view(&self) -> Seq<Frame> {
        Seq::new(self.vm_stack@.len(), |i: int| entries_frame(self.vm_stack@[i]@))
    }
}

/// One more entry binds its name in the frame.
proof fn lemma_entries_push(entries: Seq<(String, Decl)>, name: String, decl: Decl)
    ensures
        entries_frame(entries.push((name, decl))) == entries_frame(entries).insert(name@, decl),
{
    let pushed = entries.push((name, decl));
    assert(pushed.drop_last() =~= entries);
}

/// The last entry of that name, if any.
fn find(entries: &Vec<(String, Decl)>, key: &String) -> (r: Option<usize>)
    ensures
        match r {
            Some(i) => i < entries.len() && entries_get(entries@, key@) == Some(entries[i as int].1),
            None => entries_get(entries@, key@) is None,
        },
{
    let mut i = entries.len();
    assert(entries@.take(i as int) =~= entries@);
    while i > 0
        invariant
            i <= entries.len(),
            entries_get(entries@, key@) == entries_get(entries@.take(i as int), key@),
        decreases i,
    {
        assert(entries@.take(i as int).drop_last() =~= entries@.take(i - 1));
        if entries[i - 1].0 == *key {
            return Some(i - 1);
        }
        i -= 1;
    }
    None
}

impl ValueManager {
    /// A table without frames.
    pub fn new() -> (vm: Self)
        ensures
            vm@ == Seq::<Frame>::empty(),
    {
        let vm = ValueManager { vm_stack: Vec::new() };
        vm
    }

    /// Whether the innermost frame binds `name`.
    pub fn cur_exist(&self, name: &str) -> (b: bool)
        ensures
            b == scopes_cur_exist(self@, name@),
    {
        let n = self.vm_stack.len();
        if n == 0 {
            false
        } else {
            let key = name.to_owned();
            find(&self.vm_stack[n - 1], &key).is_some()
        }
    }

    /// Enters a scope: adds an empty frame.
    pub fn push(&mut self)
        ensures
            final(self)@ == old(self)@.push(Map::empty()),
    {
        self.vm_stack.push(Vec::new());
        assert(entries_frame(Seq::empty()) =~= Map::empty());
    }

    /// Leaves a scope: drops the innermost frame, if there is one.
    pub fn pop(&mut self)
        ensures
            final(self)@ == scopes_pop(old(self)@),
    {
        self.vm_stack.pop();
    }

    fn insert(&mut self, name: &str, value: Decl) -> (r: Result<(), BuildError>)
        requires
            old(self)@.len() > 0,
        ensures
            match r {
                Ok(_) => !scopes_cur_exist(old(self)@, name@) && final(self)@ == scopes_insert(
                    old(self)@,
                    name@,
                    value,
                ),
                Err(e) => e == BuildError::DuplicateDeclaration && scopes_cur_exist(
                    old(self)@,
                    name@,
                ) && final(self)@ == old(self)@,
            },
    {
        let n = self.vm_stack.len();
        let key = name.to_owned();
        if find(&self.vm_stack[n - 1], &key).is_some() {
            return Err(BuildError::DuplicateDeclaration);
        }
        proof {
            lemma_entries_push(self.vm_stack@[n - 1]@, key, value);
        }
        self.vm_stack[n - 1].push((key, value));
        Ok(())
    }

    /// Binds `name` to a constant in the innermost frame, unless that frame
    /// binds the name already.
    pub fn insert_const(&mut self, name: &str, value: i32) -> (r: Result<(), BuildError>)
        requires
            old(self)@.len() > 0,
        ensures
            match r {
                Ok(_) => !scopes_cur_exist(old(self)@, name@) && final(self)@ == scopes_insert(
                    old(self)@,
                    name@,
                    Decl::Const(value),
                ),
                Err(e) => e == BuildError::DuplicateDeclaration && scopes_cur_exist(
                    old(self)@,
                    name@,
                ) && final(self)@ == old(self)@,
            },
    {
        self.insert(name, Decl::Const(value))
    }

    /// Binds `name` to a variable in the innermost frame, unless that frame
    /// binds the name already.
    pub fn insert_var(&mut self, name: &str, value: ValueId) -> (r: Result<(), BuildError>)
        requires
            old(self)@.len() > 0,
        ensures
            match r {
                Ok(_) => !scopes_cur_exist(old(self)@, name@) && final(self)@ == scopes_insert(
                    old(self)@,
                    name@,
                    Decl::Var(value),
                ),
                Err(e) => e == BuildError::DuplicateDeclaration && scopes_cur_exist(
                    old(self)@,
                    name@,
                ) && final(self)@ == old(self)@,
            },
    {
        self.insert(name, Decl::Var(value))
    }

    /// The binding of `name` in the innermost frame that has one.
    pub fn get(&self, name: &str) -> (r: Option<&Decl>)
        ensures
            match r {
                Some(d) => scopes_get(self@, name@) == Some(*d),
                None => scopes_get(self@, name@) is None,
            },
    {
        let key = name.to_owned();
        let mut i = self.vm_stack.len();
        assert(self@.take(i as int) =~= self@);
        while i > 0
            invariant
                i <= self.vm_stack.len(),
                key@ == name@,
                scopes_get(self@, name@) == scopes_get(self@.take(i as int), name@),
            decreases i,
        {
            assert(self@.take(i as int).drop_last() =~= self@.take(i - 1));
            match find(&self.vm_stack[i - 1], &key) {
                Some(j) => {
                    return Some(&self.vm_stack[i - 1][j].1);
                },
                None => {},
            }
            i -= 1;
        }
        None
    }
}

} // verus!
