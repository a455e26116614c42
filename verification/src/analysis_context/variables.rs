use vstd::prelude::*;

use crate::locations::Location;
use crate::types::TypeId;

verus! {

/// A local variable with counts of how it is used.
#[derive(Clone, Debug)]
pub struct VariableData {
    pub name: String,
    pub ty: TypeId,
    pub defined_at: Location,
    pub mutable: bool,
    pub reads: usize,
    pub writes: usize,
    pub mut_refs: usize,
    pub ro_refs: usize,
    pub dependencies: Vec<VariableRef>,
}

impl VariableData {
    /// A variable that has not been used yet.
    pub fn new(
        name: String,
        ty: TypeId,
        mutable: bool,
        defined_at: Location,
        dependencies: Vec<VariableRef>,
    ) -> (r: Self)
        ensures
            r.name@ == name@,
            r.ty == ty,
            r.mutable == mutable,
            r.defined_at == defined_at,
            r.dependencies@ == dependencies@,
            unused(r),
    {
        VariableData {
            name,
            ty,
            defined_at,
            mutable,
            reads: 0,
            writes: 0,
            mut_refs: 0,
            ro_refs: 0,
            dependencies,
        }
    }

    /// An immutable variable with no dependencies that has not been used yet.
    pub fn pure(name: String, ty: TypeId, defined_at: Location) -> (r: Self)
        ensures
            r.name@ == name@,
            r.ty == ty,
            !r.mutable,
            r.defined_at == defined_at,
            r.dependencies@ == Seq::<VariableRef>::empty(),
            unused(r),
    {
        VariableData {
            name,
            ty,
            defined_at,
            mutable: false,
            reads: 0,
            writes: 0,
            mut_refs: 0,
            ro_refs: 0,
            dependencies: Vec::new(),
        }
    }

    /// Whether a reference, mutable or not, was taken to the variable.
    pub fn has_ref(&self) -> (r: bool)
        ensures
            r == (self.mut_refs + self.ro_refs > 0),
    {
        self.mut_refs > 0 || self.ro_refs > 0
    }
}

/// All four counters of `d` are zero.
pub open spec fn unused(d: VariableData) -> bool {
    d.reads == 0 && d.writes == 0 && d.mut_refs == 0 && d.ro_refs == 0
}

/// The variables of a scope; handles and references point into it.
#[derive(Clone, Debug)]
pub struct VariableArena {
    entries: Vec<VariableData>,
}

impl View for VariableArena {
    type V = Seq<VariableData>;

    closed spec fn view(&self) -> Seq<VariableData> {
        self.entries@
    }
}

impl VariableArena {
    pub fn new() -> (r: VariableArena)
        ensures
            r@ == Seq::<VariableData>::empty(),
    {
        VariableArena { entries: Vec::new() }
    }

    pub fn len(&self) -> (r: usize)
        ensures
            r == self@.len(),
    {
        self.entries.len()
    }

    fn entry(&self, i: usize) -> (r: &VariableData)
        requires
            i < self@.len(),
        ensures
            *r == self@[i as int],
    {
        &self.entries[i]
    }

    fn entry_mut(&mut self, i: usize) -> (r: &mut VariableData)
        requires
            i < old(self)@.len(),
        ensures
            *r == old(self)@[i as int],
            final(self)@ == old(self)@.update(i as int, *final(r)),
    {
        &mut self.entries[i]
    }
}

/// `s` with the reads of variable `i` counted up by one.
pub open spec fn read_added(s: Seq<VariableData>, i: int) -> Seq<VariableData> {
    s.update(i, VariableData { reads: (s[i].reads + 1) as usize, ..s[i] })
}

/// `s` with the reads of variable `i` counted down by one.
pub open spec fn read_removed(s: Seq<VariableData>, i: int) -> Seq<VariableData> {
    s.update(i, VariableData { reads: (s[i].reads - 1) as usize, ..s[i] })
}

/// `s` with the writes of variable `i` counted up by one.
pub open spec fn write_added(s: Seq<VariableData>, i: int) -> Seq<VariableData> {
    s.update(i, VariableData { writes: (s[i].writes + 1) as usize, ..s[i] })
}

/// `s` with the read-only references of variable `i` counted up by one.
pub open spec fn readonly_ref_added(s: Seq<VariableData>, i: int) -> Seq<VariableData> {
    s.update(i, VariableData { ro_refs: (s[i].ro_refs + 1) as usize, ..s[i] })
}

/// `s` with the mutable references of variable `i` counted up by one.
pub open spec fn mutable_ref_added(s: Seq<VariableData>, i: int) -> Seq<VariableData> {
    s.update(i, VariableData { mut_refs: (s[i].mut_refs + 1) as usize, ..s[i] })
}

/// The handle through which a variable's uses are counted.
#[derive(Clone, Copy, Debug, PartialEq, Eq, Structural)]
pub struct VariableHandle(pub usize);

/// A read-only reference to a variable.
#[derive(Clone, Copy, Debug, PartialEq, Eq, Structural)]
pub struct VariableRef(pub usize);

impl VariableHandle {
    /// Adds `symbol` to the arena and gives its handle.
    pub fn new(arena: &mut VariableArena, symbol: VariableData) -> (r: Self)
        ensures
            r.0 == old(arena)@.len(),
            final(arena)@ == old(arena)@.push(symbol),
    {
        let i = arena.entries.len();
        arena.entries.push(symbol);
        VariableHandle(i)
    }

    pub fn is_mutable(&self, arena: &VariableArena) -> (r: bool)
        requires
            self.0 < arena@.len(),
        ensures
            r == arena@[self.0 as int].mutable,
    {
        arena.entry(self.0).mutable
    }

    pub fn add_read(&self, arena: &mut VariableArena)
        requires
            self.0 < old(arena)@.len(),
            old(arena)@[self.0 as int].reads < usize::MAX,
        ensures
            final(arena)@ == read_added(old(arena)@, self.0 as int),
    {
        let d = arena.entry_mut(self.0);
        d.reads = d.reads + 1;
    }

    pub fn remove_read(&self, arena: &mut VariableArena)
        requires
            self.0 < old(arena)@.len(),
            old(arena)@[self.0 as int].reads > 0,
        ensures
            final(arena)@ == read_removed(old(arena)@, self.0 as int),
    {
        let d = arena.entry_mut(self.0);
        d.reads = d.reads - 1;
    }

    pub fn add_write(&self, arena: &mut VariableArena)
        requires
            self.0 < old(arena)@.len(),
            old(arena)@[self.0 as int].writes < usize::MAX,
        ensures
            final(arena)@ == write_added(old(arena)@, self.0 as int),
    {
        let d = arena.entry_mut(self.0);
        d.writes = d.writes + 1;
    }

    pub fn add_readonly_ref(&self, arena: &mut VariableArena)
        requires
            self.0 < old(arena)@.len(),
            old(arena)@[self.0 as int].ro_refs < usize::MAX,
        ensures
            final(arena)@ == readonly_ref_added(old(arena)@, self.0 as int),
    {
        let d = arena.entry_mut(self.0);
        d.ro_refs = d.ro_refs + 1;
    }

    pub fn add_mutable_ref(&self, arena: &mut VariableArena)
        requires
            self.0 < old(arena)@.len(),
            old(arena)@[self.0 as int].mut_refs < usize::MAX,
        ensures
            final(arena)@ == mutable_ref_added(old(arena)@, self.0 as int),
    {
        let d = arena.entry_mut(self.0);
        d.mut_refs = d.mut_refs + 1;
    }

    /// The variable's data.
    pub fn borrow<'a>(&self, arena: &'a VariableArena) -> (r: &'a VariableData)
        requires
            self.0 < arena@.len(),
        ensures
            *r == arena@[self.0 as int],
    {
        arena.entry(self.0)
    }

    /// A read-only reference to the same variable.
    pub fn readonly(&self) -> (r: VariableRef)
        ensures
            r.0 == self.0,
    {
        VariableRef(self.0)
    }

    /// Whether `variable` refers to this handle's variable.
    pub fn has_ref(&self, variable: &VariableRef) -> (r: bool)
        ensures
            r == (self.0 == variable.0),
    {
        self.0 == variable.0
    }
}

impl VariableRef {
    /// The variable's data.
    pub fn borrow<'a>(&self, arena: &'a VariableArena) -> (r: &'a VariableData)
        requires
            self.0 < arena@.len(),
        ensures
            *r == arena@[self.0 as int],
    {
        arena.entry(self.0)
    }
}

/// Counting a read and then taking it back leaves every variable as it was.
pub proof fn lemma_read_then_unread(s: Seq<VariableData>, i: int)
    requires
        0 <= i < s.len(),
        s[i].reads < usize::MAX,
    ensures
        read_removed(read_added(s, i), i) == s,
{
    assert(read_removed(read_added(s, i), i) =~= s);
}

/// Each count touches only its own counter of its own variable: the others,
/// and every other variable, stay as they were.
pub proof fn lemma_counts_are_local(s: Seq<VariableData>, i: int, j: int)
    requires
        0 <= i < s.len(),
        0 <= j < s.len(),
        i != j,
    ensures
        read_added(s, i)[j] == s[j],
        write_added(s, i)[j] == s[j],
        readonly_ref_added(s, i)[j] == s[j],
        mutable_ref_added(s, i)[j] == s[j],
        read_added(s, i)[i].writes == s[i].writes,
        read_added(s, i)[i].mut_refs == s[i].mut_refs,
        read_added(s, i)[i].ro_refs == s[i].ro_refs,
        write_added(s, i)[i].reads == s[i].reads,
        readonly_ref_added(s, i)[i].reads == s[i].reads,
        mutable_ref_added(s, i)[i].reads == s[i].reads,
{
}

} // verus!
