//! Packages of the running program.
use std::collections::HashMap;
use vstd::prelude::*;

use crate::arena::Arena;
use crate::heap::{Heap, HeapState};
use crate::instruction::{OpIndex, ValueType};
use crate::keys::PackageKey;
use crate::stack;
use crate::stack::Stack;
use crate::value::GosValue;

verus! {

/// The packages of a program.
pub type PackageObjs = Arena<PackageKey, PackageVal>;

/// A package: its imports, constants, variables and functions are its members, each
/// in a cell of the heap. As long as the package is not initialized, it knows which
/// variable each result of its constructor is for.
#[derive(Clone, Debug)]
pub struct PackageVal {
    pub name: String,
    pub members: Vec<usize>,
    pub member_types: Vec<ValueType>,
    /// Names with the numbers that they were given. The last one counts.
    pub member_indices: Vec<(String, OpIndex)>,
    pub init_funcs: Vec<GosValue>,
    pub var_mapping: Option<HashMap<OpIndex, OpIndex>>,
}

/// What each name stands for, where later entries replace earlier ones.
pub open spec fn names_of(pairs: Seq<(String, OpIndex)>) -> Map<Seq<char>, OpIndex>
    decreases pairs.len(),
{
    if pairs.len() == 0 {
        Map::empty()
    } else {
        names_of(pairs.drop_last()).insert(pairs.last().0@, pairs.last().1)
    }
}

/// What is in the cell of member `i`.
pub open spec fn member_value(h: HeapState, members: Seq<usize>, i: int) -> GosValue {
    h.cells[members[i] as int]
}

impl PackageVal {
    /// Every member has a type and a cell.
    pub open spec fn has_cells(self, h: HeapState) -> bool {
        &&& self.members.len() == self.member_types.len()
        &&& forall|i: int|
            0 <= i < self.members.len() ==> #[trigger] self.members[i] < h.cells.len()
    }

    /// Every member has a type and a cell of its own, and names and results of the
    /// constructor stand for members.
    pub open spec fn wf(self, h: HeapState) -> bool {
        &&& self.has_cells(h)
        &&& forall|i: int, j: int|
            0 <= i < j < self.members.len() ==> #[trigger] self.members[i]
                != #[trigger] self.members[j]
        &&& forall|name: Seq<char>| #[trigger]
            self.names().contains_key(name) ==> 0 <= self.names()[name] < self.members.len()
        &&& self.mapping() matches Some(mapping) ==> forall|k: OpIndex| #[trigger]
            mapping.contains_key(k) ==> 0 <= mapping[k] < self.members.len()
    }

    /// The numbers of the members by name.
    pub open spec fn names(self) -> Map<Seq<char>, OpIndex> {
        names_of(self.member_indices@)
    }

    /// Which member each result of the constructor is for.
    pub open spec fn mapping(self) -> Option<Map<OpIndex, OpIndex>> {
        match self.var_mapping {
            Some(mapping) => Some(mapping@),
            None => None,
        }
    }

    pub fn new(name: String) -> (pkg: PackageVal)
        ensures
            pkg.name@ == name@,
            pkg.members@ == Seq::<usize>::empty(),
            pkg.member_types@ == Seq::<ValueType>::empty(),
            pkg.names() == Map::<Seq<char>, OpIndex>::empty(),
            pkg.init_funcs@ == Seq::<GosValue>::empty(),
            pkg.mapping() == Some(Map::<OpIndex, OpIndex>::empty()),
            forall|h: HeapState| pkg.wf(h),
    {
        PackageVal {
            name,
            members: Vec::new(),
            member_types: Vec::new(),
            member_indices: Vec::new(),
            init_funcs: Vec::new(),
            var_mapping: Some(HashMap::new()),
        }
    }

    /// Adds a member and returns its number.
    pub fn add_member(
        &mut self,
        name: String,
        val: GosValue,
        typ: ValueType,
        heap: &mut Heap,
    ) -> (index: OpIndex)
        requires
            old(self).members.len() <= i32::MAX,
        ensures
            index == old(self).members.len(),
            final(heap)@ == old(heap)@.plus_cell(val),
            final(self).name == old(self).name,
            final(self).members@ == old(self).members@.push(old(heap)@.cells.len() as usize),
            final(self).member_types@ == old(self).member_types@.push(typ),
            final(self).names() == old(self).names().insert(name@, index),
            final(self).init_funcs == old(self).init_funcs,
            final(self).var_mapping == old(self).var_mapping,
            old(self).wf(old(heap)@) && final(heap)@.addressable() ==> final(self).wf(
                final(heap)@,
            ),
    {
        self.members.push(heap.alloc_cell(val));
        self.member_types.push(typ);
        let index: OpIndex = (self.members.len() - 1) as OpIndex;
        self.member_indices.push((name, index));
        assert(self.member_indices@.drop_last() =~= old(self).member_indices@);
        proof {
            let before = old(self).names();
            let after = self.names();
            assert(after == before.insert(name@, index));
            assert(self.mapping() == old(self).mapping());
            if old(self).wf(old(heap)@) {
                assert forall|n: Seq<char>| #[trigger] after.contains_key(n) implies 0 <= after[n]
                    < self.members.len() by {
                    if n != name@ {
                        assert(before.contains_key(n));
                    }
                }
                assert forall|i: int| 0 <= i < self.members.len() && heap@.addressable() implies
                    #[trigger] self.members[i] < heap@.cells.len() by {
                    if i < old(self).members.len() {
                        assert(self.members[i] == old(self).members[i]);
                    }
                }
                assert forall|i: int, j: int|
                    0 <= i < j < self.members.len() && heap@.addressable() implies
                    #[trigger] self.members[i] != #[trigger] self.members[j] by {
                    assert(self.members[i] == old(self).members[i]);
                    if j < old(self).members.len() {
                        assert(self.members[j] == old(self).members[j]);
                    }
                }
            }
        }
        index
    }

    /// Notes that a result of the constructor is for the member with the given name,
    /// and returns the number of that member.
    pub fn add_var_mapping(&mut self, name: String, fn_index: OpIndex) -> (index: OpIndex)
        requires
            old(self).names().contains_key(name@),
            old(self).var_mapping is Some,
        ensures
            index == old(self).names()[name@],
            final(self).mapping() == Some(old(self).mapping()->0.insert(fn_index, index)),
            final(self).name == old(self).name,
            final(self).members == old(self).members,
            final(self).member_types == old(self).member_types,
            final(self).member_indices == old(self).member_indices,
            final(self).init_funcs == old(self).init_funcs,
            forall|h: HeapState| old(self).wf(h) ==> final(self).wf(h),
    {
        broadcast use vstd::std_specs::hash::group_hash_axioms;

        let index: OpIndex = *self.get_member_index(name.as_str()).unwrap();
        if let Some(mut mapping) = self.var_mapping.take() {
            mapping.insert(fn_index, index);
            self.var_mapping = Some(mapping);
        }
        index
    }

    pub fn add_init_func(&mut self, func: GosValue)
        ensures
            final(self).init_funcs@ == old(self).init_funcs@.push(func),
            final(self).name == old(self).name,
            final(self).members == old(self).members,
            final(self).member_types == old(self).member_types,
            final(self).member_indices == old(self).member_indices,
            final(self).var_mapping == old(self).var_mapping,
            forall|h: HeapState| old(self).wf(h) ==> final(self).wf(h),
    {
        self.init_funcs.push(func);
        assert(self.names() == old(self).names() && self.mapping() == old(self).mapping());
    }

    /// The number of the member with the given name.
    pub fn get_member_index(&self, name: &str) -> (index: Option<&OpIndex>)
        ensures
            index is Some <==> self.names().contains_key(name@),
            index matches Some(i) ==> *i == self.names()[name@],
    {
        let wanted: String = name.to_owned();
        let pairs: &Vec<(String, OpIndex)> = &self.member_indices;
        let mut i: usize = pairs.len();
        assert(pairs@.take(i as int) =~= pairs@);
        while i > 0
            invariant
                i <= pairs.len(),
                pairs@ == self.member_indices@,
                wanted@ == name@,
                names_of(pairs@).contains_key(name@) == names_of(
                    pairs@.take(i as int),
                ).contains_key(name@),
                names_of(pairs@).contains_key(name@) ==> names_of(pairs@)[name@] == names_of(
                    pairs@.take(i as int),
                )[name@],
            decreases i,
        {
            let ghost head = pairs@.take(i as int);
            assert(head.drop_last() =~= pairs@.take(i - 1));
            i = i - 1;
            if pairs[i].0 == wanted {
                return Some(&pairs[i].1);
            }
        }
        None
    }

    /// Whether the package is initialized.
    pub fn inited(&self) -> (inited: bool)
        ensures
            inited == self.var_mapping is None,
    {
        self.var_mapping.is_none()
    }

    pub fn set_inited(&mut self)
        ensures
            final(self).var_mapping is None,
            final(self).name == old(self).name,
            final(self).members == old(self).members,
            final(self).member_types == old(self).member_types,
            final(self).member_indices == old(self).member_indices,
            final(self).init_funcs == old(self).init_funcs,
            forall|h: HeapState| old(self).wf(h) ==> final(self).wf(h),
    {
        self.var_mapping = None;
        assert(self.names() == old(self).names());
    }

    pub fn member<'a>(&self, i: OpIndex, heap: &'a Heap) -> (val: &'a GosValue)
        requires
            0 <= i < self.members.len(),
            self.members[i as int] < heap@.cells.len(),
        ensures
            *val == member_value(heap@, self.members@, i as int),
    {
        &heap.cells[self.members[i as usize]]
    }

    /// Member `i`, to be changed in place.
    pub fn member_mut<'a>(&self, i: OpIndex, heap: &'a mut Heap) -> (val: &'a mut GosValue)
        requires
            0 <= i < self.members.len(),
            self.members[i as int] < old(heap)@.cells.len(),
        ensures
            *val == member_value(old(heap)@, self.members@, i as int),
            final(heap)@ == old(heap)@.with_cell(self.members[i as int], *final(val)),
    {
        heap.cell_mut(self.members[i as usize])
    }

    pub fn init_func(&self, i: OpIndex) -> (func: Option<&GosValue>)
        ensures
            func is Some <==> 0 <= i < self.init_funcs.len(),
            func matches Some(f) ==> *f == self.init_funcs[i as int],
    {
        if i >= 0 && (i as usize) < self.init_funcs.len() {
            Some(&self.init_funcs[i as usize])
        } else {
            None
        }
    }

    /// The heap and the stack after `n` results of the constructor were taken off the
    /// stack, the last one first, and put into the members that they are for.
    pub open spec fn vars_set(self, h: HeapState, slots: Seq<GosValue>, n: nat) -> (
        HeapState,
        Seq<GosValue>,
    )
        decreases n,
    {
        if n == 0 {
            (h, slots)
        } else {
            let (h1, slots1) = self.vars_set(h, slots, (n - 1) as nat);
            let mapping = self.mapping()->0;
            let vi = mapping[(mapping.len() - n) as OpIndex];
            (
                h1.with_cell(
                    self.members[vi as int],
                    stack::read_as(slots1.last(), self.member_types[vi as int]),
                ),
                slots1.drop_last(),
            )
        }
    }

    /// Whether the results of the constructor are numbered from zero on and each is
    /// for a member.
    pub open spec fn can_init(self) -> bool {
        &&& self.mapping() is Some
        &&& self.mapping()->0.len() <= i32::MAX
        &&& forall|k: OpIndex|
            0 <= k < self.mapping()->0.len() ==> #[trigger] self.mapping()->0.contains_key(k) && 0
                <= self.mapping()->0[k] < self.members.len()
    }

    /// Sets the variables of the package to the results of its constructor, which
    /// are on top of the stack.
    pub fn init_vars(&self, stack: &mut Stack, heap: &mut Heap)
        requires
            self.has_cells(old(heap)@),
            self.can_init(),
            self.mapping()->0.len() <= old(stack).slots.len(),
        ensures
            final(stack).id == old(stack).id,
            self.vars_set(old(heap)@, old(stack).slots@, self.mapping()->0.len()) == (
                final(heap)@,
                final(stack).slots@,
            ),
    {
        broadcast use vstd::std_specs::hash::group_hash_axioms;

        if let Some(mapping) = &self.var_mapping {
            let count: usize = mapping.len();
            let ghost start = heap@;
            let ghost slots = stack.slots@;
            let mut i: usize = 0;
            while i < count
                invariant
                    i <= count == mapping@.len(),
                    self.mapping() == Some(mapping@),
                    self.can_init(),
                    self.has_cells(start),
                    heap@.cells.len() == start.cells.len(),
                    count <= slots.len(),
                    stack.slots.len() == slots.len() - i,
                    stack.id == old(stack).id,
                    self.vars_set(start, slots, i as nat) == (heap@, stack.slots@),
                decreases count - i,
            {
                let k: OpIndex = (count - 1 - i) as OpIndex;
                assert(self.mapping()->0.contains_key(k));
                let vi: OpIndex = *mapping.get(&k).unwrap();
                let val = stack.pop_with_type(self.member_types[vi as usize]);
                *self.member_mut(vi, heap) = val;
                i = i + 1;
            }
        }
    }
}

/// A name that was given to a member finds that member, and other names find what
/// they found before.
pub proof fn law_members_are_found_by_name(
    pairs: Seq<(String, OpIndex)>,
    name: String,
    index: OpIndex,
    other: Seq<char>,
)
    ensures
        names_of(pairs.push((name, index))).contains_key(name@),
        names_of(pairs.push((name, index)))[name@] == index,
        other != name@ ==> names_of(pairs.push((name, index))).contains_key(other) == names_of(
            pairs,
        ).contains_key(other),
        other != name@ && names_of(pairs).contains_key(other) ==> names_of(
            pairs.push((name, index)),
        )[other] == names_of(pairs)[other],
{
    assert(pairs.push((name, index)).drop_last() =~= pairs);
}

/// The variables of a package get the results of its constructor in their order, and
/// exactly these leave the stack, if no two results are for one member.
pub proof fn law_variables_get_their_results(
    pkg: PackageVal,
    h: HeapState,
    slots: Seq<GosValue>,
    n: nat,
    k: OpIndex,
)
    requires
        pkg.wf(h),
        pkg.can_init(),
        n <= pkg.mapping()->0.len() <= slots.len(),
        pkg.mapping()->0.len() - n <= k < pkg.mapping()->0.len(),
        forall|i: OpIndex, j: OpIndex|
            0 <= i < j < pkg.mapping()->0.len() ==> #[trigger] pkg.mapping()->0[i]
                != #[trigger] pkg.mapping()->0[j],
    ensures
        pkg.vars_set(h, slots, n).1 == slots.take(slots.len() - n),
        pkg.vars_set(h, slots, n).0.cells.len() == h.cells.len(),
        member_value(
            pkg.vars_set(h, slots, n).0,
            pkg.members@,
            pkg.mapping()->0[k] as int,
        ) == stack::read_as(
            slots[slots.len() - pkg.mapping()->0.len() + k],
            pkg.member_types[pkg.mapping()->0[k] as int],
        ),
    decreases n,
{
    let count = pkg.mapping()->0.len();
    let last = (count - n) as OpIndex;
    lemma_slots_left(pkg, h, slots, (n - 1) as nat);
    lemma_slots_left(pkg, h, slots, n);
    assert(pkg.mapping()->0.contains_key(last));
    assert(pkg.mapping()->0.contains_key(k));
    if k > last {
        let a = pkg.mapping()->0[last];
        let b = pkg.mapping()->0[k];
        assert(a != b);
        assert(pkg.members[a as int] != pkg.members[b as int]);
        law_variables_get_their_results(pkg, h, slots, (n - 1) as nat, k);
    }
}

proof fn lemma_slots_left(pkg: PackageVal, h: HeapState, slots: Seq<GosValue>, n: nat)
    requires
        pkg.has_cells(h),
        pkg.can_init(),
        n <= pkg.mapping()->0.len() <= slots.len(),
    ensures
        pkg.vars_set(h, slots, n).1 == slots.take(slots.len() - n),
        pkg.vars_set(h, slots, n).0.cells.len() == h.cells.len(),
    decreases n,
{
    if n > 0 {
        lemma_slots_left(pkg, h, slots, (n - 1) as nat);
        assert(pkg.mapping()->0.contains_key((pkg.mapping()->0.len() - n) as OpIndex));
        assert(slots.take(slots.len() - n + 1).drop_last() =~= slots.take(slots.len() - n));
    } else {
        assert(slots.take(slots.len() as int) =~= slots);
    }
}

/// What is put into the cell of a member is read as that member, and the members with other
/// cells are read as before.
pub proof fn law_members_are_read_from_their_cells(
    h: HeapState,
    members: Seq<usize>,
    i: int,
    j: int,
    val: GosValue,
)
    requires
        0 <= i < members.len(),
        0 <= j < members.len(),
        members[i] < h.cells.len(),
        members[j] < h.cells.len(),
    ensures
        member_value(h.with_cell(members[i], val), members, i) == val,
        members[i] != members[j] ==> member_value(h.with_cell(members[i], val), members, j)
            == member_value(h, members, j),
        member_value(h, members, i) == h.cells[members[i] as int],
{
}

/// A member that was added is the last one and is read as the value that it was added with, and
/// those before it are read as before.
pub proof fn law_an_added_member_is_read(
    h: HeapState,
    members: Seq<usize>,
    val: GosValue,
    i: int,
)
    requires
        h.cells.len() < usize::MAX,
        0 <= i < members.len(),
        members[i] < h.cells.len(),
    ensures
        member_value(
            h.plus_cell(val),
            members.push(h.cells.len() as usize),
            members.len() as int,
        ) == val,
        member_value(h.plus_cell(val), members.push(h.cells.len() as usize), i) == member_value(
            h,
            members,
            i,
        ),
{
}

/// Names stand for what they were given for last, and a package without members has none.
pub proof fn law_no_names_at_first(name: Seq<char>)
    ensures
        !names_of(Seq::empty()).contains_key(name),
{
}

/// A variable of a package gets the result of the constructor that is for it: the value itself,
/// if it is of the type of the variable or no number or truth value.
pub proof fn law_a_variable_gets_the_value_itself(
    pkg: PackageVal,
    h: HeapState,
    slots: Seq<GosValue>,
    k: OpIndex,
)
    requires
        pkg.wf(h),
        pkg.can_init(),
        pkg.mapping()->0.len() <= slots.len(),
        0 <= k < pkg.mapping()->0.len(),
        forall|i: OpIndex, j: OpIndex|
            0 <= i < j < pkg.mapping()->0.len() ==> #[trigger] pkg.mapping()->0[i]
                != #[trigger] pkg.mapping()->0[j],
    ensures
        ({
            let result = slots[slots.len() - pkg.mapping()->0.len() + k];
            let member = pkg.mapping()->0[k] as int;
            let after = pkg.vars_set(h, slots, pkg.mapping()->0.len()).0;
            let read = after.cells[pkg.members[member] as int];
            &&& !(result is Scalar) ==> read == result
            &&& result.spec_value_type() == pkg.member_types[member] ==> read == result
            &&& result matches GosValue::Scalar(_, bits) ==> read == GosValue::Scalar(
                pkg.member_types[member],
                bits,
            )
        }),
{
    law_variables_get_their_results(pkg, h, slots, pkg.mapping()->0.len(), k);
}

/// Initializing the variables of a package changes the cells of the members that results are for,
/// and nothing else on the heap.
pub proof fn law_initializing_changes_variables_only(
    pkg: PackageVal,
    h: HeapState,
    slots: Seq<GosValue>,
    n: nat,
    cell: int,
)
    requires
        pkg.has_cells(h),
        pkg.can_init(),
        n <= pkg.mapping()->0.len() <= slots.len(),
        0 <= cell < h.cells.len(),
        forall|k: OpIndex|
            0 <= k < pkg.mapping()->0.len() ==> pkg.members[(
            #[trigger] pkg.mapping()->0[k]) as int] != cell,
    ensures
        ({
            let g = pkg.vars_set(h, slots, n).0;
            &&& g == (HeapState { cells: g.cells, ..h })
            &&& g.cells.len() == h.cells.len()
            &&& g.cells[cell] == h.cells[cell]
        }),
    decreases n,
{
    if n > 0 {
        law_initializing_changes_variables_only(pkg, h, slots, (n - 1) as nat, cell);
        assert(pkg.mapping()->0.contains_key((pkg.mapping()->0.len() - n) as OpIndex));
    }
}

} // verus!
