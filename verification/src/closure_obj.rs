//! Functions with the variables that they captured.
use std::collections::HashMap;
use vstd::prelude::*;

use crate::function_val::FunctionObjs;
use crate::heap::{Heap, HeapState};
use crate::keys::FunctionKey;
use crate::metadata::Meta;
use crate::upvalue::{UpValue, UpValueState, ValueDesc};
use crate::value::GosValue;

verus! {

/// A foreign function: a method of a foreign object, known by its number.
#[derive(Clone, Debug)]
pub struct FfiClosureObj {
    pub ffi: usize,
    pub func_name: String,
    pub meta: Meta,
}

/// A function of the program with its captured variables and its receiver, or a
/// foreign function.
#[derive(Clone, Debug)]
pub struct ClosureObj {
    pub func: Option<FunctionKey>,
    pub uvs: Option<HashMap<usize, UpValue>>,
    pub recv: Option<GosValue>,
    pub ffi: Option<Box<FfiClosureObj>>,
    pub meta: Meta,
}

/// The heap after an open up value was made for each captured variable in turn, and
/// these up values by the number of the variable.
pub open spec fn captured(h: HeapState, ptrs: Seq<ValueDesc>) -> (HeapState, Map<usize, UpValue>)
    decreases ptrs.len(),
{
    if ptrs.len() == 0 {
        (h, Map::empty())
    } else {
        let (h1, uvs) = captured(h, ptrs.drop_last());
        if ptrs.last().is_up_value {
            (
                h1.plus_upvalue(UpValueState::Open(ptrs.last())),
                uvs.insert(
                    (ptrs.len() - 1) as usize,
                    UpValue { inner: h1.upvalues.len() as usize },
                ),
            )
        } else {
            (h1, uvs)
        }
    }
}

/// Makes up values for the captured variables.
fn capture(ptrs: &Vec<ValueDesc>, heap: &mut Heap) -> (uvs: HashMap<usize, UpValue>)
    ensures
        captured(old(heap)@, ptrs@) == (final(heap)@, uvs@),
{
    broadcast use vstd::std_specs::hash::group_hash_axioms;

    let ghost start = heap@;
    let mut uvs: HashMap<usize, UpValue> = HashMap::new();
    let mut i: usize = 0;
    while i < ptrs.len()
        invariant
            i <= ptrs.len(),
            captured(start, ptrs@.take(i as int)) == (heap@, uvs@),
        decreases ptrs.len() - i,
    {
        assert(ptrs@.take(i + 1).drop_last() =~= ptrs@.take(i as int));
        if ptrs[i].is_up_value {
            uvs.insert(i, UpValue::new(ptrs[i], heap));
        }
        i = i + 1;
    }
    assert(ptrs@.take(i as int) =~= ptrs@);
    uvs
}

impl ClosureObj {
    /// The up values of the closure by the number of the variable.
    pub open spec fn uv_map(self) -> Option<Map<usize, UpValue>> {
        match self.uvs {
            Some(uvs) => Some(uvs@),
            None => None,
        }
    }

    /// A closure over a function of the program. Each variable that the function
    /// captures gets an open up value.
    pub fn new_gos(
        key: FunctionKey,
        fobjs: &FunctionObjs,
        recv: Option<GosValue>,
        heap: &mut Heap,
    ) -> (closure: ClosureObj)
        requires
            fobjs.wf(),
            fobjs@.contains_key(key),
        ensures
            closure.func == Some(key),
            closure.recv == recv,
            closure.ffi is None,
            closure.meta == fobjs@[key].meta,
            if fobjs@[key].up_ptrs.len() > 0 {
                closure.uv_map() == Some(captured(old(heap)@, fobjs@[key].up_ptrs@).1) && final(heap)@ == captured(old(heap)@, fobjs@[key].up_ptrs@).0
            } else {
                closure.uvs is None && final(heap)@ == old(heap)@
            },
    {
        let func = fobjs.at(key);
        let uvs: Option<HashMap<usize, UpValue>> = if func.up_ptrs.len() > 0 {
            Some(capture(&func.up_ptrs, heap))
        } else {
            None
        };
        ClosureObj { func: Some(key), uvs, recv, ffi: None, meta: func.meta }
    }

    /// A closure over a foreign function.
    pub fn new_ffi(ffi: FfiClosureObj) -> (closure: ClosureObj)
        ensures
            closure.func is None,
            closure.uvs is None,
            closure.recv is None,
            closure.ffi == Some(Box::new(ffi)),
            closure.meta == ffi.meta,
    {
        let m = ffi.meta;
        ClosureObj { func: None, uvs: None, recv: None, ffi: Some(Box::new(ffi)), meta: m }
    }
}

/// A new closure has exactly the variables that its function captures, each behind an
/// up value of its own that is open and leads to that variable. What was on the heap
/// is left alone.
pub proof fn law_captured_variables_are_reached(
    h: HeapState,
    ptrs: Seq<ValueDesc>,
    i: usize,
    j: usize,
)
    requires
        captured(h, ptrs).0.addressable(),
        ptrs.len() <= usize::MAX,
        i < ptrs.len(),
        j < ptrs.len(),
    ensures
        captured(h, ptrs).1.contains_key(i) == ptrs[i as int].is_up_value,
        ptrs[i as int].is_up_value ==> captured(h, ptrs).1[i].alive(captured(h, ptrs).0),
        ptrs[i as int].is_up_value ==> captured(h, ptrs).1[i].state(captured(h, ptrs).0)
            == UpValueState::Open(ptrs[i as int]),
        i != j && ptrs[i as int].is_up_value && ptrs[j as int].is_up_value ==> captured(
            h,
            ptrs,
        ).1[i] != captured(h, ptrs).1[j],
        captured(h, ptrs).0 == (HeapState { upvalues: captured(h, ptrs).0.upvalues, ..h }),
        h.upvalues.len() <= captured(h, ptrs).0.upvalues.len(),
        forall|k: int|
            0 <= k < h.upvalues.len() ==> #[trigger] captured(h, ptrs).0.upvalues[k]
                == h.upvalues[k],
{
    lemma_captured(h, ptrs);
    let uvs = captured(h, ptrs).1;
    assert(uvs.contains_key(i) <==> ptrs[i as int].is_up_value);
    assert(uvs.contains_key(j) <==> ptrs[j as int].is_up_value);
}

/// What holds of the up values that were made for some variables.
spec fn captured_well(h: HeapState, ptrs: Seq<ValueDesc>) -> bool {
    let (g, uvs) = captured(h, ptrs);
    &&& g == (HeapState { upvalues: g.upvalues, ..h })
    &&& h.upvalues.len() <= g.upvalues.len()
    &&& forall|k: int| 0 <= k < h.upvalues.len() ==> #[trigger] g.upvalues[k] == h.upvalues[k]
    &&& forall|i: usize| #[trigger]
        uvs.contains_key(i) <==> i < ptrs.len() && ptrs[i as int].is_up_value
    &&& forall|i: usize| #[trigger]
        uvs.contains_key(i) ==> uvs[i].inner < g.upvalues.len() && g.upvalues[uvs[i].inner as int]
            == Some(UpValueState::Open(ptrs[i as int]))
    &&& forall|i: usize, j: usize|
        #![trigger uvs[i], uvs[j]]
        uvs.contains_key(i) && uvs.contains_key(j) && i != j ==> uvs[i] != uvs[j]
}

proof fn lemma_captured(h: HeapState, ptrs: Seq<ValueDesc>)
    requires
        captured(h, ptrs).0.addressable(),
        ptrs.len() <= usize::MAX,
    ensures
        captured_well(h, ptrs),
    decreases ptrs.len(),
{
    if ptrs.len() > 0 {
        lemma_captured(h, ptrs.drop_last());
    }
}

/// A closure has no up values but those of the variables that its function captures, and every up
/// value that was made for it is one of them.
pub proof fn law_nothing_else_is_captured(h: HeapState, ptrs: Seq<ValueDesc>, i: usize, k: int)
    requires
        captured(h, ptrs).0.addressable(),
        ptrs.len() <= usize::MAX,
        h.upvalues.len() <= k < captured(h, ptrs).0.upvalues.len(),
    ensures
        captured(h, ptrs).1.contains_key(i) ==> i < ptrs.len() && ptrs[i as int].is_up_value,
        exists|j: usize|
            #![trigger captured(h, ptrs).1[j]]
            j < ptrs.len() && captured(h, ptrs).1.contains_key(j) && captured(h, ptrs).1[j].inner
                == k,
    decreases ptrs.len(),
{
    lemma_captured(h, ptrs);
    if ptrs.len() > 0 {
        let (h1, uvs) = captured(h, ptrs.drop_last());
        lemma_captured(h, ptrs.drop_last());
        if k < h1.upvalues.len() {
            law_nothing_else_is_captured(h, ptrs.drop_last(), i, k);
            let j = choose|j: usize|
                #![trigger captured(h, ptrs.drop_last()).1[j]]
                j < ptrs.drop_last().len() && captured(h, ptrs.drop_last()).1.contains_key(j)
                    && captured(h, ptrs.drop_last()).1[j].inner == k;
            assert(captured(h, ptrs).1[j] == uvs[j]);
        } else {
            let j = (ptrs.len() - 1) as usize;
            assert(captured(h, ptrs).1[j].inner == k);
        }
    }
}

} // verus!
