//! Structs.
use std::collections::hash_map::DefaultHasher;
use vstd::prelude::*;

use crate::compare;
use crate::compare::same_values;
use crate::hashing;
use crate::hashing::hash_row;
use crate::heap::{Heap, HeapState};
use crate::metadata::{Meta, MetadataObjs, MetadataType};
use crate::text;
use crate::text::row_text;
use crate::value::GosValue;

verus! {

/// A struct: the values of its fields.
#[derive(Clone, Debug)]
pub struct StructObj {
    pub fields: Vec<GosValue>,
}

/// The value that the indices lead to from `val`: each names a field of the struct
/// that was reached before it. There is none where something else was reached, or a
/// struct with too few fields.
pub open spec fn embedded(h: HeapState, val: GosValue, indices: Seq<usize>) -> Option<GosValue>
    decreases indices.len(),
{
    if indices.len() == 0 {
        Some(val)
    } else {
        match embedded(h, val, indices.drop_last()) {
            Some(GosValue::Struct(id)) => if id < h.structs.len() && indices.last()
                < h.structs[id as int].obj.len() {
                Some(h.structs[id as int].obj[indices.last() as int])
            } else {
                None
            },
            _ => None,
        }
    }
}

proof fn lemma_embedded_prefix(h: HeapState, val: GosValue, indices: Seq<usize>, n: int)
    requires
        0 <= n <= indices.len(),
        embedded(h, val, indices) is Some,
    ensures
        embedded(h, val, indices.take(n)) is Some,
    decreases indices.len(),
{
    if n == indices.len() {
        assert(indices.take(n) =~= indices);
    } else {
        lemma_embedded_prefix(h, val, indices.drop_last(), n);
        assert(indices.drop_last().take(n) =~= indices.take(n));
    }
}

impl StructObj {
    /// Whether field `index` of a struct type can be seen outside its package.
    pub fn is_exported(index: usize, meta: &Meta, metas: &MetadataObjs) -> (exported: bool)
        requires
            metas.wf(),
            metas@.contains_key(meta.key),
            metas@[meta.key] matches MetadataType::Struct(fields, _) && index < fields.fields.len(),
        ensures
            metas@[meta.key] matches MetadataType::Struct(fields, _) && exported
                == fields.fields[index as int].exported,
    {
        match metas.at(meta.key) {
            MetadataType::Struct(fields, _) => fields.is_exported(index),
            _ => false,
        }
    }

    /// The value that the indices lead to, see [`embedded`].
    pub fn get_embeded(struct_: GosValue, indices: &Vec<usize>, heap: &Heap) -> (val: GosValue)
        requires
            embedded(heap@, struct_, indices@) is Some,
        ensures
            val == embedded(heap@, struct_, indices@)->0,
    {
        let mut cur_val: GosValue = struct_;
        let mut i: usize = 0;
        while i < indices.len()
            invariant
                i <= indices.len(),
                embedded(heap@, struct_, indices@) is Some,
                embedded(heap@, struct_, indices@.take(i as int)) == Some(cur_val),
            decreases indices.len() - i,
        {
            proof {
                lemma_embedded_prefix(heap@, struct_, indices@, i + 1);
                assert(indices@.take(i + 1).drop_last() =~= indices@.take(i as int));
            }
            if let GosValue::Struct(id) = cur_val {
                cur_val = heap.fields(id)[indices[i]];
            }
            i = i + 1;
        }
        assert(indices@.take(i as int) =~= indices@);
        cur_val
    }

    /// Whether the fields of two structs are equal, as far as the first has fields.
    pub fn eq(&self, other: &StructObj, heap: &Heap) -> (same: bool)
        requires
            compare::values_eq(heap@, self.fields@, other.fields@, 0) is Some,
        ensures
            same == compare::values_eq(heap@, self.fields@, other.fields@, 0)->0,
    {
        same_values(heap, &self.fields, &other.fields)
    }

    /// Hashes the fields one after the other.
    pub fn hash(&self, heap: &Heap, state: &mut DefaultHasher)
        requires
            hashing::values_hash(heap@, self.fields@, 0) is Some,
        ensures
            final(state)@ == old(state)@ + hashing::values_hash(heap@, self.fields@, 0)->0,
    {
        hash_row(heap, &self.fields, state)
    }

    /// The text of the struct, with `show` for the fields.
    pub fn fmt<F: Fn(&GosValue) -> String>(&self, show: &F) -> (out: String)
        requires
            forall|i: int|
                0 <= i < self.fields.len() ==> call_requires(show, (&#[trigger] self.fields[i],)),
        ensures
            text::is_row_text(*show, "{"@, self.fields@, "}"@, out@),
    {
        row_text(show, "{", self.fields.as_slice(), "}")
    }
}

/// No index leads to the value itself. One more index leads from a struct to its field with that
/// number, and from anything else nowhere.
pub proof fn law_where_one_more_index_leads(
    h: HeapState,
    val: GosValue,
    indices: Seq<usize>,
    i: usize,
)
    ensures
        embedded(h, val, Seq::empty()) == Some(val),
        embedded(h, val, indices) matches Some(GosValue::Struct(id)) ==> {
            &&& id < h.structs.len() && i < h.structs[id as int].obj.len() ==> embedded(
                h,
                val,
                indices.push(i),
            ) == Some(h.structs[id as int].obj[i as int])
            &&& id >= h.structs.len() || i >= h.structs[id as int].obj.len() ==> embedded(
                h,
                val,
                indices.push(i),
            ) is None
        },
        embedded(h, val, indices) is None ==> embedded(h, val, indices.push(i)) is None,
        embedded(h, val, indices) matches Some(v) && !(v is Struct) ==> embedded(
            h,
            val,
            indices.push(i),
        ) is None,
{
    assert(indices.push(i).drop_last() =~= indices);
}

/// A path that is put together of two leads where the second leads from where the first leads.
pub proof fn law_paths_are_followed_in_order(
    h: HeapState,
    val: GosValue,
    first: Seq<usize>,
    second: Seq<usize>,
)
    requires
        embedded(h, val, first) is Some,
    ensures
        embedded(h, val, first + second) == embedded(h, embedded(h, val, first)->0, second),
    decreases second.len(),
{
    if second.len() == 0 {
        assert(first + second =~= first);
    } else {
        assert((first + second).drop_last() =~= first + second.drop_last());
        assert((first + second).last() == second.last());
        law_paths_are_followed_in_order(h, val, first, second.drop_last());
    }
}

} // verus!
