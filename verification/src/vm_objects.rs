//! All that a program is made of.
use vstd::prelude::*;

use crate::arena::Arena;
use crate::function_val::{FunctionObjs, FunctionVal};
use crate::keys::{FunctionKey, PackageKey};
use crate::metadata::{Meta, MetadataObjs, MetadataType, SigMetadata};
use crate::package_val::{PackageObjs, PackageVal};

verus! {

/// How many objects of each kind there is room for at first.
pub const DEFAULT_CAPACITY: usize = 128;

/// Types that every program has.
#[derive(Clone, Copy, Debug)]
pub struct StaticMeta {
    /// The signature without receiver, parameters and results.
    pub default_sig: Meta,
}

/// Whether a type is the signature without receiver, parameters and results.
pub open spec fn is_default_sig(t: MetadataType) -> bool {
    t matches MetadataType::Signature(sig) && sig.recv is None && sig.params@.len() == 0
        && sig.results@.len() == 0
}

impl StaticMeta {
    /// Adds the types that every program has.
    pub fn new(metas: &mut MetadataObjs) -> (s_meta: StaticMeta)
        requires
            old(metas).wf(),
            old(metas).size() < crate::arena::MAX_SLOTS,
        ensures
            final(metas).wf(),
            final(metas).size() == old(metas).size() + 1,
            !old(metas)@.contains_key(s_meta.default_sig.key),
            final(metas)@.dom() == old(metas)@.dom().insert(s_meta.default_sig.key),
            final(metas)@.remove(s_meta.default_sig.key) == old(metas)@,
            is_default_sig(final(metas)@[s_meta.default_sig.key]),
    {
        let key = metas.insert(
            MetadataType::Signature(
                SigMetadata { recv: None, params: Vec::new(), results: Vec::new() },
            ),
        );
        assert(metas@.remove(key) =~= old(metas)@);
        StaticMeta { default_sig: Meta { key } }
    }
}

/// The types, functions and packages of a program.
pub struct VMObjects {
    pub metas: MetadataObjs,
    pub functions: FunctionObjs,
    pub packages: PackageObjs,
    pub s_meta: StaticMeta,
}

impl VMObjects {
    /// Every key that was handed out leads to its object, and the types that every
    /// program has are there.
    pub open spec fn wf(self) -> bool {
        &&& self.metas.wf()
        &&& self.functions.wf()
        &&& self.packages.wf()
        &&& self.metas@.contains_key(self.s_meta.default_sig.key)
        &&& is_default_sig(self.metas@[self.s_meta.default_sig.key])
    }

    /// A program with nothing in it but the types that every program has.
    pub fn new() -> (objs: VMObjects)
        ensures
            objs.wf(),
            objs.metas.size() == 1,
            objs.functions.size() == 0,
            objs.packages.size() == 0,
            objs.metas@.dom() == set![objs.s_meta.default_sig.key],
            objs.functions@ == Map::<FunctionKey, FunctionVal>::empty(),
            objs.packages@ == Map::<PackageKey, PackageVal>::empty(),
    {
        let mut metas: MetadataObjs = Arena::with_capacity(DEFAULT_CAPACITY);
        let md = StaticMeta::new(&mut metas);
        assert(metas@.dom() =~= set![md.default_sig.key]);
        VMObjects {
            metas,
            functions: Arena::with_capacity(DEFAULT_CAPACITY),
            packages: Arena::with_capacity(DEFAULT_CAPACITY),
            s_meta: md,
        }
    }
}

/// The type that every program has is the signature of a function that takes nothing and gives
/// nothing, and has no receiver.
pub proof fn law_the_default_signature(objs: VMObjects)
    requires
        objs.wf(),
    ensures
        objs.metas@.contains_key(objs.s_meta.default_sig.key),
        objs.metas@[objs.s_meta.default_sig.key] matches MetadataType::Signature(sig)
            && sig.recv is None && sig.params.len() == 0 && sig.results.len() == 0,
{
}

} // verus!
