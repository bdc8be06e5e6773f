//! Putting a program together from its checked packages.
use vstd::prelude::*;
use vstd::string::StringExecFns;

use crate::arena::MAX_SLOTS;
use crate::function_val;
use crate::function_val::{FuncFlag, FunctionState, FunctionVal};
use crate::heap::{Heap, HeapState};
use crate::interface_obj::{Binding4Runtime, IfaceBinding};
use crate::keys;
use crate::keys::{null_key, FunctionKey, MetadataKey, PackageKey};
use crate::metadata::{Meta, MetadataType, MethodDesc};
use crate::package_val::PackageVal;
use crate::value::GosValue;
use crate::vm_objects::{StaticMeta, VMObjects};

verus! {

/// What an instruction works on, before registers and constants have got their
/// final numbers.
#[derive(Clone, Copy, Debug, PartialEq, Eq, Structural)]
pub enum Addr {
    /// A register of the call.
    Register(usize),
    /// A package among the constants.
    PkgConst(usize),
    /// The member of a package with the name that an identifier has.
    PkgMemberIndex(PackageKey, usize),
}

/// How a function is called.
#[derive(Clone, Copy, Debug, PartialEq, Eq, Structural)]
pub enum CallStyle {
    Default,
    Async,
    Defer,
}

/// An instruction before its parts have got their final numbers.
#[derive(Clone, Copy, Debug, PartialEq, Eq, Structural)]
pub enum InterInst {
    /// Initialize a package.
    Import(PackageKey),
    /// Put a member of a package into a register.
    LoadPkg(Addr, Addr, Addr),
    /// Call the function in a register, with arguments from a register on.
    Call(Addr, usize, CallStyle),
    /// Go back to the caller.
    Return,
}

/// The constants of a program that is being put together.
#[derive(Debug)]
pub struct Consts {
    pub packages: Vec<PackageKey>,
}

/// The place of the first package that is `pkg`, from `i` on, or the end.
pub open spec fn package_place(packages: Seq<PackageKey>, pkg: PackageKey, i: int) -> int
    decreases packages.len() - i,
{
    if i >= packages.len() || packages[i] == pkg {
        i
    } else {
        package_place(packages, pkg, i + 1)
    }
}

/// The packages, with `pkg` at the end if it was not among them.
pub open spec fn with_package(packages: Seq<PackageKey>, pkg: PackageKey) -> Seq<PackageKey> {
    if package_place(packages, pkg, 0) < packages.len() {
        packages
    } else {
        packages.push(pkg)
    }
}

impl Consts {
    pub fn new() -> (consts: Consts)
        ensures
            consts.packages@ == Seq::<PackageKey>::empty(),
    {
        Consts { packages: Vec::new() }
    }

    /// The place of a package among the constants, where it is put if need be.
    pub fn add_package(&mut self, pkg: PackageKey) -> (index: usize)
        ensures
            index == package_place(old(self).packages@, pkg, 0),
            final(self).packages@ == with_package(old(self).packages@, pkg),
            index < final(self).packages@.len(),
            final(self).packages@[index as int] == pkg,
    {
        let mut i: usize = 0;
        while i < self.packages.len()
            invariant
                i <= self.packages.len(),
                self.packages@ == old(self).packages@,
                package_place(self.packages@, pkg, 0) == package_place(
                    self.packages@,
                    pkg,
                    i as int,
                ),
            decreases self.packages.len() - i,
        {
            if self.packages[i] == pkg {
                return i;
            }
            i = i + 1;
        }
        self.packages.push(pkg);
        i
    }
}

/// A function that is being put together.
#[derive(Debug)]
pub struct FuncCtx {
    pub f_key: FunctionKey,
    /// The function in the checked program, if it comes from there.
    pub tc_key: Option<u64>,
    pub code: Vec<InterInst>,
    /// The position of each instruction in the source.
    pub pos: Vec<Option<usize>>,
}

impl FuncCtx {
    pub fn new(f_key: FunctionKey, tc_key: Option<u64>) -> (fctx: FuncCtx)
        ensures
            fctx.f_key == f_key,
            fctx.tc_key == tc_key,
            fctx.code@ == Seq::<InterInst>::empty(),
            fctx.pos@ == Seq::<Option<usize>>::empty(),
    {
        FuncCtx { f_key, tc_key, code: Vec::new(), pos: Vec::new() }
    }

    /// Adds an instruction.
    pub fn emit(&mut self, inst: InterInst, pos: Option<usize>)
        ensures
            final(self).f_key == old(self).f_key,
            final(self).tc_key == old(self).tc_key,
            final(self).code@ == old(self).code@.push(inst),
            final(self).pos@ == old(self).pos@.push(pos),
    {
        self.code.push(inst);
        self.pos.push(pos);
    }
}

/// The objects of a program that is being put together.
pub struct CodeGenVMCtx {
    pub vmo: VMObjects,
}

impl CodeGenVMCtx {
    pub fn new(vmo: VMObjects) -> (vmctx: CodeGenVMCtx)
        ensures
            vmctx.vmo == vmo,
    {
        CodeGenVMCtx { vmo }
    }

    /// The types that every program has.
    pub fn prim_meta(&self) -> (s_meta: StaticMeta)
        ensures
            s_meta == self.vmo.s_meta,
    {
        self.vmo.s_meta
    }

    /// Adds a function with the given signature. One that belongs to no package has the
    /// null key for its package.
    pub fn function_with_meta(
        &mut self,
        package: Option<PackageKey>,
        meta: Meta,
        flag: FuncFlag,
        heap: &mut Heap,
    ) -> (val: GosValue)
        requires
            old(self).vmo.wf(),
            old(self).vmo.functions.size() < MAX_SLOTS,
            old(self).vmo.metas@.contains_key(meta.key),
            old(self).vmo.metas@[meta.key] matches MetadataType::Signature(sig)
                && function_val::zeros_of(old(heap)@, old(self).vmo.metas@, sig.results@) is Some
                && forall|i: int|
                0 <= i < function_val::input_types(sig).len() ==> old(self).vmo.metas@.contains_key((#[trigger] function_val::input_types(sig)[i]).key),
        ensures
            final(self).vmo.wf(),
            final(self).vmo.metas == old(self).vmo.metas,
            final(self).vmo.packages == old(self).vmo.packages,
            final(self).vmo.s_meta == old(self).vmo.s_meta,
            final(self).vmo.functions.size() == old(self).vmo.functions.size() + 1,
            val matches GosValue::Function(key) && !old(self).vmo.functions@.contains_key(key)
                && final(self).vmo.functions@.contains_key(key) && final(self).vmo.functions@.remove(key) == old(self).vmo.functions@ && is_fresh_function(
                final(self).vmo.functions@[key]@,
                package,
                meta,
                flag,
                old(self).vmo.metas@,
                old(heap)@,
                final(heap)@,
            ),
    {
        let pkg: PackageKey = match package {
            Some(p) => p,
            None => null_key(),
        };
        let func = FunctionVal::new(pkg, meta, &self.vmo.metas, heap, flag);
        let key = self.vmo.functions.insert(func);
        assert(self.vmo.functions@.remove(key) =~= old(self).vmo.functions@);
        GosValue::Function(key)
    }
}

/// Whether a function is a new one with the given signature, where `h` and `g` are the
/// heap before and after its zero values were made.
pub open spec fn is_fresh_function(
    func: FunctionState,
    package: Option<PackageKey>,
    meta: Meta,
    flag: FuncFlag,
    metas: Map<MetadataKey, MetadataType>,
    h: HeapState,
    g: HeapState,
) -> bool {
    &&& metas[meta.key] matches MetadataType::Signature(sig) && function_val::zeros_of(
        h,
        metas,
        sig.results@,
    ) matches Some((g1, zeros)) && g == g1 && func == FunctionState::fresh(
        func.package,
        meta,
        function_val::value_types(metas, function_val::input_types(sig)),
        zeros,
        flag,
    )
    &&& match package {
        Some(p) => func.package == p,
        None => func.package.number == keys::NULL_KEY,
    }
}

/// Whether a function has no receiver, no parameters, no results and nothing in it.
pub open spec fn is_default_function(
    func: FunctionState,
    package: Option<PackageKey>,
    meta: Meta,
    flag: FuncFlag,
) -> bool {
    &&& func == FunctionState::fresh(func.package, meta, Seq::empty(), Seq::empty(), flag)
    &&& match package {
        Some(p) => func.package == p,
        None => func.package.number == keys::NULL_KEY,
    }
}

/// The code of the function that a program starts with: it initializes the main
/// package, loads the function with the given name from it, calls that function and
/// goes back.
pub open spec fn entry_code(pkg: PackageKey, place: usize, main_ident: usize) -> Seq<InterInst> {
    seq![
        InterInst::Import(pkg),
        InterInst::LoadPkg(
            Addr::Register(0),
            Addr::PkgConst(place),
            Addr::PkgMemberIndex(pkg, main_ident),
        ),
        InterInst::Call(Addr::Register(0), 0, CallStyle::Default),
        InterInst::Return,
    ]
}

/// Makes the function that a program starts with.
pub fn gen_entry_func(
    vmctx: &mut CodeGenVMCtx,
    consts: &mut Consts,
    pkg: PackageKey,
    main_ident: usize,
    heap: &mut Heap,
) -> (fctx: FuncCtx)
    requires
        old(vmctx).vmo.wf(),
        old(vmctx).vmo.functions.size() < MAX_SLOTS,
    ensures
        final(vmctx).vmo.wf(),
        final(vmctx).vmo.metas == old(vmctx).vmo.metas,
        final(vmctx).vmo.packages == old(vmctx).vmo.packages,
        final(vmctx).vmo.s_meta == old(vmctx).vmo.s_meta,
        final(vmctx).vmo.functions.size() == old(vmctx).vmo.functions.size() + 1,
        !old(vmctx).vmo.functions@.contains_key(fctx.f_key),
        final(vmctx).vmo.functions@.remove(fctx.f_key) == old(vmctx).vmo.functions@,
        final(vmctx).vmo.functions@.contains_key(fctx.f_key),
        is_default_function(
            final(vmctx).vmo.functions@[fctx.f_key]@,
            None,
            old(vmctx).vmo.s_meta.default_sig,
            FuncFlag::Default,
        ),
        final(heap)@ == old(heap)@,
        final(consts).packages@ == with_package(old(consts).packages@, pkg),
        fctx.tc_key is None,
        fctx.code@ == entry_code(
            pkg,
            package_place(old(consts).packages@, pkg, 0) as usize,
            main_ident,
        ),
        fctx.pos@ == Seq::new(4, |i: int| None::<usize>),
{
    let fmeta = vmctx.prim_meta().default_sig;
    let fobj = vmctx.function_with_meta(None, fmeta, FuncFlag::Default, heap);
    let fkey: FunctionKey = match fobj {
        GosValue::Function(key) => key,
        _ => null_key(),
    };
    proof {
        let func = vmctx.vmo.functions@[fkey]@;
        assert(func.stack_temp_types =~= Seq::empty());
        assert(func.ret_zeros =~= Seq::empty());
    }
    let mut fctx = FuncCtx::new(fkey, None);
    fctx.emit(InterInst::Import(pkg), None);
    let pkg_addr = Addr::PkgConst(consts.add_package(pkg));
    let index = Addr::PkgMemberIndex(pkg, main_ident);
    fctx.emit(InterInst::LoadPkg(Addr::Register(0), pkg_addr, index), None);
    fctx.emit(InterInst::Call(Addr::Register(0), 0, CallStyle::Default), None);
    fctx.emit(InterInst::Return, None);
    assert(fctx.pos@ =~= Seq::new(4, |i: int| None::<usize>));
    fctx
}

/// A package that was found to be well typed, known by the number of its key among the
/// checked packages.
#[derive(Clone, Debug)]
pub struct CheckedPackage {
    pub key: u64,
    pub name: Option<String>,
}

/// What importing a program came to.
#[derive(Clone, Debug)]
pub struct ImportOutcome {
    pub errors: Vec<String>,
    /// The key of the main package, if it could be imported.
    pub main_pkg: Option<u64>,
    pub packages: Vec<CheckedPackage>,
    /// The identifiers of the program.
    pub idents: Vec<String>,
}

/// Whether every package has a name and a key of its own.
pub open spec fn well_checked(packages: Seq<CheckedPackage>) -> bool {
    &&& forall|i: int| 0 <= i < packages.len() ==> (#[trigger] packages[i]).name is Some
    &&& forall|i: int, j: int|
        0 <= i < j < packages.len() ==> (#[trigger] packages[i]).key != (
        #[trigger] packages[j]).key
}

/// Whether one of the packages has the given key.
pub open spec fn has_package(packages: Seq<CheckedPackage>, key: u64) -> bool {
    exists|i: int| 0 <= i < packages.len() && (#[trigger] packages[i]).key == key
}

/// Whether a package has the given name and nothing else.
pub open spec fn is_new_package(pkg: PackageVal, name: Seq<char>) -> bool {
    &&& pkg.name@ == name
    &&& pkg.members@.len() == 0
    &&& pkg.member_types@.len() == 0
    &&& pkg.names() == Map::<Seq<char>, i32>::empty()
    &&& pkg.init_funcs@.len() == 0
    &&& pkg.mapping() == Some(Map::<i32, i32>::empty())
}

/// Whether `pairs` gives each checked package a package of the program that is new and
/// has its name, no two of them the same.
pub open spec fn registered(
    packages: Seq<CheckedPackage>,
    pairs: Seq<(u64, PackageKey)>,
    objs: Map<PackageKey, PackageVal>,
) -> bool {
    &&& pairs.len() == packages.len()
    &&& forall|i: int|
        0 <= i < pairs.len() ==> {
            &&& (#[trigger] pairs[i]).0 == packages[i].key
            &&& objs.contains_key(pairs[i].1)
            &&& is_new_package(objs[pairs[i].1], packages[i].name->0@)
        }
    &&& forall|i: int, j: int|
        0 <= i < j < pairs.len() ==> (#[trigger] pairs[i]).1 != (#[trigger] pairs[j]).1
    &&& forall|key: PackageKey| #[trigger]
        objs.contains_key(key) ==> exists|i: int|
            0 <= i < pairs.len() && (#[trigger] pairs[i]).1 == key
}

/// Makes a package of the program for each checked package, in their order.
fn register_packages(vmctx: &mut CodeGenVMCtx, packages: &Vec<CheckedPackage>) -> (pairs: Vec<
    (u64, PackageKey),
>)
    requires
        old(vmctx).vmo.wf(),
        old(vmctx).vmo.packages.size() == 0,
        old(vmctx).vmo.packages@ == Map::<PackageKey, PackageVal>::empty(),
        packages.len() <= MAX_SLOTS,
        well_checked(packages@),
    ensures
        final(vmctx).vmo.wf(),
        final(vmctx).vmo.metas == old(vmctx).vmo.metas,
        final(vmctx).vmo.functions == old(vmctx).vmo.functions,
        final(vmctx).vmo.s_meta == old(vmctx).vmo.s_meta,
        registered(packages@, pairs@, final(vmctx).vmo.packages@),
{
    let mut pairs: Vec<(u64, PackageKey)> = Vec::new();
    let mut i: usize = 0;
    while i < packages.len()
        invariant
            i <= packages.len() <= MAX_SLOTS,
            well_checked(packages@),
            vmctx.vmo.wf(),
            vmctx.vmo.metas == old(vmctx).vmo.metas,
            vmctx.vmo.functions == old(vmctx).vmo.functions,
            vmctx.vmo.s_meta == old(vmctx).vmo.s_meta,
            vmctx.vmo.packages.size() == i,
            registered(packages@.take(i as int), pairs@, vmctx.vmo.packages@),
        decreases packages.len() - i,
    {
        assert(packages[i as int].name is Some);
        if let Some(text) = &packages[i].name {
            let ghost before = vmctx.vmo.packages@;
            let ghost pairs_before = pairs@;
            let pkey = vmctx.vmo.packages.insert(PackageVal::new(text.clone()));
            pairs.push((packages[i].key, pkey));
            proof {
                let objs = vmctx.vmo.packages@;
                assert forall|k: int| 0 <= k < pairs@.len() implies {
                    &&& (#[trigger] pairs@[k]).0 == packages@.take(i + 1)[k].key
                    &&& objs.contains_key(pairs@[k].1)
                    &&& is_new_package(objs[pairs@[k].1], packages@.take(i + 1)[k].name->0@)
                } by {
                    if k < i {
                        assert(pairs@[k] == pairs_before[k]);
                        assert(packages@.take(i + 1)[k] == packages@.take(i as int)[k]);
                    }
                }
                assert forall|m: int, n: int| 0 <= m < n < pairs@.len() implies (
                #[trigger] pairs@[m]).1 != (#[trigger] pairs@[n]).1 by {
                    assert(pairs@[m] == pairs_before[m]);
                    if n < i {
                        assert(pairs@[n] == pairs_before[n]);
                    }
                }
                assert forall|key: PackageKey| #[trigger] objs.contains_key(key) implies exists|
                    k: int,
                |
                    0 <= k < pairs@.len() && (#[trigger] pairs@[k]).1 == key by {
                    if key == pkey {
                        assert(pairs@[i as int].1 == key);
                    } else {
                        assert(before.contains_key(key));
                        let k = choose|k: int|
                            0 <= k < pairs_before.len() && (#[trigger] pairs_before[k]).1 == key;
                        assert(pairs@[k].1 == key);
                    }
                }
            }
        }
        i = i + 1;
    }
    assert(packages@.take(i as int) =~= packages@);
    pairs
}

/// A program that is being put together: its packages and its first function are
/// there, and the functions of its packages are added one package after the other.
pub struct ByteCodeGen {
    pub vmctx: CodeGenVMCtx,
    pub consts: Consts,
    /// The package of the program for each checked package.
    pub packages: Vec<(u64, PackageKey)>,
    pub main_pkg: PackageKey,
    pub entry_key: FunctionKey,
    /// The functions in the order in which they were made.
    pub result_funcs: Vec<FuncCtx>,
    /// How many packages have had their functions added.
    pub done: usize,
}

/// A whole program.
pub struct Bytecode {
    pub objects: VMObjects,
    pub consts: Vec<GosValue>,
    pub ifaces: Vec<(Meta, Vec<Binding4Runtime>)>,
    pub indices: Vec<Vec<usize>>,
    pub entry: FunctionKey,
    pub main_pkg: PackageKey,
    /// The functions, whose instructions are to be given their final form in this
    /// order.
    pub funcs: Vec<FuncCtx>,
}

/// Starts to put a program together: makes its packages and the function that it
/// starts with.
pub fn gen_byte_code(
    packages: &Vec<CheckedPackage>,
    tc_main_pkg: u64,
    main_ident: usize,
    heap: &mut Heap,
) -> (gen: ByteCodeGen)
    requires
        packages.len() <= MAX_SLOTS,
        well_checked(packages@),
        has_package(packages@, tc_main_pkg),
    ensures
        final(heap)@ == old(heap)@,
        gen.wf(),
        registered(packages@, gen.packages@, gen.vmctx.vmo.packages@),
        gen.packages@.contains((tc_main_pkg, gen.main_pkg)),
        gen.consts.packages@ == seq![gen.main_pkg],
        gen.vmctx.vmo.functions@.dom() == set![gen.entry_key],
        gen.vmctx.vmo.functions.size() == 1,
        gen.vmctx.vmo.metas@.dom() == set![gen.vmctx.vmo.s_meta.default_sig.key],
        gen.vmctx.vmo.metas.size() == 1,
        is_default_function(
            gen.vmctx.vmo.functions@[gen.entry_key]@,
            None,
            gen.vmctx.vmo.s_meta.default_sig,
            FuncFlag::Default,
        ),
        gen.result_funcs.len() == 1,
        gen.result_funcs[0].f_key == gen.entry_key,
        gen.result_funcs[0].tc_key is None,
        gen.result_funcs[0].code@ == entry_code(gen.main_pkg, 0, main_ident),
        gen.result_funcs[0].pos@ == Seq::new(4, |i: int| None::<usize>),
        gen.done == 0,
{
    let mut vmctx = CodeGenVMCtx::new(VMObjects::new());
    let mut consts = Consts::new();
    let pairs: Vec<(u64, PackageKey)> = register_packages(&mut vmctx, packages);
    let place: usize = place_of(&pairs, tc_main_pkg, packages);
    let main_pkg = pairs[place].1;
    let entry = gen_entry_func(&mut vmctx, &mut consts, main_pkg, main_ident, heap);
    let entry_key = entry.f_key;
    proof {
        assert(pairs@[place as int] == (tc_main_pkg, main_pkg));
        assert(vmctx.vmo.functions@.dom() =~= set![entry_key]) by {
            assert forall|k: FunctionKey| vmctx.vmo.functions@.contains_key(k) implies k
                == entry_key by {
                if k != entry_key {
                    assert(vmctx.vmo.functions@.remove(entry_key).contains_key(k));
                }
            }
        }
        assert(consts.packages@ =~= seq![main_pkg]);
    }
    let mut result_funcs: Vec<FuncCtx> = Vec::new();
    result_funcs.push(entry);
    let gen = ByteCodeGen {
        vmctx,
        consts,
        packages: pairs,
        main_pkg,
        entry_key,
        result_funcs,
        done: 0,
    };
    assert(gen.packages[place as int].1 == gen.main_pkg);
    gen
}

/// The place of a package among the pairs.
fn place_of(pairs: &Vec<(u64, PackageKey)>, key: u64, packages: &Vec<CheckedPackage>) -> (place:
    usize)
    requires
        pairs.len() == packages.len(),
        forall|i: int| 0 <= i < pairs.len() ==> (#[trigger] pairs[i]).0 == packages[i].key,
        has_package(packages@, key),
    ensures
        place < pairs.len(),
        pairs[place as int].0 == key,
{
    let ghost wanted = choose|i: int| 0 <= i < packages.len() && (#[trigger] packages[i]).key == key;
    let mut i: usize = 0;
    assert(pairs[wanted].0 == key);
    while i < pairs.len()
        invariant
            0 <= wanted < pairs.len(),
            pairs[wanted].0 == key,
            i <= wanted,
        decreases pairs.len() - i,
    {
        if pairs[i].0 == key {
            return i;
        }
        i = i + 1;
    }
    i
}

impl ByteCodeGen {
    /// The objects are in order, the main package is one of the packages, and the
    /// function that the program starts with is the first one.
    pub open spec fn wf(self) -> bool {
        &&& self.vmctx.vmo.wf()
        &&& self.done <= self.packages.len()
        &&& exists|i: int|
            0 <= i < self.packages.len() && (#[trigger] self.packages[i]).1 == self.main_pkg
        &&& self.result_funcs.len() > 0
        &&& self.result_funcs[0].f_key == self.entry_key
    }

    /// The package whose functions come next: its key in the checked program and in
    /// this one.
    pub fn next_package(&self) -> (next: Option<(u64, PackageKey)>)
        ensures
            next == (if self.done < self.packages.len() {
                Some(self.packages[self.done as int])
            } else {
                None
            }),
    {
        if self.done < self.packages.len() {
            Some(self.packages[self.done])
        } else {
            None
        }
    }

    /// Adds the functions of the package that comes next, behind all others.
    pub fn add_package_funcs(&mut self, funcs: Vec<FuncCtx>)
        requires
            old(self).done < old(self).packages.len(),
        ensures
            old(self).wf() ==> final(self).wf(),
            final(self).result_funcs@ == old(self).result_funcs@ + funcs@,
            final(self).done == old(self).done + 1,
            final(self).vmctx == old(self).vmctx,
            final(self).consts == old(self).consts,
            final(self).packages == old(self).packages,
            final(self).main_pkg == old(self).main_pkg,
            final(self).entry_key == old(self).entry_key,
    {
        let mut funcs = funcs;
        let ghost place = choose|i: int|
            0 <= i < self.packages.len() && (#[trigger] self.packages[i]).1 == self.main_pkg;
        self.result_funcs.append(&mut funcs);
        self.done = self.done + 1;
        proof {
            if old(self).wf() {
                assert(self.result_funcs[0] == old(self).result_funcs[0]);
                assert(self.packages[place].1 == self.main_pkg);
            }
        }
    }

    /// The finished program, once the functions of all packages are there.
    pub fn into_bytecode(
        self,
        consts: Vec<GosValue>,
        iface_binding: Vec<(Meta, Vec<IfaceBinding>)>,
        methods: &Vec<MethodDesc>,
        indices: Vec<Vec<usize>>,
    ) -> (code: Bytecode)
        requires
            self.done == self.packages.len(),
            forall|i: int|
                0 <= i < iface_binding.len() ==> can_resolve(
                    (#[trigger] iface_binding[i]).1@,
                    methods@,
                ),
        ensures
            code.objects == self.vmctx.vmo,
            code.consts == consts,
            code.ifaces.len() == iface_binding.len(),
            forall|i: int|
                0 <= i < iface_binding.len() ==> (#[trigger] code.ifaces[i]).0 == iface_binding[i].0
                    && code.ifaces[i].1@ == resolved_all(iface_binding[i].1@, methods@),
            code.indices == indices,
            code.entry == self.entry_key,
            code.main_pkg == self.main_pkg,
            code.funcs == self.result_funcs,
            self.wf() ==> code.objects.wf() && code.funcs[0].f_key == code.entry,
    {
        let mut ifaces: Vec<(Meta, Vec<Binding4Runtime>)> = Vec::new();
        let mut left: Vec<(Meta, Vec<IfaceBinding>)> = iface_binding;
        let ghost all = left@;
        while left.len() > 0
            invariant
                all.len() == ifaces.len() + left.len(),
                left@ == all.skip(ifaces.len() as int),
                forall|i: int|
                    0 <= i < all.len() ==> can_resolve((#[trigger] all[i]).1@, methods@),
                forall|i: int|
                    0 <= i < ifaces.len() ==> (#[trigger] ifaces[i]).0 == all[i].0
                        && ifaces[i].1@ == resolved_all(all[i].1@, methods@),
            decreases left.len(),
        {
            let ghost n = ifaces.len() as int;
            let (meta, bindings) = left.remove(0);
            assert((meta, bindings) == all[n]);
            ifaces.push((meta, resolve_all(bindings, methods)));
            assert(left@ =~= all.skip(n + 1));
        }
        Bytecode {
            objects: self.vmctx.vmo,
            consts,
            ifaces,
            indices,
            entry: self.entry_key,
            main_pkg: self.main_pkg,
            funcs: self.result_funcs,
        }
    }
}

/// Whether the functions of all methods that are bound are known.
pub open spec fn can_resolve(bindings: Seq<IfaceBinding>, methods: Seq<MethodDesc>) -> bool {
    forall|i: int|
        0 <= i < bindings.len() ==> (#[trigger] bindings[i] matches IfaceBinding::Struct(id, _)
            ==> id < methods.len() && methods[id as int].func is Some)
}

/// The bindings as they are at run time.
pub open spec fn resolved_all(bindings: Seq<IfaceBinding>, methods: Seq<MethodDesc>) -> Seq<
    Binding4Runtime,
> {
    bindings.map_values(|b: IfaceBinding| Binding4Runtime::resolved(b, methods))
}

/// Settles bindings in their order.
fn resolve_all(bindings: Vec<IfaceBinding>, methods: &Vec<MethodDesc>) -> (out: Vec<Binding4Runtime>)
    requires
        can_resolve(bindings@, methods@),
    ensures
        out@ == resolved_all(bindings@, methods@),
{
    let mut out: Vec<Binding4Runtime> = Vec::new();
    let mut left: Vec<IfaceBinding> = bindings;
    let ghost all = left@;
    while left.len() > 0
        invariant
            can_resolve(all, methods@),
            all.len() == out.len() + left.len(),
            left@ == all.skip(out.len() as int),
            out@ == resolved_all(all.take(out.len() as int), methods@),
        decreases left.len(),
    {
        let ghost n = out.len() as int;
        let binding = left.remove(0);
        assert(binding == all[n]);
        out.push(Binding4Runtime::from(binding, methods));
        assert(left@ =~= all.skip(n + 1));
        assert(out@ =~= resolved_all(all.take(n + 1), methods@));
    }
    assert(all.take(out.len() as int) =~= all);
    out
}

/// What a program is imported under: its path, as seen from the current directory.
pub fn import_key(path: &str) -> (key: (String, String))
    ensures
        key.0@ == path@,
        key.1@ == "./"@,
{
    (String::from_str(path), String::from_str("./"))
}

/// A program that was started to be put together, with its identifiers.
pub struct StartedProgram {
    pub gen: ByteCodeGen,
    pub idents: Vec<String>,
    /// The identifier for what has no name.
    pub blank_ident: usize,
    /// The identifier of the function that the program runs.
    pub main_ident: usize,
}

/// Goes on from what importing a program came to: returns its errors if there are any,
/// and else starts to put the program together.
pub fn parse_check_gen(outcome: ImportOutcome, heap: &mut Heap) -> (out: Result<
    StartedProgram,
    Vec<String>,
>)
    requires
        outcome.errors.len() == 0 ==> {
            &&& outcome.packages.len() <= MAX_SLOTS
            &&& outcome.idents.len() < usize::MAX
            &&& well_checked(outcome.packages@)
            &&& outcome.main_pkg matches Some(key) && has_package(outcome.packages@, key)
        },
    ensures
        final(heap)@ == old(heap)@,
        out is Err <==> outcome.errors.len() > 0,
        out matches Err(errors) ==> errors == outcome.errors,
        out matches Ok(program) ==> {
            &&& program.blank_ident == outcome.idents.len()
            &&& program.main_ident == outcome.idents.len() + 1
            &&& program.idents.len() == outcome.idents.len() + 2
            &&& program.idents@.take(outcome.idents.len() as int) == outcome.idents@
            &&& program.idents[program.blank_ident as int]@ == "_"@
            &&& program.idents[program.main_ident as int]@ == "main"@
            &&& program.gen.wf()
            &&& registered(
                outcome.packages@,
                program.gen.packages@,
                program.gen.vmctx.vmo.packages@,
            )
            &&& program.gen.packages@.contains((outcome.main_pkg->0, program.gen.main_pkg))
            &&& program.gen.consts.packages@ == seq![program.gen.main_pkg]
            &&& program.gen.vmctx.vmo.functions@.dom() == set![program.gen.entry_key]
            &&& program.gen.vmctx.vmo.functions.size() == 1
            &&& program.gen.vmctx.vmo.metas@.dom()
                == set![program.gen.vmctx.vmo.s_meta.default_sig.key]
            &&& program.gen.vmctx.vmo.metas.size() == 1
            &&& is_default_function(
                program.gen.vmctx.vmo.functions@[program.gen.entry_key]@,
                None,
                program.gen.vmctx.vmo.s_meta.default_sig,
                FuncFlag::Default,
            )
            &&& program.gen.result_funcs.len() == 1
            &&& program.gen.result_funcs[0].f_key == program.gen.entry_key
            &&& program.gen.result_funcs[0].tc_key is None
            &&& program.gen.result_funcs[0].code@ == entry_code(
                program.gen.main_pkg,
                0,
                program.main_ident,
            )
            &&& program.gen.result_funcs[0].pos@ == Seq::new(4, |i: int| None::<usize>)
            &&& program.gen.done == 0
        },
{
    if outcome.errors.len() > 0 {
        return Err(outcome.errors);
    }
    let mut idents: Vec<String> = outcome.idents;
    let ghost before = idents@;
    let blank_ident: usize = idents.len();
    idents.push(String::from_str("_"));
    let main_ident: usize = idents.len();
    idents.push(String::from_str("main"));
    assert(idents@.take(before.len() as int) =~= before);
    let gen = gen_byte_code(&outcome.packages, outcome.main_pkg.unwrap(), main_ident, heap);
    Ok(StartedProgram { gen, idents, blank_ident, main_ident })
}

/// A package stands among the constants once: it is found at the first place where it stands, and
/// goes behind the others only if it stands nowhere. The packages before it stay where they are.
pub proof fn law_packages_among_the_constants(packages: Seq<PackageKey>, pkg: PackageKey, i: int)
    requires
        0 <= i <= packages.len(),
    ensures
        i <= package_place(packages, pkg, i) <= packages.len(),
        package_place(packages, pkg, i) < packages.len() ==> packages[package_place(
            packages,
            pkg,
            i,
        )] == pkg,
        forall|k: int|
            i <= k < package_place(packages, pkg, i) ==> #[trigger] packages[k] != pkg,
        packages.contains(pkg) ==> with_package(packages, pkg) == packages,
        !packages.contains(pkg) ==> with_package(packages, pkg) == packages.push(pkg),
        with_package(packages, pkg)[package_place(packages, pkg, 0)] == pkg,
    decreases packages.len() - i,
{
    lemma_first_place(packages, pkg, i);
    lemma_first_place(packages, pkg, 0);
    let place = package_place(packages, pkg, 0);
    if packages.contains(pkg) {
        let k = choose|k: int| 0 <= k < packages.len() && packages[k] == pkg;
        assert(place < packages.len());
    } else if place < packages.len() {
        assert(packages.contains(packages[place]));
    }
}

proof fn lemma_first_place(packages: Seq<PackageKey>, pkg: PackageKey, i: int)
    requires
        0 <= i <= packages.len(),
    ensures
        i <= package_place(packages, pkg, i) <= packages.len(),
        package_place(packages, pkg, i) < packages.len() ==> packages[package_place(
            packages,
            pkg,
            i,
        )] == pkg,
        forall|k: int|
            i <= k < package_place(packages, pkg, i) ==> #[trigger] packages[k] != pkg,
    decreases packages.len() - i,
{
    if i < packages.len() && packages[i] != pkg {
        lemma_first_place(packages, pkg, i + 1);
    }
}

/// What a program does first: it initializes the main package before anything else, loads the
/// member of that package with the name of the main function, from the place where the package
/// stands among the constants, calls what it has loaded as an ordinary call, and goes back last.
pub proof fn law_how_a_program_starts(
    packages: Seq<PackageKey>,
    pkg: PackageKey,
    main_ident: usize,
)
    requires
        packages.len() <= usize::MAX,
    ensures
        ({
            let code = entry_code(
                pkg,
                package_place(packages, pkg, 0) as usize,
                main_ident,
            );
            &&& code.len() == 4
            &&& code[0] == InterInst::Import(pkg)
            &&& code[1] matches InterInst::LoadPkg(
                Addr::Register(r),
                Addr::PkgConst(place),
                Addr::PkgMemberIndex(p, name),
            ) && p == pkg && name == main_ident && with_package(packages, pkg)[place as int] == pkg
                && code[2] == InterInst::Call(Addr::Register(r), 0, CallStyle::Default)
            &&& code[3] == InterInst::Return
        }),
{
    law_packages_among_the_constants(packages, pkg, 0);
}

/// Where packages were registered, each checked package has a package of its own that has its name
/// and nothing else, under its key and in its place, and there are no packages besides.
pub proof fn law_what_was_registered(
    packages: Seq<CheckedPackage>,
    pairs: Seq<(u64, PackageKey)>,
    objs: Map<PackageKey, PackageVal>,
    i: int,
    j: int,
    key: PackageKey,
)
    requires
        registered(packages, pairs, objs),
        0 <= i < packages.len(),
        0 <= j < packages.len(),
    ensures
        pairs.len() == packages.len(),
        pairs[i].0 == packages[i].key,
        objs.contains_key(pairs[i].1),
        objs[pairs[i].1].name@ == packages[i].name->0@,
        objs[pairs[i].1].members@.len() == 0,
        objs[pairs[i].1].member_types@.len() == 0,
        objs[pairs[i].1].init_funcs@.len() == 0,
        objs[pairs[i].1].names() == Map::<Seq<char>, i32>::empty(),
        objs[pairs[i].1].mapping() == Some(Map::<i32, i32>::empty()),
        i != j ==> pairs[i].1 != pairs[j].1,
        objs.contains_key(key) ==> exists|k: int|
            0 <= k < pairs.len() && (#[trigger] pairs[k]).1 == key,
{
    assert(pairs[i].0 == packages[i].key);
    if i < j {
        assert(pairs[i].1 != pairs[j].1);
    } else if j < i {
        assert(pairs[j].1 != pairs[i].1);
    }
}

/// The function that a program starts with takes nothing and gives nothing, holds nothing yet, and
/// belongs to no package, which its null key says.
pub proof fn law_what_a_default_function_is(
    func: FunctionState,
    package: Option<PackageKey>,
    meta: Meta,
    flag: FuncFlag,
)
    requires
        is_default_function(func, package, meta, flag),
    ensures
        func.params() == 0,
        func.stack_temp_types.len() == 0,
        func.ret_zeros.len() == 0,
        func.local_zeros.len() == 0,
        func.code.len() == 0,
        func.pos.len() == 0,
        func.consts.len() == 0,
        func.up_ptrs.len() == 0,
        func.local_alloc == 0,
        func.meta == meta,
        func.flag == flag,
        package matches Some(p) ==> func.package == p,
        package is None ==> func.package.number == keys::NULL_KEY,
{
}

/// A function that was made for a signature has a parameter for the receiver and each parameter
/// of it, a zero value for each result, and the package, the type and the flag that were given.
pub proof fn law_what_a_fresh_function_is(
    func: FunctionState,
    package: Option<PackageKey>,
    meta: Meta,
    flag: FuncFlag,
    metas: Map<MetadataKey, MetadataType>,
    h: HeapState,
    g: HeapState,
)
    requires
        is_fresh_function(func, package, meta, flag, metas, h, g),
    ensures
        metas[meta.key] matches MetadataType::Signature(sig) && {
            &&& func.params() == sig.params.len() + (if sig.recv is Some {
                1int
            } else {
                0int
            })
            &&& func.ret_zeros.len() == sig.results.len()
            &&& function_val::zeros_of(h, metas, sig.results@) == Some((g, func.ret_zeros))
        },
        func.meta == meta,
        func.flag == flag,
        func.code.len() == 0,
        package matches Some(p) ==> func.package == p,
        package is None ==> func.package.number == keys::NULL_KEY,
{
    if let MetadataType::Signature(sig) = metas[meta.key] {
        function_val::lemma_as_many_zeros(h, metas, sig.results@);
        function_val::law_what_a_new_function_is(
            func.package,
            meta,
            sig,
            metas,
            func.ret_zeros,
            flag,
        );
    }
}

/// Bindings are settled place by place: each method gets the function and the kind of receiver of
/// its description, and keeps its path.
pub proof fn law_bindings_are_settled_in_place(
    bindings: Seq<IfaceBinding>,
    methods: Seq<MethodDesc>,
    i: int,
)
    requires
        can_resolve(bindings, methods),
        0 <= i < bindings.len(),
    ensures
        resolved_all(bindings, methods).len() == bindings.len(),
        match bindings[i] {
            IfaceBinding::Struct(id, path) => {
                &&& id < methods.len()
                &&& methods[id as int].func is Some
                &&& resolved_all(bindings, methods)[i] == Binding4Runtime::Struct(
                    methods[id as int].func->0,
                    methods[id as int].pointer_recv,
                    path,
                )
            },
            IfaceBinding::Iface(index, path) => resolved_all(bindings, methods)[i]
                == Binding4Runtime::Iface(index, path),
        },
{
    assert(bindings[i] matches IfaceBinding::Struct(id, _) ==> id < methods.len()
        && methods[id as int].func is Some);
}

/// Packages that are well checked have names, and keys that tell them apart.
pub proof fn law_well_checked_packages(packages: Seq<CheckedPackage>, i: int, j: int)
    requires
        well_checked(packages),
        0 <= i < packages.len(),
        0 <= j < packages.len(),
    ensures
        packages[i].name is Some,
        packages[i].key == packages[j].key ==> i == j,
{
}

} // verus!
