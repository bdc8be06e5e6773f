//! Interfaces.
use vstd::prelude::*;
use vstd::string::StringExecFns;

use crate::keys::FunctionKey;
use crate::metadata::{Meta, MethodDesc};
use crate::value::GosValue;

verus! {

/// A foreign object behind an interface, known by its number, with the methods
/// that it offers.
#[derive(Clone, Debug)]
pub struct UnderlyingFfi {
    pub ffi_obj: usize,
    pub methods: Vec<(String, Meta)>,
}

impl UnderlyingFfi {
    pub fn new(obj: usize, methods: Vec<(String, Meta)>) -> (ffi: UnderlyingFfi)
        ensures
            ffi.ffi_obj == obj,
            ffi.methods == methods,
    {
        UnderlyingFfi { ffi_obj: obj, methods }
    }
}

/// How to call a method of the value behind an interface, while the program is
/// being put together: a method by its place among the method descriptions.
#[derive(Clone, Debug)]
pub enum IfaceBinding {
    Struct(usize, Option<Vec<usize>>),
    Iface(usize, Option<Vec<usize>>),
}

/// How to call a method of the value behind an interface.
#[derive(Clone, Debug)]
pub enum Binding4Runtime {
    Struct(FunctionKey, bool, Option<Vec<usize>>),
    Iface(usize, Option<Vec<usize>>),
}

impl Binding4Runtime {
    /// What a binding is at run time, given the method descriptions.
    pub open spec fn resolved(item: IfaceBinding, methods: Seq<MethodDesc>) -> Binding4Runtime {
        match item {
            IfaceBinding::Struct(id, indices) => Binding4Runtime::Struct(
                methods[id as int].func->0,
                methods[id as int].pointer_recv,
                indices,
            ),
            IfaceBinding::Iface(index, indices) => Binding4Runtime::Iface(index, indices),
        }
    }

    /// Settles a binding. The function of a method must be known by now.
    pub fn from(item: IfaceBinding, methods: &Vec<MethodDesc>) -> (binding: Binding4Runtime)
        requires
            item matches IfaceBinding::Struct(id, _) ==> id < methods.len()
                && methods[id as int].func is Some,
        ensures
            binding == Binding4Runtime::resolved(item, methods@),
            match item {
                IfaceBinding::Struct(id, indices) => binding is Struct && Some(binding->Struct_0)
                    == methods[id as int].func && binding->Struct_1
                    == methods[id as int].pointer_recv && binding->Struct_2 == indices,
                IfaceBinding::Iface(index, indices) => binding == Binding4Runtime::Iface(
                    index,
                    indices,
                ),
            },
    {
        match item {
            IfaceBinding::Struct(id, indices) => {
                let md = methods[id];
                Binding4Runtime::Struct(md.func.unwrap(), md.pointer_recv, indices)
            },
            IfaceBinding::Iface(index, indices) => Binding4Runtime::Iface(index, indices),
        }
    }
}

/// An interface: a value of the program or a foreign object. The type and the
/// bindings are missing where the interface was made at run time as an empty one.
#[derive(Clone, Debug)]
pub enum InterfaceObj {
    Gos(GosValue, Option<(Meta, Vec<Binding4Runtime>)>),
    Ffi(UnderlyingFfi),
}

impl InterfaceObj {
    /// The value behind the interface, if it is one of the program.
    pub fn underlying_value(&self) -> (val: Option<&GosValue>)
        ensures
            val is Some <==> self is Gos,
            val matches Some(v) ==> *v == self->Gos_0,
    {
        match self {
            InterfaceObj::Gos(v, _) => Some(v),
            _ => None,
        }
    }

    /// The text of the interface, with `show` for a value of the program and
    /// `show_ffi` for a foreign object.
    pub fn fmt<F: Fn(&GosValue) -> String, G: Fn(usize) -> String>(
        &self,
        show: &F,
        show_ffi: &G,
    ) -> (out: String)
        requires
            *self matches InterfaceObj::Gos(v, _) ==> call_requires(show, (&v,)),
            *self matches InterfaceObj::Ffi(ffi) ==> call_requires(show_ffi, (ffi.ffi_obj,)),
        ensures
            match *self {
                InterfaceObj::Gos(v, _) => call_ensures(*show, (&v,), out),
                InterfaceObj::Ffi(ffi) => exists|text: String| #[trigger]
                    call_ensures(*show_ffi, (ffi.ffi_obj,), text) && out@ == "<ffi>"@ + text@,
            },
    {
        match self {
            InterfaceObj::Gos(v, _) => show(v),
            InterfaceObj::Ffi(ffi) => {
                let mut out = String::from_str("<ffi>");
                let text = show_ffi(ffi.ffi_obj);
                out.append(text.as_str());
                out
            },
        }
    }
}

/// A bound method has at run time the function that its description names, takes a pointer
/// for its receiver exactly if the description says so, and keeps the path to the embedded
/// field. A method of an interface keeps its number and its path.
pub proof fn law_what_is_bound(
    d: MethodDesc,
    func: FunctionKey,
    methods: Seq<MethodDesc>,
    id: usize,
    index: usize,
    path: Option<Vec<usize>>,
)
    requires
        id < methods.len(),
        methods[id as int] == d,
        d.func == Some(func),
    ensures
        Binding4Runtime::resolved(IfaceBinding::Struct(id, path), methods)
            == Binding4Runtime::Struct(func, d.pointer_recv, path),
        Binding4Runtime::resolved(IfaceBinding::Iface(index, path), methods)
            == Binding4Runtime::Iface(index, path),
{
}

} // verus!
