//! The objects of a virtual machine that runs programs in a language like Go, and what
//! is needed to put such a program together.
//!
//! Values that share state refer to objects on a [`heap::Heap`] by their place. Every
//! function says exactly what it returns and what the heap looks like afterwards, in
//! terms of [`heap::HeapState`]. What holds of several functions together is stated in
//! proof functions whose names begin with `law_`.

// Keys, words and text.
pub mod arena;
pub mod instruction;
pub mod keys;
pub mod string_obj;
pub mod text;

// Values and what is done with all of them.
pub mod compare;
pub mod copying;
pub mod counting;
pub mod hashing;
pub mod heap;
pub mod stack;
pub mod value;

// Objects.
pub mod array_obj;
pub mod channel_obj;
pub mod closure_obj;
pub mod interface_obj;
pub mod map_obj;
pub mod pointer_obj;
pub mod slice_obj;
pub mod struct_obj;
pub mod upvalue;

// Programs.
pub mod entry;
pub mod function_val;
pub mod metadata;
pub mod package_val;
pub mod source;
pub mod vm_objects;

// Laws.
pub mod copy_laws;
pub mod equality_laws;
pub mod map_laws;
