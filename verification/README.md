# goscript

The object model of a virtual machine that runs programs in a language like Go, written
in Verus: executable Rust whose behaviour is stated in contracts and proved.

* `src/` is the library.
  * `heap` holds all that values can share: stores of elements, structs, maps, up
    values and so on, each known by its place. `HeapState` is what contracts speak of.
  * `compare`, `hashing`, `copying` and `counting` say what equality, hashes, copies
    and reference counts of values are. These follow values into arrays, structs and
    interfaces, and may not come to an end; each has a form that counts steps (`.._at`)
    and one that does not (`eq_value`, `hash_value`, `copy_value`, `value_slot`).
  * `string_obj`, `array_obj`, `slice_obj`, `map_obj`, `struct_obj`, `interface_obj`,
    `channel_obj`, `pointer_obj`, `upvalue` and `closure_obj` are the objects.
  * `function_val`, `package_val`, `metadata` and `vm_objects` are what a program is
    made of, kept in an `arena` under `keys`.
  * `entry` puts a program together, `source` says where its source is read from.
  * Proof functions named `law_..` state what holds of several functions together.
* `tests/` runs the library.
* `app/` is ordinary Rust around it: waiting on channels, mounting file systems, and the
  drivers that call a parser, a code generator and an engine.

What is trusted: the wrappers around `slotmap` in `keys` and `arena`, and that around
`Rc::clone` in `string_obj`.
