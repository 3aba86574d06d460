# noirc_blocks

Two pieces of the Noir compiler, written in Verus with their contracts proved:

- `block_variables`: the variables of one SSA basic block while it is
  compiled to Brillig: which values are live, where each one lives, and the
  registers they take and give back.
- `traits`: trait definitions of the frontend's type system: method and
  constant lookup, the trait's own generics and constraint, substitution of
  type bindings into constraints, and equality of bounds.

The modules those two build on hold the parts of the compiler they read,
reduced to what is read:

- `ssa_types`: SSA types and the data flow graph's table of value types.
- `brillig_ir`: memory addresses, the shapes of Brillig variables, register
  allocation (a trait that fixes which register comes next, and a
  stack-frame allocator), the code generation contexts.
- `hir_types`: identifiers, locations, ids, frontend types with equality,
  cloning and substitution, and the interner's tables of function
  definitions and trait names.
- `display`: the text of types, of associated types and of trait
  constraints, as messages show them.
- `fx`: the calls into `fxhash::FxHashSet` and `rustc_hash::FxHashMap`, each
  behind a function whose contract states what the std collection does.

Verus checks the proofs in `src/`; the tests under `tests/` run the library
on concrete values.
