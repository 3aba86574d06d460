//! Register bookkeeping for Brillig code generation and the trait definitions
//! of the Noir frontend, with their contracts proved by Verus.
pub mod block_variables;
pub mod brillig_ir;
pub mod display;
pub mod fx;
pub mod hir_types;
pub mod ssa_types;
pub mod traits;
