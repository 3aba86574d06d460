//! The SSA types that the Brillig backend reads when it lays out a value in registers.
use std::sync::Arc;
use vstd::prelude::*;

verus! {

/// Bit size of the native field element (the BN254 scalar field).
pub const NATIVE_FIELD_BIT_SIZE: u32 = 254;

/// The numeric types of the SSA.
#[derive(Clone, Copy, Debug, PartialEq, Eq, Structural)]
pub enum NumericType {
    Signed { bit_size: u32 },
    Unsigned { bit_size: u32 },
    NativeField,
}

impl NumericType {
    pub open spec fn spec_bit_size(&self) -> u32 {
        match *self {
            NumericType::Signed { bit_size } => bit_size,
            NumericType::Unsigned { bit_size } => bit_size,
            NumericType::NativeField => NATIVE_FIELD_BIT_SIZE,
        }
    }

    /// The number of bits that a value of this type occupies.
    #[verifier::when_used_as_spec(spec_bit_size)]
    pub fn bit_size(&self) -> (r: u32)
        ensures
            r == self.spec_bit_size(),
    {
        match self {
            NumericType::Signed { bit_size } => *bit_size,
            NumericType::Unsigned { bit_size } => *bit_size,
            NumericType::NativeField => NATIVE_FIELD_BIT_SIZE,
        }
    }
}

/// The element types of an array or a slice, in the order of one element's fields.
pub type CompositeType = Vec<Type>;

/// A type of the SSA.
#[derive(Debug)]
pub enum Type {
    Numeric(NumericType),
    Reference(Arc<Type>),
    Array(Arc<CompositeType>, u32),
    Slice(Arc<CompositeType>),
    Function,
}

/// Calls `Arc::clone` (std), which hands out a second pointer to the same
/// allocation: the value behind the result is the value behind `this`.
#[verifier::external_body]
fn share<T>(this: &Arc<T>) -> (res: Arc<T>)
    ensures
        res == *this,
{
    Arc::clone(this)
}

impl Clone for Type {
    fn clone(&self) -> (r: Self)
        ensures
            r == *self,
    {
        match self {
            Type::Numeric(n) => Type::Numeric(*n),
            Type::Reference(t) => Type::Reference(share(t)),
            Type::Array(items, count) => Type::Array(share(items), *count),
            Type::Slice(items) => Type::Slice(share(items)),
            Type::Function => Type::Function,
        }
    }
}

} // verus!

verus! {

/// Identifies an SSA value inside the data flow graph of one function.
pub type ValueId = u32;

/// The part of a function's data flow graph that Brillig code generation
/// reads: the type of each value, indexed by its id.
pub struct DataFlowGraph {
    value_types: Vec<Type>,
}

impl DataFlowGraph {
    /// The type of each value, indexed by the value's id.
    pub closed spec fn types(&self) -> Seq<Type> {
        self.value_types@
    }

    pub open spec fn has_value(&self, value: ValueId) -> bool {
        value < self.types().len()
    }

    /// A graph that holds no value yet.
    pub fn new() -> (dfg: DataFlowGraph)
        ensures
            dfg.types() == Seq::<Type>::empty(),
    {
        DataFlowGraph { value_types: Vec::new() }
    }

    /// Adds a value of type `typ` and returns its id, the next unused one.
    pub fn make_value(&mut self, typ: Type) -> (id: ValueId)
        requires
            old(self).types().len() < u32::MAX,
        ensures
            id == old(self).types().len(),
            final(self).types() == old(self).types().push(typ),
    {
        let id = self.value_types.len() as u32;
        self.value_types.push(typ);
        id
    }

    /// The type of the value `value`.
    pub fn type_of_value(&self, value: ValueId) -> (typ: Type)
        requires
            self.has_value(value),
        ensures
            typ == self.types()[value as int],
    {
        self.value_types[value as usize].clone()
    }
}

} // verus!
