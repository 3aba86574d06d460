//! Allocation, tracking and release of the variables of one SSA basic block
//! while it is compiled to Brillig.
//!
//! [BlockVariables] holds the set of SSA values that are live and usable in
//! the block. A value is allocated registers when it is first defined, its
//! allocation is cached in the [FunctionContext], and its registers are given
//! back when liveness says it is no longer needed.
use vstd::prelude::*;

use fxhash::FxHashSet;

use crate::brillig_ir::{
    bit_size_of, get_bit_size_from_ssa_type, is_single_addr_type, BrilligArray, BrilligContext,
    BrilligVariable, BrilligVector, FunctionContext, MemoryAddress, RegisterAllocator,
    SingleAddrVariable,
};
use crate::fx::{fx_set_contains, fx_set_elements, fx_set_insert, fx_set_remove};
use crate::ssa_types::{CompositeType, DataFlowGraph, Type, ValueId};

verus! {

/// The number of slots of an array of `elem_count` items of type `item_typ`.
pub open spec fn array_length(item_typ: CompositeType, elem_count: int) -> int {
    item_typ@.len() * elem_count
}

/// Whether registers can be laid out for a value of type `typ` without the
/// size of an array overflowing.
pub open spec fn fits_in_memory(typ: Type) -> bool {
    match typ {
        Type::Array(items, count) => array_length(*items, count as int) <= usize::MAX,
        _ => true,
    }
}

/// The variable that holds a value of type `typ` in register `register`.
pub open spec fn variable_of_type(typ: Type, register: MemoryAddress) -> BrilligVariable {
    match typ {
        Type::Array(items, count) => BrilligVariable::BrilligArray(
            BrilligArray { pointer: register, size: array_length(*items, count as int) as usize },
        ),
        Type::Slice(_) => BrilligVariable::BrilligVector(BrilligVector { pointer: register }),
        _ => BrilligVariable::SingleAddr(
            SingleAddrVariable { address: register, bit_size: bit_size_of(typ) },
        ),
    }
}

/// Tracks the SSA values that are live and usable while one block is compiled.
pub struct BlockVariables {
    available_variables: FxHashSet<ValueId>,
}

impl View for BlockVariables {
    type V = Set<ValueId>;

    /// The values that are available in the block.
    closed spec fn view(&self) -> Set<ValueId> {
        self.available_variables@
    }
}

impl Default for BlockVariables {
    fn default() -> (b: Self)
        ensures
            b@ == Set::<ValueId>::empty(),
    {
        BlockVariables { available_variables: FxHashSet::default() }
    }
}

impl BlockVariables {
    /// Starts a block with the values that are live on entry to it.
    pub fn new(live_in: FxHashSet<ValueId>) -> (b: Self)
        ensures
            b@ == live_in@,
    {
        BlockVariables { available_variables: live_in }
    }

    /// The allocations of all the values still available, each once, in an
    /// order that the hash set decides.
    pub fn get_available_variables(&self, function_context: &FunctionContext) -> (r: Vec<
        BrilligVariable,
    >)
        requires
            forall|v: ValueId|
                #[trigger] self@.contains(v) ==> function_context.ssa_value_allocations@.contains_key(v),
        ensures
            r@.len() == self@.len(),
            exists|ids: Seq<ValueId>|
                {
                    &&& ids.no_duplicates()
                    &&& ids.to_set() == self@
                    &&& r@ == ids.map_values(
                        |v: ValueId| function_context.ssa_value_allocations@[v],
                    )
                },
    {
        let ids = fx_set_elements(&self.available_variables);
        let ghost allocations = function_context.ssa_value_allocations@;
        let mut result: Vec<BrilligVariable> = Vec::new();
        let mut i: usize = 0;
        while i < ids.len()
            invariant
                i <= ids@.len(),
                ids@.to_set() == self@,
                allocations == function_context.ssa_value_allocations@,
                forall|v: ValueId| #[trigger] self@.contains(v) ==> allocations.contains_key(v),
                result@ == ids@.take(i as int).map_values(|v: ValueId| allocations[v]),
            decreases ids@.len() - i,
        {
            let id = ids[i];
            assert(self@.contains(id)) by {
                assert(ids@.contains(id));
            }
            let variable = *function_context.ssa_value_allocations.get(&id).unwrap();
            result.push(variable);
            proof {
                assert(ids@.take(i + 1) == ids@.take(i as int).push(id));
                assert(result@ =~= ids@.take(i + 1).map_values(|v: ValueId| allocations[v]));
            }
            i = i + 1;
        }
        proof {
            assert(ids@.take(ids@.len() as int) == ids@);
            ids@.unique_seq_to_set();
        }
        result
    }

    /// Defines the value `value_id`: lays out registers for it, caches the
    /// allocation in the function context and makes it available.
    pub fn define_variable<F, Registers: RegisterAllocator>(
        &mut self,
        function_context: &mut FunctionContext,
        brillig_context: &mut BrilligContext<F, Registers>,
        value_id: ValueId,
        dfg: &DataFlowGraph,
    ) -> (variable: BrilligVariable)
        requires
            old(brillig_context).registers.inv(),
            old(brillig_context).registers.can_allocate(),
            dfg.has_value(value_id),
            fits_in_memory(dfg.types()[value_id as int]),
            !old(function_context).ssa_value_allocations@.contains_key(value_id),
        ensures
            variable == variable_of_type(dfg.types()[value_id as int], old(brillig_context).registers.next_register()),
            final(brillig_context).registers@ == old(brillig_context).registers.view_after_allocation(),
            final(brillig_context).registers.inv(),
            !old(brillig_context).registers.allocated().contains(variable.register()),
            final(brillig_context).registers.allocated() == old(
                brillig_context,
            ).registers.allocated().insert(variable.register()),
            final(function_context).ssa_value_allocations@ == old(
                function_context,
            ).ssa_value_allocations@.insert(value_id, variable),
            final(self)@ == old(self)@.insert(value_id),
    {
        let variable = allocate_value(value_id, brillig_context, dfg);
        let previous = function_context.ssa_value_allocations.insert(value_id, variable);
        if previous.is_some() {
            proof {
                assert(false);
            }
        }
        fx_set_insert(&mut self.available_variables, value_id);
        variable
    }

    /// Defines a value that fits in a single register and returns that register.
    pub fn define_single_addr_variable<F, Registers: RegisterAllocator>(
        &mut self,
        function_context: &mut FunctionContext,
        brillig_context: &mut BrilligContext<F, Registers>,
        value: ValueId,
        dfg: &DataFlowGraph,
    ) -> (variable: SingleAddrVariable)
        requires
            old(brillig_context).registers.inv(),
            old(brillig_context).registers.can_allocate(),
            dfg.has_value(value),
            is_single_addr_type(dfg.types()[value as int]),
            !old(function_context).ssa_value_allocations@.contains_key(value),
        ensures
            variable == (SingleAddrVariable {
                address: old(brillig_context).registers.next_register(),
                bit_size: bit_size_of(dfg.types()[value as int]),
            }),
            final(brillig_context).registers@ == old(brillig_context).registers.view_after_allocation(),
            final(brillig_context).registers.inv(),
            !old(brillig_context).registers.allocated().contains(variable.address),
            final(brillig_context).registers.allocated() == old(
                brillig_context,
            ).registers.allocated().insert(variable.address),
            final(function_context).ssa_value_allocations@ == old(
                function_context,
            ).ssa_value_allocations@.insert(value, BrilligVariable::SingleAddr(variable)),
            final(self)@ == old(self)@.insert(value),
    {
        let variable = self.define_variable(function_context, brillig_context, value, dfg);
        variable.extract_single_addr()
    }

    /// Removes a value so that it is not used any more in this block, and
    /// gives its register back.
    pub fn remove_variable<F, Registers: RegisterAllocator>(
        &mut self,
        value_id: &ValueId,
        function_context: &mut FunctionContext,
        brillig_context: &mut BrilligContext<F, Registers>,
    )
        requires
            old(self)@.contains(*value_id),
            old(function_context).ssa_value_allocations@.contains_key(*value_id),
            old(brillig_context).registers.inv(),
            old(brillig_context).registers.allocated().contains(
                old(function_context).ssa_value_allocations@[*value_id].register(),
            ),
        ensures
            final(self)@ == old(self)@.remove(*value_id),
            final(function_context).ssa_value_allocations@ == old(
                function_context,
            ).ssa_value_allocations@,
            final(brillig_context).registers@ == old(
                brillig_context,
            ).registers.view_after_deallocation(
                old(function_context).ssa_value_allocations@[*value_id].register(),
            ),
            final(brillig_context).registers.inv(),
            final(brillig_context).registers.allocated() == old(
                brillig_context,
            ).registers.allocated().remove(
                old(function_context).ssa_value_allocations@[*value_id].register(),
            ),
    {
        let removed = fx_set_remove(&mut self.available_variables, value_id);
        if !removed {
            proof {
                assert(false);
            }
        }
        let variable = *function_context.ssa_value_allocations.get(value_id).unwrap();
        brillig_context.deallocate_register(variable.extract_register());
    }

    /// Whether the value is allocated and available in this block.
    pub fn is_allocated(&self, value_id: &ValueId) -> (r: bool)
        ensures
            r == self@.contains(*value_id),
    {
        fx_set_contains(&self.available_variables, value_id)
    }

    /// The cached allocation of an available value.
    pub fn get_allocation(&mut self, function_context: &FunctionContext, value_id: ValueId) -> (r:
        BrilligVariable)
        requires
            old(self)@.contains(value_id),
            function_context.ssa_value_allocations@.contains_key(value_id),
        ensures
            r == function_context.ssa_value_allocations@[value_id],
            final(self)@ == old(self)@,
    {
        *function_context.ssa_value_allocations.get(&value_id).unwrap()
    }
}

/// The length of an array of `elem_count` items of type `item_typ`; it
/// matches the indexes that the SSA issues.
pub fn compute_array_length(item_typ: &CompositeType, elem_count: usize) -> (r: usize)
    requires
        array_length(*item_typ, elem_count as int) <= usize::MAX,
    ensures
        r == array_length(*item_typ, elem_count as int),
        r == item_typ@.len() * elem_count,
{
    item_typ.len() * elem_count
}

/// Lays out registers for the value `value_id`, according to its type.
pub fn allocate_value<F, Registers: RegisterAllocator>(
    value_id: ValueId,
    brillig_context: &mut BrilligContext<F, Registers>,
    dfg: &DataFlowGraph,
) -> (variable: BrilligVariable)
    requires
        old(brillig_context).registers.inv(),
        old(brillig_context).registers.can_allocate(),
        dfg.has_value(value_id),
        fits_in_memory(dfg.types()[value_id as int]),
    ensures
        variable == variable_of_type(dfg.types()[value_id as int], old(brillig_context).registers.next_register()),
        final(brillig_context).registers@ == old(brillig_context).registers.view_after_allocation(),
        final(brillig_context).registers.inv(),
        !old(brillig_context).registers.allocated().contains(variable.register()),
        final(brillig_context).registers.allocated() == old(
            brillig_context,
        ).registers.allocated().insert(variable.register()),
{
    let typ = dfg.type_of_value(value_id);
    allocate_value_with_type(brillig_context, typ)
}

/// Lays out registers for a value of type `typ`: one register for a value
/// that fits in one, and one pointer register for an array or a slice.
pub fn allocate_value_with_type<F, Registers: RegisterAllocator>(
    brillig_context: &mut BrilligContext<F, Registers>,
    typ: Type,
) -> (variable: BrilligVariable)
    requires
        old(brillig_context).registers.inv(),
        old(brillig_context).registers.can_allocate(),
        fits_in_memory(typ),
    ensures
        variable == variable_of_type(typ, old(brillig_context).registers.next_register()),
        final(brillig_context).registers@ == old(brillig_context).registers.view_after_allocation(),
        final(brillig_context).registers.inv(),
        !old(brillig_context).registers.allocated().contains(variable.register()),
        final(brillig_context).registers.allocated() == old(
            brillig_context,
        ).registers.allocated().insert(variable.register()),
{
    match typ {
        Type::Numeric(_) | Type::Reference(_) | Type::Function => {
            BrilligVariable::SingleAddr(
                SingleAddrVariable {
                    address: brillig_context.allocate_register(),
                    bit_size: get_bit_size_from_ssa_type(&typ),
                },
            )
        },
        Type::Array(item_typ, elem_count) => BrilligVariable::BrilligArray(
            BrilligArray {
                pointer: brillig_context.allocate_register(),
                size: compute_array_length(&item_typ, elem_count as usize),
            },
        ),
        Type::Slice(_) => BrilligVariable::BrilligVector(
            BrilligVector { pointer: brillig_context.allocate_register() },
        ),
    }
}

/// A value just defined is available in the block, and the allocation that
/// the function caches for it is the variable that the definition returned.
pub proof fn lemma_define_then_lookup(
    block_before: BlockVariables,
    block_after: BlockVariables,
    allocations_before: Map<ValueId, BrilligVariable>,
    allocations_after: Map<ValueId, BrilligVariable>,
    value_id: ValueId,
    variable: BrilligVariable,
)
    requires
        block_after@ == block_before@.insert(value_id),
        allocations_after == allocations_before.insert(value_id, variable),
    ensures
        block_after@.contains(value_id),
        allocations_after.contains_key(value_id),
        allocations_after[value_id] == variable,
{
}

/// A value defined in a block and then removed from it leaves the block's
/// available values and the registers in use as they were before.
pub proof fn lemma_define_then_remove<Registers: RegisterAllocator>(
    block_before: BlockVariables,
    block_defined: BlockVariables,
    block_after: BlockVariables,
    registers_before: Registers,
    registers_defined: Registers,
    registers_after: Registers,
    value_id: ValueId,
    variable: BrilligVariable,
)
    requires
        !block_before@.contains(value_id),
        !registers_before.allocated().contains(variable.register()),
        registers_defined.allocated() == registers_before.allocated().insert(variable.register()),
        block_defined@ == block_before@.insert(value_id),
        block_after@ == block_defined@.remove(value_id),
        registers_after.allocated() == registers_defined.allocated().remove(variable.register()),
    ensures
        block_after@ == block_before@,
        registers_after.allocated() == registers_before.allocated(),
{
    assert(block_after@ =~= block_before@);
    assert(registers_after.allocated() =~= registers_before.allocated());
}

/// Values defined one after the other, the first still in use, are given
/// different registers.
pub proof fn lemma_defined_values_get_distinct_registers<Registers: RegisterAllocator>(
    registers_before: Registers,
    registers_between: Registers,
    first: BrilligVariable,
    second: BrilligVariable,
)
    requires
        registers_between.allocated() == registers_before.allocated().insert(first.register()),
        !registers_between.allocated().contains(second.register()),
    ensures
        first.register() != second.register(),
{
}

/// Registers for values of the same type, laid out from the same allocator
/// state, are the same variable and leave the allocator in the same state:
/// what `allocate_value` and `define_variable` do is what
/// `allocate_value_with_type` does with the value's type.
pub proof fn lemma_allocation_is_determined<Registers: RegisterAllocator>(
    registers: Registers,
    typ: Type,
    first: BrilligVariable,
    first_after: Registers,
    second: BrilligVariable,
    second_after: Registers,
)
    requires
        first == variable_of_type(typ, registers.next_register()),
        first_after@ == registers.view_after_allocation(),
        second == variable_of_type(typ, registers.next_register()),
        second_after@ == registers.view_after_allocation(),
    ensures
        first == second,
        first_after@ == second_after@,
{
}

/// The variable laid out for an array of `count` elements whose element type
/// has the fields `items` is an array of `items.len() * count` slots,
/// whatever the fields are (nested arrays and slices count as one field).
pub proof fn lemma_array_variable_size(
    items: std::sync::Arc<CompositeType>,
    count: u32,
    register: MemoryAddress,
)
    requires
        items@.len() * count <= usize::MAX,
    ensures
        fits_in_memory(Type::Array(items, count)),
        variable_of_type(Type::Array(items, count), register) == BrilligVariable::BrilligArray(
            BrilligArray { pointer: register, size: (items@.len() * count) as usize },
        ),
{
}

/// An array of `a + b` items takes the slots of an array of `a` items and
/// of one of `b` items together.
pub proof fn lemma_array_length_splits(item_typ: CompositeType, a: int, b: int)
    ensures
        array_length(item_typ, a + b) == array_length(item_typ, a) + array_length(item_typ, b),
{
    let n = item_typ@.len() as int;
    assert(n * (a + b) == n * a + n * b) by (nonlinear_arith);
}

/// Removing a value keeps every available value cached, makes the removed
/// value unavailable, so that neither its allocation can be read nor the
/// value removed again, and leaves its register out of use, so that it is
/// not given back twice.
pub proof fn lemma_remove_variable_effects<Registers: RegisterAllocator>(
    block_before: BlockVariables,
    block_after: BlockVariables,
    allocations: Map<ValueId, BrilligVariable>,
    registers_after: Registers,
    registers_before: Registers,
    value_id: ValueId,
)
    requires
        forall|w: ValueId| #[trigger] block_before@.contains(w) ==> allocations.contains_key(w),
        block_after@ == block_before@.remove(value_id),
        registers_after.allocated() == registers_before.allocated().remove(
            allocations[value_id].register(),
        ),
    ensures
        forall|w: ValueId| #[trigger] block_after@.contains(w) ==> allocations.contains_key(w),
        !block_after@.contains(value_id),
        !registers_after.allocated().contains(allocations[value_id].register()),
{
}

} // verus!
