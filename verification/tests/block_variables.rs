use std::sync::Arc;

use fxhash::FxHashSet;
use noirc_blocks::block_variables::{
    allocate_value, allocate_value_with_type, compute_array_length, BlockVariables,
};
use noirc_blocks::brillig_ir::{
    get_bit_size_from_ssa_type, BrilligArray, BrilligContext, BrilligVariable, BrilligVector,
    FunctionContext, MemoryAddress, RegisterAllocator, SingleAddrVariable, Stack,
};
use noirc_blocks::ssa_types::{DataFlowGraph, NumericType, Type};

type Context = BrilligContext<u128, Stack>;

fn context(start: u32) -> Context {
    BrilligContext::new(Stack::new(start))
}

fn u32_type() -> Type {
    Type::Numeric(NumericType::Unsigned { bit_size: 32 })
}

#[test]
fn define_variable_caches_and_makes_available() {
    let mut dfg = DataFlowGraph::new();
    let v = dfg.make_value(u32_type());
    let mut function_context = FunctionContext::new();
    let mut brillig_context = context(0);
    let mut block = BlockVariables::default();

    assert!(!block.is_allocated(&v));
    let variable = block.define_variable(&mut function_context, &mut brillig_context, v, &dfg);
    let expected = BrilligVariable::SingleAddr(SingleAddrVariable {
        address: MemoryAddress::Relative(0),
        bit_size: 32,
    });
    assert_eq!(variable, expected);
    assert!(block.is_allocated(&v));
    assert_eq!(block.get_allocation(&function_context, v), expected);
    assert_eq!(function_context.ssa_value_allocations.get(&v), Some(&expected));
    assert_eq!(block.get_available_variables(&function_context), vec![expected]);
}

#[test]
fn define_single_addr_variable_returns_its_register() {
    let mut dfg = DataFlowGraph::new();
    let v = dfg.make_value(Type::Numeric(NumericType::Signed { bit_size: 8 }));
    let mut function_context = FunctionContext::new();
    let mut brillig_context = context(5);
    let mut block = BlockVariables::default();
    let variable =
        block.define_single_addr_variable(&mut function_context, &mut brillig_context, v, &dfg);
    assert_eq!(
        variable,
        SingleAddrVariable { address: MemoryAddress::Relative(5), bit_size: 8 }
    );
    assert!(block.is_allocated(&v));
}

#[test]
fn array_value_gets_pointer_and_flattened_size() {
    let item = vec![Type::Numeric(NumericType::NativeField), u32_type()];
    let mut dfg = DataFlowGraph::new();
    let v = dfg.make_value(Type::Array(Arc::new(item), 3));
    let mut function_context = FunctionContext::new();
    let mut brillig_context = context(0);
    let mut block = BlockVariables::default();
    let variable = block.define_variable(&mut function_context, &mut brillig_context, v, &dfg);
    assert_eq!(
        variable,
        BrilligVariable::BrilligArray(BrilligArray { pointer: MemoryAddress::Relative(0), size: 6 })
    );
}

#[test]
fn slice_value_becomes_vector() {
    let mut brillig_context = context(2);
    let variable =
        allocate_value_with_type(&mut brillig_context, Type::Slice(Arc::new(vec![u32_type()])));
    assert_eq!(
        variable,
        BrilligVariable::BrilligVector(BrilligVector { pointer: MemoryAddress::Relative(2) })
    );
}

#[test]
fn bit_sizes_of_single_register_types() {
    assert_eq!(get_bit_size_from_ssa_type(&Type::Numeric(NumericType::NativeField)), 254);
    assert_eq!(get_bit_size_from_ssa_type(&u32_type()), 32);
    assert_eq!(get_bit_size_from_ssa_type(&Type::Reference(Arc::new(u32_type()))), 32);
    assert_eq!(get_bit_size_from_ssa_type(&Type::Function), 32);

    let mut brillig_context = context(0);
    let field = allocate_value_with_type(&mut brillig_context, Type::Numeric(NumericType::NativeField));
    assert_eq!(
        field,
        BrilligVariable::SingleAddr(SingleAddrVariable {
            address: MemoryAddress::Relative(0),
            bit_size: 254
        })
    );
    let reference =
        allocate_value_with_type(&mut brillig_context, Type::Reference(Arc::new(u32_type())));
    assert_eq!(
        reference,
        BrilligVariable::SingleAddr(SingleAddrVariable {
            address: MemoryAddress::Relative(1),
            bit_size: 32
        })
    );
}

#[test]
fn compute_array_length_multiplies_fields_by_count() {
    let item = vec![u32_type(), u32_type(), Type::Function];
    assert_eq!(compute_array_length(&item, 4), 12);
    assert_eq!(compute_array_length(&item, 0), 0);
    assert_eq!(compute_array_length(&vec![], 7), 0);
}

#[test]
fn allocate_value_reads_the_type_from_the_graph() {
    let mut dfg = DataFlowGraph::new();
    let _first = dfg.make_value(Type::Function);
    let second = dfg.make_value(Type::Array(Arc::new(vec![u32_type()]), 10));
    let mut brillig_context = context(0);
    let variable = allocate_value(second, &mut brillig_context, &dfg);
    assert_eq!(
        variable,
        BrilligVariable::BrilligArray(BrilligArray { pointer: MemoryAddress::Relative(0), size: 10 })
    );
}

#[test]
fn defined_values_get_distinct_registers() {
    let mut dfg = DataFlowGraph::new();
    let a = dfg.make_value(u32_type());
    let b = dfg.make_value(u32_type());
    let mut function_context = FunctionContext::new();
    let mut brillig_context = context(0);
    let mut block = BlockVariables::default();
    let va = block.define_variable(&mut function_context, &mut brillig_context, a, &dfg);
    let vb = block.define_variable(&mut function_context, &mut brillig_context, b, &dfg);
    assert_ne!(va.extract_register(), vb.extract_register());
}

#[test]
fn define_then_remove_restores_block_and_registers() {
    let mut dfg = DataFlowGraph::new();
    let a = dfg.make_value(u32_type());
    let b = dfg.make_value(u32_type());
    let mut function_context = FunctionContext::new();
    let mut brillig_context = context(0);
    let mut block = BlockVariables::default();

    let va = block.define_variable(&mut function_context, &mut brillig_context, a, &dfg);
    block.remove_variable(&a, &mut function_context, &mut brillig_context);
    assert!(!block.is_allocated(&a));
    assert!(block.get_available_variables(&function_context).is_empty());
    // The allocation stays cached for the function.
    assert_eq!(function_context.ssa_value_allocations.get(&a), Some(&va));
    // The register was given back and is handed out again.
    let vb = block.define_variable(&mut function_context, &mut brillig_context, b, &dfg);
    assert_eq!(va.extract_register(), vb.extract_register());
}

#[test]
fn live_in_values_are_available() {
    let mut dfg = DataFlowGraph::new();
    let a = dfg.make_value(u32_type());
    let b = dfg.make_value(Type::Function);
    let c = dfg.make_value(u32_type());
    let mut function_context = FunctionContext::new();
    let mut brillig_context = context(0);

    // Values defined in an earlier block.
    let mut earlier = BlockVariables::default();
    let va = earlier.define_variable(&mut function_context, &mut brillig_context, a, &dfg);
    let vb = earlier.define_variable(&mut function_context, &mut brillig_context, b, &dfg);
    let _vc = earlier.define_variable(&mut function_context, &mut brillig_context, c, &dfg);

    let mut live_in = FxHashSet::default();
    live_in.insert(a);
    live_in.insert(b);
    let mut block = BlockVariables::new(live_in);
    assert!(block.is_allocated(&a));
    assert!(block.is_allocated(&b));
    assert!(!block.is_allocated(&c));
    assert_eq!(block.get_allocation(&function_context, b), vb);

    let mut available = block.get_available_variables(&function_context);
    available.sort_by_key(|v| match v.extract_register() {
        MemoryAddress::Relative(i) | MemoryAddress::Direct(i) => i,
    });
    assert_eq!(available, vec![va, vb]);
}

#[test]
fn stack_reuses_given_back_registers_first() {
    let mut stack = Stack::new(3);
    let r0 = stack.allocate_register();
    let r1 = stack.allocate_register();
    assert_eq!(r0, MemoryAddress::Relative(3));
    assert_eq!(r1, MemoryAddress::Relative(4));
    stack.deallocate_register(r0);
    assert_eq!(stack.allocate_register(), MemoryAddress::Relative(3));
    assert_eq!(stack.allocate_register(), MemoryAddress::Relative(5));
}

#[test]
fn extract_single_addr_of_single_register_variable() {
    let v = SingleAddrVariable { address: MemoryAddress::Direct(9), bit_size: 1 };
    assert_eq!(BrilligVariable::SingleAddr(v).extract_single_addr(), v);
    let array = BrilligVariable::BrilligArray(BrilligArray { pointer: MemoryAddress::Direct(4), size: 2 });
    assert_eq!(array.extract_register(), MemoryAddress::Direct(4));
}

#[test]
fn allocate_value_matches_allocate_value_with_type() {
    let mut dfg = DataFlowGraph::new();
    let v = dfg.make_value(Type::Slice(Arc::new(vec![u32_type()])));
    let mut first = context(0);
    let r0 = first.allocate_register();
    first.deallocate_register(r0);
    let mut second = context(0);
    let r1 = second.allocate_register();
    second.deallocate_register(r1);
    let a = allocate_value(v, &mut first, &dfg);
    let b = allocate_value_with_type(&mut second, dfg.type_of_value(v));
    assert_eq!(a, b);
    assert_eq!(first.allocate_register(), second.allocate_register());
}
