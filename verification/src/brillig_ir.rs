//! The Brillig side of code generation that block variables use: memory
//! addresses, the shapes a variable can take, register allocation, and the
//! per-function cache of allocations.
use std::collections::HashMap;
use std::marker::PhantomData;
use vstd::prelude::*;

use crate::ssa_types::{Type, ValueId};

verus! {

/// Bit size of a value that holds a memory address.
pub const BRILLIG_MEMORY_ADDRESSING_BIT_SIZE: u32 = 32;

/// A slot of Brillig memory, either absolute or relative to the stack frame.
#[derive(Clone, Copy, Debug, PartialEq, Eq, Structural)]
pub enum MemoryAddress {
    Direct(u32),
    Relative(u32),
}

/// A variable that fits in a single register.
#[derive(Clone, Copy, Debug, PartialEq, Eq, Structural)]
pub struct SingleAddrVariable {
    pub address: MemoryAddress,
    pub bit_size: u32,
}

/// A fixed-size array: a register that points to its elements.
#[derive(Clone, Copy, Debug, PartialEq, Eq, Structural)]
pub struct BrilligArray {
    pub pointer: MemoryAddress,
    pub size: usize,
}

/// A vector whose size is known only at run time.
#[derive(Clone, Copy, Debug, PartialEq, Eq, Structural)]
pub struct BrilligVector {
    pub pointer: MemoryAddress,
}

/// How an SSA value is held in Brillig memory.
#[derive(Clone, Copy, Debug, PartialEq, Eq, Structural)]
pub enum BrilligVariable {
    SingleAddr(SingleAddrVariable),
    BrilligArray(BrilligArray),
    BrilligVector(BrilligVector),
}

impl BrilligVariable {
    /// The register that holds the variable, or the pointer to its contents.
    pub open spec fn register(self) -> MemoryAddress {
        match self {
            BrilligVariable::SingleAddr(v) => v.address,
            BrilligVariable::BrilligArray(a) => a.pointer,
            BrilligVariable::BrilligVector(v) => v.pointer,
        }
    }

    /// The register that holds the variable, or the pointer to its contents.
    pub fn extract_register(self) -> (r: MemoryAddress)
        ensures
            r == self.register(),
    {
        match self {
            BrilligVariable::SingleAddr(v) => v.address,
            BrilligVariable::BrilligArray(a) => a.pointer,
            BrilligVariable::BrilligVector(v) => v.pointer,
        }
    }

    /// The variable as a single-register one; only such a variable is accepted.
    pub fn extract_single_addr(self) -> (r: SingleAddrVariable)
        requires
            self is SingleAddr,
        ensures
            self == BrilligVariable::SingleAddr(r),
    {
        match self {
            BrilligVariable::SingleAddr(v) => v,
            _ => {
                proof {
                    assert(false);
                }
                SingleAddrVariable { address: MemoryAddress::Direct(0), bit_size: 0 }
            },
        }
    }
}

/// Whether a value of this type fits in a single register.
pub open spec fn is_single_addr_type(typ: Type) -> bool {
    typ is Numeric || typ is Reference || typ is Function
}

/// The bit size of a value of a type that fits in a single register.
pub open spec fn bit_size_of(typ: Type) -> u32 {
    match typ {
        Type::Numeric(n) => n.spec_bit_size(),
        _ => BRILLIG_MEMORY_ADDRESSING_BIT_SIZE,
    }
}

/// The bit size of a value of an SSA type that fits in a single register:
/// references and function pointers take the width of a memory address.
pub fn get_bit_size_from_ssa_type(typ: &Type) -> (r: u32)
    requires
        is_single_addr_type(*typ),
    ensures
        r == bit_size_of(*typ),
{
    match typ {
        Type::Reference(_) => BRILLIG_MEMORY_ADDRESSING_BIT_SIZE,
        Type::Function => 32,
        Type::Numeric(n) => n.bit_size(),
        _ => {
            proof {
                assert(false);
            }
            0
        },
    }
}

/// A source of registers: it hands out registers that are not in use and
/// takes them back once their variable is gone.
pub trait RegisterAllocator: Sized + View {
    /// The internal invariant of the allocator.
    spec fn inv(&self) -> bool;

    /// The registers that are handed out and not yet given back.
    spec fn allocated(&self) -> Set<MemoryAddress>;

    /// Whether one more register can be handed out.
    spec fn can_allocate(&self) -> bool;

    /// The register that the next allocation hands out.
    spec fn next_register(&self) -> MemoryAddress;

    /// The allocator's state after it hands out its next register.
    spec fn view_after_allocation(&self) -> Self::V;

    /// The allocator's state after it takes `register` back.
    spec fn view_after_deallocation(&self, register: MemoryAddress) -> Self::V;

    fn allocate_register(&mut self) -> (r: MemoryAddress)
        requires
            old(self).inv(),
            old(self).can_allocate(),
        ensures
            r == old(self).next_register(),
            final(self)@ == old(self).view_after_allocation(),
            final(self).inv(),
            !old(self).allocated().contains(r),
            final(self).allocated() == old(self).allocated().insert(r),
    ;

    fn deallocate_register(&mut self, register: MemoryAddress)
        requires
            old(self).inv(),
            old(self).allocated().contains(register),
        ensures
            final(self)@ == old(self).view_after_deallocation(register),
            final(self).inv(),
            final(self).allocated() == old(self).allocated().remove(register),
    ;
}

/// Registers of a stack frame: indices from `start` on, relative to the
/// frame, with registers that were given back handed out again first.
pub struct Stack {
    start: u32,
    next_free_register_index: u32,
    deallocated_registers: Vec<u32>,
}

impl Stack {
    /// A frame whose registers start at `start`, none of them in use.
    pub fn new(start: u32) -> (s: Stack)
        ensures
            s.inv(),
            s.allocated() == Set::<MemoryAddress>::empty(),
            s.can_allocate() <==> start < u32::MAX,
            s.next_register() == MemoryAddress::Relative(start),
            s@ == (start, start, Seq::<u32>::empty()),
    {
        let s = Stack { start, next_free_register_index: start, deallocated_registers: Vec::new() };
        assert(s.allocated() =~= Set::<MemoryAddress>::empty());
        s
    }
}

impl View for Stack {
    /// The first register of the frame, the first register never handed out,
    /// and the registers given back, the last one given back last.
    type V = (u32, u32, Seq<u32>);

    closed spec fn view(&self) -> (u32, u32, Seq<u32>) {
        (self.start, self.next_free_register_index, self.deallocated_registers@)
    }
}

impl RegisterAllocator for Stack {
    closed spec fn inv(&self) -> bool {
        &&& self.start <= self.next_free_register_index
        &&& self.deallocated_registers@.no_duplicates()
        &&& forall|i: int|
            0 <= i < self.deallocated_registers@.len() ==> self.start
                <= #[trigger] self.deallocated_registers@[i] < self.next_free_register_index
    }

    closed spec fn allocated(&self) -> Set<MemoryAddress> {
        Set::new(
            |a: MemoryAddress|
                match a {
                    MemoryAddress::Relative(i) => self.start <= i < self.next_free_register_index
                        && !self.deallocated_registers@.contains(i),
                    MemoryAddress::Direct(_) => false,
                },
        )
    }

    closed spec fn can_allocate(&self) -> bool {
        self.deallocated_registers@.len() > 0 || self.next_free_register_index < u32::MAX
    }

    /// The register given back last, if any; else the first one never handed out.
    closed spec fn next_register(&self) -> MemoryAddress {
        if self.deallocated_registers@.len() > 0 {
            MemoryAddress::Relative(self.deallocated_registers@.last())
        } else {
            MemoryAddress::Relative(self.next_free_register_index)
        }
    }

    closed spec fn view_after_allocation(&self) -> (u32, u32, Seq<u32>) {
        if self.deallocated_registers@.len() > 0 {
            (self.start, self.next_free_register_index, self.deallocated_registers@.drop_last())
        } else {
            (self.start, (self.next_free_register_index + 1) as u32, self.deallocated_registers@)
        }
    }

    closed spec fn view_after_deallocation(&self, register: MemoryAddress) -> (u32, u32, Seq<u32>) {
        match register {
            MemoryAddress::Relative(i) => (
                self.start,
                self.next_free_register_index,
                self.deallocated_registers@.push(i),
            ),
            MemoryAddress::Direct(_) => self@,
        }
    }

    fn allocate_register(&mut self) -> (r: MemoryAddress) {
        let ghost old_free = self.deallocated_registers@;
        if let Some(index) = self.deallocated_registers.pop() {
            let r = MemoryAddress::Relative(index);
            proof {
                assert(old_free == self.deallocated_registers@.push(index));
                assert(old_free[old_free.len() - 1] == index);
                assert forall|j: u32|
                    #[trigger] old_free.contains(j) <==> (self.deallocated_registers@.contains(j)
                        || j == index) by {
                    if old_free.contains(j) {
                        let k = choose|k: int| 0 <= k < old_free.len() && old_free[k] == j;
                        if k < old_free.len() - 1 {
                            assert(self.deallocated_registers@[k] == j);
                        }
                    }
                    if self.deallocated_registers@.contains(j) {
                        let k = choose|k: int|
                            0 <= k < self.deallocated_registers@.len()
                                && self.deallocated_registers@[k] == j;
                        assert(old_free[k] == j);
                    }
                }
                assert(!self.deallocated_registers@.contains(index));
                assert(self.allocated() =~= old(self).allocated().insert(r));
            }
            r
        } else {
            let index = self.next_free_register_index;
            self.next_free_register_index = index + 1;
            let r = MemoryAddress::Relative(index);
            proof {
                assert(self.allocated() =~= old(self).allocated().insert(r));
            }
            r
        }
    }

    fn deallocate_register(&mut self, register: MemoryAddress) {
        let ghost old_free = self.deallocated_registers@;
        let index = match register {
            MemoryAddress::Relative(i) => i,
            MemoryAddress::Direct(_) => {
                proof {
                    assert(false);
                }
                0
            },
        };
        proof {
            assert(!old_free.contains(index));
        }
        self.deallocated_registers.push(index);
        proof {
            assert(self.deallocated_registers@ == old_free.push(index));
            assert forall|j: u32|
                #[trigger] self.deallocated_registers@.contains(j) <==> (old_free.contains(j) || j
                    == index) by {
                if self.deallocated_registers@.contains(j) {
                    let k = choose|k: int|
                        0 <= k < self.deallocated_registers@.len()
                            && self.deallocated_registers@[k] == j;
                    if k < old_free.len() {
                        assert(old_free[k] == j);
                    }
                }
                if old_free.contains(j) {
                    let k = choose|k: int| 0 <= k < old_free.len() && old_free[k] == j;
                    assert(self.deallocated_registers@[k] == j);
                }
                if j == index {
                    assert(self.deallocated_registers@[old_free.len() as int] == j);
                }
            }
            assert(self.allocated() =~= old(self).allocated().remove(register));
        }
    }
}

/// The state of Brillig code generation that allocation goes through.
/// `F` is the field that the generated program computes over.
pub struct BrilligContext<F, Registers> {
    pub registers: Registers,
    pub field: PhantomData<F>,
}

impl<F, Registers: RegisterAllocator> BrilligContext<F, Registers> {
    /// A context that draws its registers from `registers`.
    pub fn new(registers: Registers) -> (c: Self)
        ensures
            c.registers == registers,
    {
        BrilligContext { registers, field: PhantomData }
    }

    /// Hands out a register that is not in use.
    pub fn allocate_register(&mut self) -> (r: MemoryAddress)
        requires
            old(self).registers.inv(),
            old(self).registers.can_allocate(),
        ensures
            r == old(self).registers.next_register(),
            final(self).registers@ == old(self).registers.view_after_allocation(),
            final(self).registers.inv(),
            !old(self).registers.allocated().contains(r),
            final(self).registers.allocated() == old(self).registers.allocated().insert(r),
    {
        self.registers.allocate_register()
    }

    /// Takes back a register that is in use.
    pub fn deallocate_register(&mut self, register: MemoryAddress)
        requires
            old(self).registers.inv(),
            old(self).registers.allocated().contains(register),
        ensures
            final(self).registers@ == old(self).registers.view_after_deallocation(register),
            final(self).registers.inv(),
            final(self).registers.allocated() == old(self).registers.allocated().remove(register),
    {
        self.registers.deallocate_register(register)
    }
}

/// The state of code generation for one function: where each SSA value
/// that has been defined so far lives.
pub struct FunctionContext {
    pub ssa_value_allocations: HashMap<ValueId, BrilligVariable>,
}

impl FunctionContext {
    /// A function in which no value has been allocated yet.
    pub fn new() -> (c: FunctionContext)
        ensures
            c.ssa_value_allocations@ == Map::<ValueId, BrilligVariable>::empty(),
    {
        FunctionContext { ssa_value_allocations: HashMap::new() }
    }
}

} // verus!
