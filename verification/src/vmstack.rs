//! The host stack region that a processor switches to on every VM-exit.

use vstd::prelude::*;
use crate::error::HypervisorError;

verus! {

/// Size in bytes of one hardware page.
pub const PAGE_SIZE: usize = 0x1000;

/// Size in bytes of the whole host stack region.
pub const KERNEL_STACK_SIZE: usize = 0x6000;

/// Size in bytes of the back-pointer and of each reserved slot.
pub const SLOT_SIZE: usize = 8;

/// Size in bytes of the stack contents: the region without its four trailing slots.
pub const STACK_CONTENTS_SIZE: usize = KERNEL_STACK_SIZE - SLOT_SIZE * 4;

/// Value that `setup` stores in the reserved slots.
pub const PADDING_SENTINEL: u64 = u64::MAX;

/// One processor's host stack region.
pub struct VmStack {
    /// The stack proper; the host stack pointer starts at its end.
    pub stack_contents: [u8; STACK_CONTENTS_SIZE],
    /// Address of the processor's virtualization context.
    pub vmx: u64,
    /// Reserved; keeps the host stack pointer 16-byte aligned.
    pub padding_3: u64,
    /// Reserved; keeps the host stack pointer 16-byte aligned.
    pub padding_2: u64,
    /// Reserved; keeps the host stack pointer 16-byte aligned.
    pub padding_1: u64,
}

impl VmStack {
    /// Bytes occupied by the fields of a region when laid out in declaration order.
    pub open spec fn layout_size() -> nat {
        (STACK_CONTENTS_SIZE + SLOT_SIZE + 3 * SLOT_SIZE) as nat
    }

    /// The region is ready for use as `vmx`'s host stack: contents zeroed,
    /// reserved slots holding the sentinel, back-pointer equal to `vmx`.
    pub open spec fn is_set_up_for(&self, vmx: u64) -> bool {
        &&& self.stack_contents@ == Seq::new(STACK_CONTENTS_SIZE as nat, |i: int| 0u8)
        &&& self.vmx == vmx
        &&& self.padding_3 == PADDING_SENTINEL
        &&& self.padding_2 == PADDING_SENTINEL
        &&& self.padding_1 == PADDING_SENTINEL
    }

    /// Prepares the region for a VM-exit: zeroes the stack contents and fills the
    /// reserved slots with the sentinel. The back-pointer is left as it was.
    pub fn setup(vmstack: &mut VmStack) -> (result: Result<(), HypervisorError>)
        ensures
            result is Ok,
            final(vmstack).is_set_up_for(old(vmstack).vmx),
    {
        vmstack.stack_contents = [0u8; STACK_CONTENTS_SIZE];
        vmstack.padding_3 = PADDING_SENTINEL;
        vmstack.padding_2 = PADDING_SENTINEL;
        vmstack.padding_1 = PADDING_SENTINEL;
        assert(vmstack.stack_contents@ =~= Seq::new(STACK_CONTENTS_SIZE as nat, |i: int| 0u8));
        Ok(())
    }
}

/// The region's fields fill `KERNEL_STACK_SIZE` bytes exactly, which is a whole
/// number of pages and a multiple of 16.
pub proof fn lemma_region_layout()
    ensures
        VmStack::layout_size() == KERNEL_STACK_SIZE,
        KERNEL_STACK_SIZE % PAGE_SIZE == 0,
        KERNEL_STACK_SIZE % 16 == 0,
        STACK_CONTENTS_SIZE % 16 == 0,
{
}

} // verus!
