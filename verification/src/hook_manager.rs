//! The hook manager: owns the hooks of a session and installs them together.

use vstd::prelude::*;
use crate::function_hook::{FunctionHook, HookView, MemoryWrite};

verus! {

/// The hooks of one virtualization session, in the order they were supplied.
/// Two hooks on one site are kept as they are; the later one is written last.
pub struct HookManager {
    hooks: Vec<FunctionHook>,
}

/// The write that enabling the hook `hook` asks for, as an address and bytes.
pub open spec fn enabling_write(hook: HookView) -> (u64, Seq<u8>) {
    (hook.hook_address, hook.hook_type.shellcode_bytes(hook.handler))
}

/// The memory `memory` after `bytes` were stored at `address`.
pub open spec fn written(memory: Map<int, u8>, address: u64, bytes: Seq<u8>) -> Map<int, u8> {
    Map::new(
        |a: int| memory.dom().contains(a) || address <= a < address + bytes.len(),
        |a: int|
            if address <= a < address + bytes.len() {
                bytes[a - address]
            } else {
                memory[a]
            },
    )
}

/// The memory `memory` after the first `count` hooks of `hooks` were enabled in
/// order.
pub open spec fn installed(memory: Map<int, u8>, hooks: Seq<HookView>, count: int) -> Map<int, u8>
    decreases count,
{
    if count <= 0 {
        memory
    } else {
        let (address, bytes) = enabling_write(hooks[count - 1]);
        written(installed(memory, hooks, count - 1), address, bytes)
    }
}

/// The address `a` lies in the bytes that one of the first `count` hooks of
/// `hooks` overwrites.
pub open spec fn is_hooked(hooks: Seq<HookView>, count: int, a: int) -> bool {
    exists|i: int|
        0 <= i < count && (#[trigger] hooks[i]).hook_address <= a < hooks[i].hook_address
            + hooks[i].hook_type.shellcode_len_spec()
}

impl View for HookManager {
    type V = Seq<HookView>;

    closed spec fn view(&self) -> Seq<HookView> {
        self.hooks@.map_values(|hook: FunctionHook| hook@)
    }
}

impl HookManager {
    /// Takes ownership of `hooks`, keeping their order and every one of them.
    pub fn new(hooks: Vec<FunctionHook>) -> (manager: Self)
        ensures
            manager@ == hooks@.map_values(|hook: FunctionHook| hook@),
    {
        HookManager { hooks }
    }

    /// Number of hooks owned.
    pub fn len(&self) -> (count: usize)
        ensures
            count == self@.len(),
    {
        self.hooks.len()
    }

    /// The hook at position `index`.
    pub fn hook(&self, index: usize) -> (hook: &FunctionHook)
        requires
            index < self@.len(),
        ensures
            hook@ == self@[index as int],
    {
        &self.hooks[index]
    }

    /// Enables every hook, in order: returns for each the write that puts its
    /// shellcode at its hook site. The writes belong to the view of memory that
    /// instruction fetches are served from; the view that data accesses are served
    /// from stays as it is.
    pub fn enable_hooks(&self) -> (writes: Vec<MemoryWrite>)
        ensures
            writes@.len() == self@.len(),
            forall|i: int|
                0 <= i < writes@.len() ==> (#[trigger] writes@[i].address, writes@[i].bytes@)
                    == enabling_write(self@[i]),
    {
        let mut writes: Vec<MemoryWrite> = Vec::new();
        let mut index: usize = 0;
        while index < self.hooks.len()
            invariant
                index <= self.hooks@.len(),
                writes@.len() == index,
                forall|i: int|
                    0 <= i < index ==> (#[trigger] writes@[i].address, writes@[i].bytes@)
                        == enabling_write(self@[i]),
            decreases self.hooks@.len() - index,
        {
            let write = self.hooks[index].enable();
            writes.push(write);
            index = index + 1;
        }
        writes
    }
}

/// Storing the same bytes at the same address a second time changes nothing.
pub proof fn lemma_write_idempotent(memory: Map<int, u8>, address: u64, bytes: Seq<u8>)
    ensures
        written(written(memory, address, bytes), address, bytes) == written(
            memory,
            address,
            bytes,
        ),
{
    assert(written(written(memory, address, bytes), address, bytes) =~= written(
        memory,
        address,
        bytes,
    ));
}

/// Installing hooks changes memory at the hook sites only: every byte that no
/// hook overwrites is the same after installation as before.
pub proof fn lemma_install_touches_hook_sites_only(
    memory: Map<int, u8>,
    hooks: Seq<HookView>,
    count: int,
    a: int,
)
    requires
        0 <= count <= hooks.len(),
        !is_hooked(hooks, count, a),
    ensures
        installed(memory, hooks, count).dom().contains(a) == memory.dom().contains(a),
        memory.dom().contains(a) ==> installed(memory, hooks, count)[a] == memory[a],
    decreases count,
{
    if count > 0 {
        let last = hooks[count - 1];
        assert(!(last.hook_address <= a < last.hook_address
            + last.hook_type.shellcode_len_spec()));
        assert forall|i: int| 0 <= i < count - 1 implies !((#[trigger] hooks[i]).hook_address <= a
            < hooks[i].hook_address + hooks[i].hook_type.shellcode_len_spec()) by {
            assert(0 <= i < count);
        }
        lemma_install_touches_hook_sites_only(memory, hooks, count - 1, a);
        crate::function_hook::lemma_shellcode_length(last.hook_type, last.handler);
    }
}

/// After installation the bytes at the site of the hook enabled last are that
/// hook's shellcode.
pub proof fn lemma_last_hook_is_in_place(
    memory: Map<int, u8>,
    hooks: Seq<HookView>,
    count: int,
    offset: int,
)
    requires
        1 <= count <= hooks.len(),
        0 <= offset < hooks[count - 1].hook_type.shellcode_len_spec(),
    ensures
        installed(memory, hooks, count)[hooks[count - 1].hook_address + offset]
            == hooks[count - 1].hook_type.shellcode_bytes(hooks[count - 1].handler)[offset],
{
    let last = hooks[count - 1];
    crate::function_hook::lemma_shellcode_length(last.hook_type, last.handler);
}

} // verus!
