//! Inline hooks: the shellcode that diverts a function, the trampoline through
//! which the function stays callable, and the hook object that owns both.

use vstd::prelude::*;
use vstd::slice::slice_subrange;
use vstd::slice::slice_to_vec;
use iced_x86::{BlockEncoder, BlockEncoderOptions, Decoder, DecoderOptions, InstructionBlock};
use crate::error::HypervisorError;
use crate::relocator::{relocate, relocation, total_length, Instruction};
use crate::relocator::{
    decodes_to, lemma_ip_relative_operand_rejected, lemma_position_independent_code_relocates,
    lemma_relative_branch_rejected, lemma_relocated_stream_length, lemma_relocation_shape,
    relocatable_in_place, relocated_stream, stream_offset, whole_in_place, Decoding,
};
use crate::vmstack::PAGE_SIZE;

verus! {

/// Length of the absolute-jump shellcode.
pub const JMP_SHELLCODE_LEN: usize = 14;

/// Length of the breakpoint shellcode.
pub const BP_SHELLCODE_LEN: usize = 1;

/// The one-byte trap instruction.
pub const BREAKPOINT_OPCODE: u8 = 0xCC;

/// The two kinds of hook.
#[derive(Clone, Copy, Debug, PartialEq, Eq, Structural)]
pub enum HookType {
    /// The hook site jumps straight to the handler.
    Jmp,
    /// The hook site traps, and the trap is routed to the handler.
    Breakpoint,
}

/// Bytes to be stored at an address.
pub struct MemoryWrite {
    /// Address of the first byte.
    pub address: u64,
    /// The bytes, in ascending address order.
    pub bytes: Vec<u8>,
}

/// A region of memory to be locked in place.
#[derive(Clone, Copy, Debug, PartialEq, Eq, Structural)]
pub struct LockRequest {
    /// Address of the first byte.
    pub address: u64,
    /// Number of bytes.
    pub length: usize,
}

/// The eight bytes of `value`, least significant first.
pub open spec fn le_bytes(value: u64) -> Seq<u8> {
    seq![
        (value % 0x100) as u8,
        (value / 0x100 % 0x100) as u8,
        (value / 0x1_0000 % 0x100) as u8,
        (value / 0x100_0000 % 0x100) as u8,
        (value / 0x1_0000_0000 % 0x100) as u8,
        (value / 0x100_0000_0000 % 0x100) as u8,
        (value / 0x1_0000_0000_0000 % 0x100) as u8,
        (value / 0x100_0000_0000_0000 % 0x100) as u8,
    ]
}

/// The number that eight bytes denote when read least significant first.
pub open spec fn le_value(bytes: Seq<u8>) -> nat {
    (bytes[0] + 0x100 * bytes[1] + 0x1_0000 * bytes[2] + 0x100_0000 * bytes[3] + 0x1_0000_0000
        * bytes[4] + 0x100_0000_0000 * bytes[5] + 0x1_0000_0000_0000 * bytes[6]
        + 0x100_0000_0000_0000 * bytes[7]) as nat
}

/// The absolute jump to `target`: `jmp qword ptr [rip+0]` followed by the
/// address it reads. No register is used or changed.
pub open spec fn jmp_shellcode_bytes(target: u64) -> Seq<u8> {
    seq![0xffu8, 0x25u8, 0x00u8, 0x00u8, 0x00u8, 0x00u8] + le_bytes(target)
}

/// The trampoline for relocated code `encoded` of a function at
/// `original_address`, of which `relocated_length` bytes were relocated: the
/// code, then a jump to the first byte of the function that was not relocated.
pub open spec fn assembled_trampoline(
    original_address: u64,
    relocated_length: nat,
    encoded: Option<Seq<u8>>,
) -> Result<Seq<u8>, HypervisorError> {
    match encoded {
        Some(code) if code.len() == relocated_length => Ok(
            code + jmp_shellcode_bytes((original_address + relocated_length) as u64),
        ),
        _ => Err(HypervisorError::EncodingFailed),
    }
}

/// The 64-bit code that the block encoder produces for the instructions of
/// `code`, decoded at address `ip`, when they are to run at address `rip`;
/// `None` when it cannot encode them.
pub uninterp spec fn reencoded_block(code: Seq<u8>, ip: u64, rip: u64) -> Option<Seq<u8>>;

/// Decodes all of `code` with `iced_x86::Decoder` (64-bit, no option, first
/// instruction at `ip`) and hands the instructions to
/// `iced_x86::BlockEncoder::encode` as one block with base address `rip` and no
/// option. Returns the encoder's code buffer, or `None` where it reports an
/// error. Nothing is claimed of the outcome beyond its being determined by
/// `code`, `ip` and `rip`. The decoder's constructor refuses only a slice that ends
/// within 15 bytes of the end of the address space.
#[verifier::external_body]
fn encode_block(code: &[u8], ip: u64, rip: u64) -> (encoded: Option<Vec<u8>>)
    ensures
        encoded matches Some(buffer) ==> reencoded_block(code@, ip, rip) == Some(buffer@),
        encoded is None ==> reencoded_block(code@, ip, rip) is None,
{
    let decoder = Decoder::with_ip(64, code, ip, DecoderOptions::NONE);
    let instructions: Vec<iced_x86::Instruction> = decoder.into_iter().collect();
    let block = InstructionBlock::new(&instructions, rip);
    BlockEncoder::encode(64, block, BlockEncoderOptions::NONE).ok().map(|result| result.code_buffer)
}

/// The size of a base page as `x86::bits64::paging::BASE_PAGE_SIZE` gives it:
/// 4096 bytes.
#[verifier::external_body]
fn base_page_size() -> (size: usize)
    ensures
        size == PAGE_SIZE,
{
    x86::bits64::paging::BASE_PAGE_SIZE
}

/// Sum of the lengths of `instructions`.
fn relocated_length(instructions: &Vec<Instruction>) -> (length: usize)
    requires
        total_length(instructions@) <= usize::MAX,
    ensures
        length == total_length(instructions@),
{
    let mut length: usize = 0;
    let mut index: usize = 0;
    while index < instructions.len()
        invariant
            index <= instructions@.len(),
            length == total_length(instructions@.take(index as int)),
            total_length(instructions@) <= usize::MAX,
        decreases instructions@.len() - index,
    {
        proof {
            crate::relocator::lemma_total_length_take(instructions@, index as int + 1);
            crate::relocator::lemma_total_length_prefix(instructions@, index as int + 1);
        }
        length = length + instructions[index].length;
        index = index + 1;
    }
    assert(instructions@.take(index as int) =~= instructions@);
    length
}

impl HookType {
    /// Number of bytes the hook overwrites at the hook site.
    pub open spec fn shellcode_len_spec(self) -> usize {
        match self {
            HookType::Jmp => JMP_SHELLCODE_LEN,
            HookType::Breakpoint => BP_SHELLCODE_LEN,
        }
    }

    /// The bytes the hook stores at the hook site to reach `handler`.
    pub open spec fn shellcode_bytes(self, handler: u64) -> Seq<u8> {
        match self {
            HookType::Jmp => jmp_shellcode_bytes(handler),
            HookType::Breakpoint => seq![BREAKPOINT_OPCODE],
        }
    }

    /// Number of bytes the hook overwrites at the hook site.
    #[verifier::when_used_as_spec(shellcode_len_spec)]
    pub fn shellcode_len(self) -> (len: usize)
        ensures
            len == self.shellcode_len_spec(),
    {
        match self {
            HookType::Jmp => JMP_SHELLCODE_LEN,
            HookType::Breakpoint => BP_SHELLCODE_LEN,
        }
    }

    /// The bytes the hook stores at the hook site to reach `handler`.
    pub fn shellcode(self, handler: u64) -> (bytes: Vec<u8>)
        ensures
            bytes@ == self.shellcode_bytes(handler),
            bytes@.len() == self.shellcode_len_spec(),
    {
        match self {
            HookType::Jmp => {
                let jmp = FunctionHook::jmp_shellcode(handler);
                slice_to_vec(jmp.as_slice())
            },
            HookType::Breakpoint => {
                let mut bytes: Vec<u8> = Vec::new();
                bytes.push(BREAKPOINT_OPCODE);
                assert(bytes@ =~= seq![BREAKPOINT_OPCODE]);
                bytes
            },
        }
    }
}

/// What a hook is made of.
pub struct HookView {
    /// The trampoline's code.
    pub trampoline: Seq<u8>,
    /// Address the trampoline's code runs at.
    pub trampoline_address: u64,
    /// Address the hook is installed at.
    pub hook_address: u64,
    /// Address of the handler the hook diverts to.
    pub handler: u64,
    /// Handle of the lock that keeps the hooked page in memory.
    pub mdl: u64,
    /// Kind of the hook.
    pub hook_type: HookType,
}

/// An inline hook on one function, ready to be enabled.
pub struct FunctionHook {
    trampoline: Vec<u8>,
    trampoline_address: u64,
    hook_address: u64,
    handler: u64,
    mdl: u64,
    hook_type: HookType,
}

impl View for FunctionHook {
    type V = HookView;

    closed spec fn view(&self) -> HookView {
        HookView {
            trampoline: self.trampoline@,
            trampoline_address: self.trampoline_address,
            hook_address: self.hook_address,
            handler: self.handler,
            mdl: self.mdl,
            hook_type: self.hook_type,
        }
    }
}

impl FunctionHook {
    /// What holds of every hook: its page lock is held, and its trampoline has
    /// relocated code in front of the jump back.
    pub open spec fn hook_invariant(view: HookView) -> bool {
        &&& view.mdl != 0
        &&& view.trampoline.len() > JMP_SHELLCODE_LEN
    }

    #[verifier::type_invariant]
    closed spec fn well_formed(&self) -> bool {
        Self::hook_invariant(self@)
    }

    /// Number of bytes to read at a function's entry so that instructions
    /// covering `required_size` bytes can be decoded: twice the size, and no
    /// fewer than the longest instruction.
    pub open spec fn read_length_spec(required_size: usize) -> nat {
        if required_size * 2 >= 15 {
            (required_size * 2) as nat
        } else {
            15
        }
    }

    /// The trampoline for the function at `original_address` whose code `bytes`
    /// was read at `address`, when the hook overwrites `required` bytes and the
    /// trampoline runs at `trampoline_address`.
    pub open spec fn trampoline_bytes(
        original_address: u64,
        address: u64,
        required: nat,
        bytes: Seq<u8>,
        trampoline_address: u64,
    ) -> Result<Seq<u8>, HypervisorError> {
        match relocation(bytes, address, required) {
            Err(e) => Err(e),
            Ok(instructions) => {
                let length = total_length(instructions);
                assembled_trampoline(
                    original_address,
                    length,
                    reencoded_block(bytes.subrange(0, length as int), address, trampoline_address),
                )
            },
        }
    }

    /// What `new` makes of its arguments.
    pub open spec fn created(
        original_address: u64,
        hook_address: u64,
        handler: u64,
        hook_type: HookType,
        code: Seq<u8>,
        trampoline_address: u64,
        mdl: u64,
    ) -> Option<HookView> {
        match Self::trampoline_bytes(
            original_address,
            hook_address,
            hook_type.shellcode_len_spec() as nat,
            code,
            trampoline_address,
        ) {
            Ok(trampoline) if mdl != 0 => Some(
                HookView { trampoline, trampoline_address, hook_address, handler, mdl, hook_type },
            ),
            _ => None,
        }
    }

    /// The region to lock before a hook at `hook_address` is created.
    pub open spec fn lock_region(hook_address: u64) -> LockRequest {
        LockRequest { address: hook_address, length: PAGE_SIZE }
    }

    /// Number of bytes to read at a function's entry so that instructions
    /// covering `required_size` bytes can be decoded.
    pub fn read_length(required_size: usize) -> (length: usize)
        requires
            required_size * 2 <= usize::MAX,
        ensures
            length == Self::read_length_spec(required_size),
    {
        let doubled: usize = required_size * 2;
        if doubled >= 15 {
            doubled
        } else {
            15
        }
    }

    /// Builds the shellcode that jumps to `target_address` without touching a
    /// register.
    pub fn jmp_shellcode(target_address: u64) -> (shellcode: [u8; 14])
        ensures
            shellcode@ == jmp_shellcode_bytes(target_address),
    {
        let shellcode: [u8; 14] = [
            0xff,
            0x25,
            0x00,
            0x00,
            0x00,
            0x00,
            (target_address % 0x100) as u8,
            (target_address / 0x100 % 0x100) as u8,
            (target_address / 0x1_0000 % 0x100) as u8,
            (target_address / 0x100_0000 % 0x100) as u8,
            (target_address / 0x1_0000_0000 % 0x100) as u8,
            (target_address / 0x100_0000_0000 % 0x100) as u8,
            (target_address / 0x1_0000_0000_0000 % 0x100) as u8,
            (target_address / 0x100_0000_0000_0000 % 0x100) as u8,
        ];
        assert(shellcode@ =~= jmp_shellcode_bytes(target_address));
        shellcode
    }

    /// Completes a trampoline: checks that `encoded`, the relocated code, has the
    /// length of the code it replaces and appends the jump back to
    /// `original_address + relocated_length`.
    pub fn assemble_trampoline(
        original_address: u64,
        relocated_length: usize,
        encoded: Option<Vec<u8>>,
    ) -> (result: Result<Vec<u8>, HypervisorError>)
        requires
            original_address + relocated_length <= u64::MAX,
        ensures
            result matches Ok(trampoline) ==> assembled_trampoline(
                original_address,
                relocated_length as nat,
                match encoded {
                    Some(code) => Some(code@),
                    None => None,
                },
            ) == Ok::<Seq<u8>, HypervisorError>(trampoline@),
            result matches Err(e) ==> assembled_trampoline(
                original_address,
                relocated_length as nat,
                match encoded {
                    Some(code) => Some(code@),
                    None => None,
                },
            ) == Err::<Seq<u8>, HypervisorError>(e),
    {
        let mut trampoline = match encoded {
            Some(code) => code,
            None => {
                return Err(HypervisorError::EncodingFailed);
            },
        };
        if trampoline.len() != relocated_length {
            return Err(HypervisorError::EncodingFailed);
        }
        let jmp_back_address: u64 = original_address + relocated_length as u64;
        let jmp = Self::jmp_shellcode(jmp_back_address);
        let ghost code = trampoline@;
        let mut index: usize = 0;
        while index < JMP_SHELLCODE_LEN
            invariant
                index <= JMP_SHELLCODE_LEN,
                jmp@.len() == JMP_SHELLCODE_LEN,
                trampoline@ == code + jmp@.take(index as int),
            decreases JMP_SHELLCODE_LEN - index,
        {
            trampoline.push(jmp[index]);
            assert(jmp@.take(index as int + 1) =~= jmp@.take(index as int).push(jmp@[index as int]));
            index = index + 1;
        }
        assert(jmp@.take(JMP_SHELLCODE_LEN as int) =~= jmp@);
        Ok(trampoline)
    }

    /// Builds the trampoline of the function at `original_address`: the leading
    /// instructions found in `bytes`, the code read at `address`, that cover
    /// `required_size` bytes, encoded to run at `trampoline_address`, followed
    /// by a jump back into the function behind them.
    pub fn trampoline_shellcode(
        original_address: u64,
        address: u64,
        required_size: usize,
        bytes: &[u8],
        trampoline_address: u64,
    ) -> (result: Result<Vec<u8>, HypervisorError>)
        requires
            address + bytes@.len() <= u64::MAX,
            original_address + bytes@.len() <= u64::MAX,
        ensures
            result matches Ok(trampoline) ==> Self::trampoline_bytes(
                original_address,
                address,
                required_size as nat,
                bytes@,
                trampoline_address,
            ) == Ok::<Seq<u8>, HypervisorError>(trampoline@),
            result matches Err(e) ==> Self::trampoline_bytes(
                original_address,
                address,
                required_size as nat,
                bytes@,
                trampoline_address,
            ) == Err::<Seq<u8>, HypervisorError>(e),
    {
        let instructions = match relocate(bytes, address, required_size) {
            Ok(instructions) => instructions,
            Err(e) => {
                return Err(e);
            },
        };
        proof {
            lemma_relocation_shape(bytes@, address, required_size as nat);
            assert(bytes@.len() == bytes.len());
        }
        let length = relocated_length(&instructions);
        let encoded = encode_block(slice_subrange(bytes, 0, length), address, trampoline_address);
        Self::assemble_trampoline(original_address, length, encoded)
    }

    /// The region to lock before a hook at `hook_address` is created: one page's
    /// length from the hook site on.
    pub fn lock_request(hook_address: u64) -> (request: LockRequest)
        ensures
            request == Self::lock_region(hook_address),
    {
        LockRequest { address: hook_address, length: base_page_size() }
    }

    /// Creates the hook of kind `hook_type` that diverts the function at
    /// `original_address` to `handler`. `code` is what was read at
    /// `hook_address`, `trampoline_address` is where the trampoline will run,
    /// and `mdl` is the handle of the lock on the hook site's page, zero if the
    /// page could not be locked. Returns `None` when no trampoline can be built
    /// or the lock is missing. The hook is created disabled.
    pub fn new(
        original_address: u64,
        hook_address: u64,
        handler: u64,
        hook_type: HookType,
        code: &[u8],
        trampoline_address: u64,
        mdl: u64,
    ) -> (hook: Option<Self>)
        requires
            hook_address + code@.len() <= u64::MAX,
            original_address + code@.len() <= u64::MAX,
        ensures
            hook matches Some(h) ==> Self::created(
                original_address,
                hook_address,
                handler,
                hook_type,
                code@,
                trampoline_address,
                mdl,
            ) == Some(h@),
            hook is None ==> Self::created(
                original_address,
                hook_address,
                handler,
                hook_type,
                code@,
                trampoline_address,
                mdl,
            ) is None,
    {
        let trampoline = match Self::trampoline_shellcode(
            original_address,
            hook_address,
            hook_type.shellcode_len(),
            code,
            trampoline_address,
        ) {
            Ok(trampoline) => trampoline,
            Err(_) => {
                return None;
            },
        };
        if mdl == 0 {
            return None;
        }
        proof {
            lemma_trampoline_length(
                original_address,
                hook_address,
                hook_type.shellcode_len_spec() as nat,
                code@,
                trampoline_address,
            );
        }
        Some(FunctionHook { trampoline, trampoline_address, hook_address, handler, mdl, hook_type })
    }

    /// Enables the hook: returns the shellcode to store at the hook site.
    pub fn enable(&self) -> (write: MemoryWrite)
        ensures
            write.address == self@.hook_address,
            write.bytes@ == self@.hook_type.shellcode_bytes(self@.handler),
    {
        MemoryWrite { address: self.hook_address, bytes: self.hook_type.shellcode(self.handler) }
    }

    /// Address of the trampoline, through which the unhooked function is called.
    pub fn trampoline_address(&self) -> (address: u64)
        ensures
            address == self@.trampoline_address,
    {
        self.trampoline_address
    }

    /// Address of the handler.
    pub fn handler_address(&self) -> (address: u64)
        ensures
            address == self@.handler,
    {
        self.handler
    }

    /// Address the hook is installed at.
    pub fn hook_address(&self) -> (address: u64)
        ensures
            address == self@.hook_address,
    {
        self.hook_address
    }

    /// Kind of the hook.
    pub fn hook_type(&self) -> (hook_type: HookType)
        ensures
            hook_type == self@.hook_type,
    {
        self.hook_type
    }

    /// The trampoline's code, to be stored at the trampoline's address.
    pub fn trampoline(&self) -> (code: &Vec<u8>)
        ensures
            code@ == self@.trampoline,
            code@.len() > JMP_SHELLCODE_LEN,
    {
        proof {
            use_type_invariant(self);
        }
        &self.trampoline
    }

    /// Gives the hook up and returns the handle of its page lock, which is to be
    /// unlocked and freed.
    pub fn release(self) -> (mdl: u64)
        ensures
            mdl == self@.mdl,
            mdl != 0,
    {
        proof {
            use_type_invariant(&self);
        }
        self.mdl
    }
}

/// A trampoline is as long as the code it relocates plus the jump back, and ends
/// with the jump to the first byte that was not relocated.
pub proof fn lemma_trampoline_length(
    original_address: u64,
    address: u64,
    required: nat,
    bytes: Seq<u8>,
    trampoline_address: u64,
)
    ensures
        FunctionHook::trampoline_bytes(original_address, address, required, bytes, trampoline_address)
            matches Ok(trampoline) ==> {
            &&& relocation(bytes, address, required) matches Ok(instructions)
            &&& trampoline.len() == total_length(instructions) + JMP_SHELLCODE_LEN
            &&& total_length(instructions) >= 1
            &&& trampoline.subrange(total_length(instructions) as int, trampoline.len() as int)
                == jmp_shellcode_bytes((original_address + total_length(instructions)) as u64)
        },
{
    lemma_relocation_shape(bytes, address, required);
    match FunctionHook::trampoline_bytes(original_address, address, required, bytes, trampoline_address) {
        Ok(trampoline) => {
            let instructions = relocation(bytes, address, required)->Ok_0;
            let length = total_length(instructions);
            let jmp = jmp_shellcode_bytes((original_address + length) as u64);
            assert(trampoline.subrange(length as int, trampoline.len() as int) =~= jmp);
        },
        Err(_) => {},
    }
}


/// The shellcode of a hook is as long as the hook's kind says.
pub proof fn lemma_shellcode_length(hook_type: HookType, handler: u64)
    ensures
        hook_type.shellcode_bytes(handler).len() == hook_type.shellcode_len_spec(),
        jmp_shellcode_bytes(handler).len() == JMP_SHELLCODE_LEN,
{
}

/// The bytes of a value read back give the value: the jump's operand is the
/// target and nothing else.
pub proof fn lemma_le_bytes_round_trip(value: u64)
    ensures
        le_bytes(value).len() == 8,
        le_value(le_bytes(value)) == value,
        le_bytes(value) == jmp_shellcode_bytes(value).subrange(6, 14),
{
    assert(le_bytes(value) =~= jmp_shellcode_bytes(value).subrange(6, 14));
    let v = value as int;
    let q1 = v / 0x100;
    let q2 = q1 / 0x100;
    let q3 = q2 / 0x100;
    let q4 = q3 / 0x100;
    let q5 = q4 / 0x100;
    let q6 = q5 / 0x100;
    let q7 = q6 / 0x100;
    assert(q2 == v / 0x1_0000);
    assert(q3 == v / 0x100_0000);
    assert(q4 == v / 0x1_0000_0000);
    assert(q5 == v / 0x100_0000_0000);
    assert(q6 == v / 0x1_0000_0000_0000);
    assert(q7 == v / 0x100_0000_0000_0000);
    assert(q7 < 0x100);
    assert(v == v % 0x100 + 0x100 * (q1 % 0x100) + 0x1_0000 * (q2 % 0x100) + 0x100_0000 * (q3
        % 0x100) + 0x1_0000_0000 * (q4 % 0x100) + 0x100_0000_0000 * (q5 % 0x100)
        + 0x1_0000_0000_0000 * (q6 % 0x100) + 0x100_0000_0000_0000 * (q7 % 0x100));
}

/// The region locked for a hook holds the hook site, and with it the page lock
/// covers the page that the hook site lies on.
pub proof fn lemma_lock_region_covers_hook_site(hook_address: u64)
    ensures
        ({
            let region = FunctionHook::lock_region(hook_address);
            &&& region.address <= hook_address < region.address + region.length
            &&& region.length == PAGE_SIZE
            &&& region.address / (PAGE_SIZE as u64) == hook_address / (PAGE_SIZE as u64)
        }),
{
}


/// Code that begins with sequential and return instructions only, none with an
/// IP-relative operand, which cover the bytes the hook overwrites, gets a
/// trampoline whenever the encoder produces code as long as the instructions
/// relocated: that code, followed by the jump to the first byte of the function
/// behind them. `count` is the number of instructions relocated.
pub proof fn lemma_position_independent_code_gets_trampoline(
    original_address: u64,
    address: u64,
    required: nat,
    bytes: Seq<u8>,
    trampoline_address: u64,
    stream: Seq<Decoding>,
) -> (count: int)
    requires
        required >= 1,
        decodes_to(bytes, address, stream),
        forall|k: int|
            0 <= k < stream.len() ==> #[trigger] relocatable_in_place(bytes.len(), stream, k),
        stream_offset(stream, stream.len() as int) >= required,
    ensures
        1 <= count <= stream.len(),
        stream_offset(stream, count - 1) < required <= stream_offset(stream, count),
        FunctionHook::trampoline_bytes(original_address, address, required, bytes, trampoline_address)
            == assembled_trampoline(
            original_address,
            stream_offset(stream, count),
            reencoded_block(
                bytes.subrange(0, stream_offset(stream, count) as int),
                address,
                trampoline_address,
            ),
        ),
{
    let count = lemma_position_independent_code_relocates(bytes, address, required, stream);
    lemma_relocated_stream_length(stream, address, count);
    count
}

/// A call, a conditional or unconditional branch or an indirect call among the
/// instructions that would have to be relocated leaves the function without
/// trampoline and without hook: synthesis fails with `RelativeInstruction`.
pub proof fn lemma_relative_branch_fails_synthesis(
    original_address: u64,
    address: u64,
    required: nat,
    bytes: Seq<u8>,
    trampoline_address: u64,
    stream: Seq<Decoding>,
    k: int,
)
    requires
        0 <= k < stream.len(),
        decodes_to(bytes, address, stream),
        forall|j: int| 0 <= j < k ==> #[trigger] relocatable_in_place(bytes.len(), stream, j),
        stream_offset(stream, k) < required,
        whole_in_place(bytes.len(), stream, k),
        stream[k].flow.is_relative(),
    ensures
        FunctionHook::trampoline_bytes(original_address, address, required, bytes, trampoline_address)
            == Err::<Seq<u8>, HypervisorError>(HypervisorError::RelativeInstruction),
{
    lemma_relative_branch_rejected(bytes, address, required, stream, k);
}

/// An instruction with an IP-relative memory operand among the instructions
/// that would have to be relocated leaves the function without trampoline and
/// without hook, whatever its flow control: synthesis fails with
/// `RelativeInstruction`.
pub proof fn lemma_ip_relative_operand_fails_synthesis(
    original_address: u64,
    address: u64,
    required: nat,
    bytes: Seq<u8>,
    trampoline_address: u64,
    stream: Seq<Decoding>,
    k: int,
)
    requires
        0 <= k < stream.len(),
        decodes_to(bytes, address, stream),
        forall|j: int| 0 <= j < k ==> #[trigger] relocatable_in_place(bytes.len(), stream, j),
        stream_offset(stream, k) < required,
        whole_in_place(bytes.len(), stream, k),
        stream[k].ip_relative,
    ensures
        FunctionHook::trampoline_bytes(original_address, address, required, bytes, trampoline_address)
            == Err::<Seq<u8>, HypervisorError>(HypervisorError::RelativeInstruction),
{
    lemma_ip_relative_operand_rejected(bytes, address, required, stream, k);
}

} // verus!
