//! The instruction relocator: walks the machine code at a function's entry and
//! picks the leading instructions that may be moved to another address unchanged.

use vstd::prelude::*;
use vstd::slice::slice_subrange;
use iced_x86::{Decoder, DecoderOptions};
use crate::error::HypervisorError;

verus! {

/// How an instruction passes control on.
#[derive(Clone, Copy, Debug, PartialEq, Eq, Structural)]
pub enum FlowControl {
    /// Execution continues with the instruction that follows.
    Sequential,
    /// Returns to the caller.
    Return,
    /// Calls a target encoded in the instruction.
    Call,
    /// Branches to an encoded target when a condition holds.
    ConditionalBranch,
    /// Always branches to an encoded target.
    UnconditionalBranch,
    /// Calls a target taken from a register or from memory.
    IndirectCall,
    /// Branches to a target taken from a register or from memory.
    IndirectBranch,
    /// Raises a software interrupt.
    Interrupt,
    /// Enters or leaves a transactional region.
    SpecialRegionTransition,
    /// Raises an invalid-opcode exception.
    Invalid,
}

/// What the decoder reports about the instruction at the start of a code buffer.
#[derive(Clone, Copy, Debug, PartialEq, Eq, Structural)]
pub struct Decoding {
    /// Number of bytes the instruction occupies.
    pub length: usize,
    /// How the instruction passes control on.
    pub flow: FlowControl,
    /// The bytes are no well-formed instruction.
    pub malformed: bool,
    /// The instruction has a memory operand addressed relative to the instruction pointer.
    pub ip_relative: bool,
}

/// An instruction accepted for relocation.
#[derive(Clone, Copy, Debug, PartialEq, Eq, Structural)]
pub struct Instruction {
    /// Address the instruction was decoded at.
    pub address: u64,
    /// Number of bytes the instruction occupies.
    pub length: usize,
    /// How the instruction passes control on.
    pub flow: FlowControl,
}

/// The report of the 64-bit decoder on the first instruction of `code`, taken to
/// stand at address `ip`.
pub uninterp spec fn decoded_instruction(code: Seq<u8>, ip: u64) -> Decoding;

/// Decodes the first instruction of `code` with `iced_x86::Decoder::decode`, in
/// 64-bit mode with no decoder option set and with `ip` as the instruction's
/// address, and copies out its length, its flow control, whether it is the invalid
/// instruction and whether it has an IP-relative memory operand. Nothing is
/// claimed of the report beyond its being determined by `code` and `ip`. The
/// decoder's constructor refuses only a slice that ends within 15 bytes of the
/// end of the address space.
#[verifier::external_body]
fn decode_instruction(code: &[u8], ip: u64) -> (decoding: Decoding)
    ensures
        decoding == decoded_instruction(code@, ip),
{
    let instr = Decoder::with_ip(64, code, ip, DecoderOptions::NONE).decode();
    let flow = match instr.flow_control() {
        iced_x86::FlowControl::Next => FlowControl::Sequential,
        iced_x86::FlowControl::Return => FlowControl::Return,
        iced_x86::FlowControl::Call => FlowControl::Call,
        iced_x86::FlowControl::ConditionalBranch => FlowControl::ConditionalBranch,
        iced_x86::FlowControl::UnconditionalBranch => FlowControl::UnconditionalBranch,
        iced_x86::FlowControl::IndirectCall => FlowControl::IndirectCall,
        iced_x86::FlowControl::IndirectBranch => FlowControl::IndirectBranch,
        iced_x86::FlowControl::Interrupt => FlowControl::Interrupt,
        iced_x86::FlowControl::XbeginXabortXend => FlowControl::SpecialRegionTransition,
        iced_x86::FlowControl::Exception => FlowControl::Invalid,
    };
    Decoding { length: instr.len(), flow, malformed: instr.is_invalid(), ip_relative: instr.is_ip_rel_memory_operand() }
}

impl FlowControl {
    /// The instruction leaves control flow to its successor or to the caller, so
    /// that it behaves the same wherever it stands.
    pub open spec fn is_position_independent(self) -> bool {
        self is Sequential || self is Return
    }

    /// The instruction names a target that moving it would not preserve.
    pub open spec fn is_relative(self) -> bool {
        self is Call || self is ConditionalBranch || self is UnconditionalBranch
            || self is IndirectCall
    }
}

impl Decoding {
    /// The decoder's report is usable: a well-formed instruction of at least one
    /// byte that lies within the `room` bytes left in the buffer.
    pub open spec fn is_well_formed(self, room: nat) -> bool {
        !self.malformed && 1 <= self.length <= room
    }

    /// Whether the instruction may be relocated, and if not, why.
    pub open spec fn verdict(self, room: nat) -> Result<(), HypervisorError> {
        if !self.is_well_formed(room) {
            Err(HypervisorError::InvalidBytes)
        } else if self.ip_relative || self.flow.is_relative() {
            Err(HypervisorError::RelativeInstruction)
        } else if !self.flow.is_position_independent() {
            Err(HypervisorError::UnsupportedInstruction)
        } else {
            Ok(())
        }
    }

    /// Decides whether the instruction may be relocated. `room` is the number of
    /// bytes from the instruction's first byte to the end of the buffer.
    pub fn check_relocatable(&self, room: usize) -> (result: Result<(), HypervisorError>)
        ensures
            result == self.verdict(room as nat),
    {
        if self.malformed || self.length == 0 || self.length > room {
            return Err(HypervisorError::InvalidBytes);
        }
        if self.ip_relative {
            return Err(HypervisorError::RelativeInstruction);
        }
        match self.flow {
            FlowControl::Sequential | FlowControl::Return => Ok(()),
            FlowControl::Call
            | FlowControl::ConditionalBranch
            | FlowControl::UnconditionalBranch
            | FlowControl::IndirectCall => Err(HypervisorError::RelativeInstruction),
            FlowControl::IndirectBranch
            | FlowControl::Interrupt
            | FlowControl::SpecialRegionTransition
            | FlowControl::Invalid => Err(HypervisorError::UnsupportedInstruction),
        }
    }
}

/// The decoder's report on the instruction that starts `offset` bytes into
/// `bytes`, where `bytes` stands at `address`.
pub open spec fn decoding_at(bytes: Seq<u8>, address: u64, offset: nat) -> Decoding {
    decoded_instruction(bytes.subrange(offset as int, bytes.len() as int), (address + offset) as u64)
}

/// Sum of the lengths of `instructions`.
pub open spec fn total_length(instructions: Seq<Instruction>) -> nat
    decreases instructions.len(),
{
    if instructions.len() == 0 {
        0
    } else {
        total_length(instructions.drop_last()) + instructions.last().length as nat
    }
}

/// Relocation resumed `offset` bytes into `bytes`, with `done` already accepted:
/// instructions are accepted one after the other until `required` bytes are
/// covered; the first one that may not be relocated decides the error.
pub open spec fn relocation_from(
    bytes: Seq<u8>,
    address: u64,
    required: nat,
    offset: nat,
    done: Seq<Instruction>,
) -> Result<Seq<Instruction>, HypervisorError>
    decreases bytes.len() - offset,
{
    if offset >= required {
        Ok(done)
    } else if offset >= bytes.len() {
        Err(HypervisorError::NotEnoughBytes)
    } else {
        let decoding = decoding_at(bytes, address, offset);
        match decoding.verdict((bytes.len() - offset) as nat) {
            Err(e) => Err(e),
            Ok(()) => relocation_from(
                bytes,
                address,
                required,
                offset + decoding.length as nat,
                done.push(
                    Instruction {
                        address: (address + offset) as u64,
                        length: decoding.length,
                        flow: decoding.flow,
                    },
                ),
            ),
        }
    }
}

/// The instructions at the start of `bytes`, which stands at `address`, that are
/// relocated to make room for `required` bytes, or the reason why none are.
pub open spec fn relocation(bytes: Seq<u8>, address: u64, required: nat) -> Result<
    Seq<Instruction>,
    HypervisorError,
> {
    if required == 0 {
        Err(HypervisorError::NoInstructions)
    } else {
        relocation_from(bytes, address, required, 0, Seq::empty())
    }
}

/// Decodes `bytes`, the code found at `address`, one instruction after the other
/// and returns the shortest run of leading instructions that covers
/// `required_size` bytes. Fails on the first instruction that is malformed,
/// depends on its own address or diverts control, when the bytes run out, and
/// when nothing is asked for.
pub fn relocate(bytes: &[u8], address: u64, required_size: usize) -> (result: Result<
    Vec<Instruction>,
    HypervisorError,
>)
    requires
        address + bytes@.len() <= u64::MAX,
    ensures
        result matches Ok(instructions) ==> relocation(bytes@, address, required_size as nat)
            == Ok::<Seq<Instruction>, HypervisorError>(instructions@),
        result matches Err(e) ==> relocation(bytes@, address, required_size as nat) == Err::<
            Seq<Instruction>,
            HypervisorError,
        >(e),
{
    if required_size == 0 {
        return Err(HypervisorError::NoInstructions);
    }
    let mut instructions: Vec<Instruction> = Vec::new();
    let mut offset: usize = 0;
    while offset < required_size
        invariant
            offset <= bytes@.len(),
            address + bytes@.len() <= u64::MAX,
            relocation(bytes@, address, required_size as nat) == relocation_from(
                bytes@,
                address,
                required_size as nat,
                offset as nat,
                instructions@,
            ),
        decreases bytes@.len() - offset,
    {
        if offset >= bytes.len() {
            return Err(HypervisorError::NotEnoughBytes);
        }
        let room: usize = bytes.len() - offset;
        let ip: u64 = address + offset as u64;
        let decoding = decode_instruction(slice_subrange(bytes, offset, bytes.len()), ip);
        match decoding.check_relocatable(room) {
            Err(e) => {
                return Err(e);
            },
            Ok(()) => {},
        }
        instructions.push(Instruction { address: ip, length: decoding.length, flow: decoding.flow });
        offset = offset + decoding.length;
    }
    Ok(instructions)
}


/// Instruction `k` of `instructions` is what relocation accepts at its place:
/// it starts where the instructions before it end, inside `bytes`, the decoder's
/// report there passes, and the instruction records that report.
pub open spec fn accepted_at(
    bytes: Seq<u8>,
    address: u64,
    instructions: Seq<Instruction>,
    k: int,
) -> bool {
    let offset = total_length(instructions.take(k));
    let decoding = decoding_at(bytes, address, offset);
    &&& offset < bytes.len()
    &&& decoding.verdict((bytes.len() - offset) as nat) is Ok
    &&& instructions[k] == Instruction {
        address: (address + offset) as u64,
        length: decoding.length,
        flow: decoding.flow,
    }
}

/// Every instruction of `instructions` is accepted at its place.
pub open spec fn accepted(bytes: Seq<u8>, address: u64, instructions: Seq<Instruction>) -> bool {
    forall|k: int| 0 <= k < instructions.len() ==> #[trigger] accepted_at(bytes, address, instructions, k)
}

/// The first `n` instructions are as long as the first `n - 1` and the `n`-th.
pub proof fn lemma_total_length_take(instructions: Seq<Instruction>, n: int)
    requires
        1 <= n <= instructions.len(),
    ensures
        total_length(instructions.take(n)) == total_length(instructions.take(n - 1))
            + instructions[n - 1].length,
{
    assert(instructions.take(n).drop_last() =~= instructions.take(n - 1));
}

/// A prefix is no longer than the whole.
pub proof fn lemma_total_length_prefix(instructions: Seq<Instruction>, n: int)
    requires
        0 <= n <= instructions.len(),
    ensures
        total_length(instructions.take(n)) <= total_length(instructions),
    decreases instructions.len() - n,
{
    if n == instructions.len() {
        assert(instructions.take(n) =~= instructions);
    } else {
        lemma_total_length_take(instructions, n + 1);
        lemma_total_length_prefix(instructions, n + 1);
    }
}

proof fn lemma_relocation_from_shape(
    bytes: Seq<u8>,
    address: u64,
    required: nat,
    offset: nat,
    done: Seq<Instruction>,
)
    requires
        offset == total_length(done),
        offset <= bytes.len(),
        accepted(bytes, address, done),
        done.len() > 0 ==> total_length(done.drop_last()) < required,
    ensures
        relocation_from(bytes, address, required, offset, done) matches Ok(instructions) ==> {
            &&& accepted(bytes, address, instructions)
            &&& required <= total_length(instructions) <= bytes.len()
            &&& instructions.len() > 0 ==> total_length(instructions.drop_last()) < required
        },
    decreases bytes.len() - offset,
{
    if offset < required && offset < bytes.len() {
        let decoding = decoding_at(bytes, address, offset);
        if decoding.verdict((bytes.len() - offset) as nat) is Ok {
            let next = done.push(
                Instruction {
                    address: (address + offset) as u64,
                    length: decoding.length,
                    flow: decoding.flow,
                },
            );
            assert(next.drop_last() =~= done);
            assert forall|k: int| 0 <= k < next.len() implies #[trigger] accepted_at(
                bytes,
                address,
                next,
                k,
            ) by {
                if k < done.len() {
                    assert(next.take(k) =~= done.take(k));
                    assert(accepted_at(bytes, address, done, k));
                } else {
                    assert(next.take(k) =~= done);
                }
            }
            lemma_relocation_from_shape(
                bytes,
                address,
                required,
                offset + decoding.length as nat,
                next,
            );
        }
    }
}

/// What relocation returns is a run of accepted instructions that covers the
/// required bytes, lies within the code, and has no instruction to spare.
pub proof fn lemma_relocation_shape(bytes: Seq<u8>, address: u64, required: nat)
    ensures
        relocation(bytes, address, required) matches Ok(instructions) ==> {
            &&& accepted(bytes, address, instructions)
            &&& instructions.len() >= 1
            &&& 1 <= required <= total_length(instructions) <= bytes.len()
            &&& total_length(instructions.drop_last()) < required
        },
{
    if required > 0 {
        lemma_relocation_from_shape(bytes, address, required, 0, Seq::empty());
    }
}


/// Offset at which instruction `k` of `stream` starts when the instructions
/// follow one another without a gap.
pub open spec fn stream_offset(stream: Seq<Decoding>, k: int) -> nat
    decreases k,
{
    if k <= 0 {
        0
    } else {
        stream_offset(stream, k - 1) + stream[k - 1].length as nat
    }
}

/// Instruction `k` of `stream` starts inside `bytes` and is what the decoder
/// reports there.
pub open spec fn decoded_in_place(
    bytes: Seq<u8>,
    address: u64,
    stream: Seq<Decoding>,
    k: int,
) -> bool {
    &&& stream_offset(stream, k) < bytes.len()
    &&& decoding_at(bytes, address, stream_offset(stream, k)) == stream[k]
}

/// `bytes`, standing at `address`, begins with the instructions of `stream`.
pub open spec fn decodes_to(bytes: Seq<u8>, address: u64, stream: Seq<Decoding>) -> bool {
    forall|k: int| 0 <= k < stream.len() ==> #[trigger] decoded_in_place(bytes, address, stream, k)
}

/// Instruction `k` of `stream` is a whole instruction within `length` bytes of code.
pub open spec fn whole_in_place(length: nat, stream: Seq<Decoding>, k: int) -> bool {
    &&& !stream[k].malformed
    &&& 1 <= stream[k].length
    &&& stream_offset(stream, k) + stream[k].length <= length
}

/// Instruction `k` of `stream` is whole, has no IP-relative operand and is
/// sequential or a return.
pub open spec fn relocatable_in_place(length: nat, stream: Seq<Decoding>, k: int) -> bool {
    &&& whole_in_place(length, stream, k)
    &&& !stream[k].ip_relative
    &&& stream[k].flow.is_position_independent()
}

/// The instructions of `stream` as relocation records them.
pub open spec fn relocated_stream(stream: Seq<Decoding>, address: u64) -> Seq<Instruction> {
    Seq::new(
        stream.len(),
        |k: int|
            Instruction {
                address: (address + stream_offset(stream, k)) as u64,
                length: stream[k].length,
                flow: stream[k].flow,
            },
    )
}

proof fn lemma_stream_offset_monotonic(stream: Seq<Decoding>, j: int, k: int)
    requires
        0 <= j <= k,
    ensures
        stream_offset(stream, j) <= stream_offset(stream, k),
    decreases k - j,
{
    if j < k {
        lemma_stream_offset_monotonic(stream, j, k - 1);
    }
}

proof fn lemma_walk_to(
    bytes: Seq<u8>,
    address: u64,
    required: nat,
    stream: Seq<Decoding>,
    k: int,
)
    requires
        0 <= k <= stream.len(),
        decodes_to(bytes, address, stream),
        forall|j: int| 0 <= j < k ==> #[trigger] relocatable_in_place(bytes.len(), stream, j),
        k > 0 ==> stream_offset(stream, k - 1) < required,
    ensures
        relocation_from(bytes, address, required, 0, Seq::empty()) == relocation_from(
            bytes,
            address,
            required,
            stream_offset(stream, k),
            relocated_stream(stream, address).take(k),
        ),
    decreases k,
{
    let relocated = relocated_stream(stream, address);
    if k == 0 {
        assert(relocated.take(0) =~= Seq::<Instruction>::empty());
    } else {
        if k > 1 {
            lemma_stream_offset_monotonic(stream, k - 2, k - 1);
        }
        lemma_walk_to(bytes, address, required, stream, k - 1);
        assert(decoded_in_place(bytes, address, stream, k - 1));
        assert(relocatable_in_place(bytes.len(), stream, k - 1));
        assert(relocated.take(k) =~= relocated.take(k - 1).push(relocated[k - 1]));
    }
}

proof fn lemma_first_covering(stream: Seq<Decoding>, required: nat, k: int) -> (count: int)
    requires
        0 <= k <= stream.len(),
        stream_offset(stream, stream.len() as int) >= required,
        k > 0 ==> stream_offset(stream, k - 1) < required,
    ensures
        k <= count <= stream.len(),
        stream_offset(stream, count) >= required,
        count > 0 ==> stream_offset(stream, count - 1) < required,
    decreases stream.len() - k,
{
    if stream_offset(stream, k) >= required {
        k
    } else {
        lemma_first_covering(stream, required, k + 1)
    }
}

/// Code that begins with sequential and return instructions only, none of them
/// with an IP-relative operand, which together cover the required bytes, is
/// relocated: the result is the shortest run of those instructions that covers
/// the required bytes. `count` is the number of instructions in it.
pub proof fn lemma_position_independent_code_relocates(
    bytes: Seq<u8>,
    address: u64,
    required: nat,
    stream: Seq<Decoding>,
) -> (count: int)
    requires
        required >= 1,
        decodes_to(bytes, address, stream),
        forall|k: int|
            0 <= k < stream.len() ==> #[trigger] relocatable_in_place(bytes.len(), stream, k),
        stream_offset(stream, stream.len() as int) >= required,
    ensures
        1 <= count <= stream.len(),
        relocation(bytes, address, required) == Ok::<Seq<Instruction>, HypervisorError>(
            relocated_stream(stream, address).take(count),
        ),
        stream_offset(stream, count - 1) < required <= stream_offset(stream, count),
{
    let count = lemma_first_covering(stream, required, 0);
    lemma_walk_to(bytes, address, required, stream, count);
    count
}

/// The first instruction that may not be relocated decides the outcome, when
/// it starts before the required bytes are covered: relocation fails with the
/// error of that instruction.
pub proof fn lemma_first_rejected_decides(
    bytes: Seq<u8>,
    address: u64,
    required: nat,
    stream: Seq<Decoding>,
    k: int,
)
    requires
        0 <= k < stream.len(),
        decodes_to(bytes, address, stream),
        forall|j: int| 0 <= j < k ==> #[trigger] relocatable_in_place(bytes.len(), stream, j),
        stream_offset(stream, k) < required,
        stream[k].verdict((bytes.len() - stream_offset(stream, k)) as nat) is Err,
    ensures
        relocation(bytes, address, required) == Err::<Seq<Instruction>, HypervisorError>(
            stream[k].verdict((bytes.len() - stream_offset(stream, k)) as nat)->Err_0,
        ),
{
    if k > 0 {
        lemma_stream_offset_monotonic(stream, k - 1, k);
    }
    lemma_walk_to(bytes, address, required, stream, k);
    assert(decoded_in_place(bytes, address, stream, k));
}

/// A call, a conditional or unconditional branch or an indirect call among the
/// instructions that would have to be relocated makes relocation fail with
/// `RelativeInstruction`, when the instructions before it may be relocated.
pub proof fn lemma_relative_branch_rejected(
    bytes: Seq<u8>,
    address: u64,
    required: nat,
    stream: Seq<Decoding>,
    k: int,
)
    requires
        0 <= k < stream.len(),
        decodes_to(bytes, address, stream),
        forall|j: int| 0 <= j < k ==> #[trigger] relocatable_in_place(bytes.len(), stream, j),
        stream_offset(stream, k) < required,
        whole_in_place(bytes.len(), stream, k),
        stream[k].flow.is_relative(),
    ensures
        relocation(bytes, address, required) == Err::<Seq<Instruction>, HypervisorError>(
            HypervisorError::RelativeInstruction,
        ),
{
    lemma_first_rejected_decides(bytes, address, required, stream, k);
}

/// An instruction with an IP-relative memory operand among the instructions
/// that would have to be relocated makes relocation fail with
/// `RelativeInstruction`, whatever its flow control, when the instructions
/// before it may be relocated.
pub proof fn lemma_ip_relative_operand_rejected(
    bytes: Seq<u8>,
    address: u64,
    required: nat,
    stream: Seq<Decoding>,
    k: int,
)
    requires
        0 <= k < stream.len(),
        decodes_to(bytes, address, stream),
        forall|j: int| 0 <= j < k ==> #[trigger] relocatable_in_place(bytes.len(), stream, j),
        stream_offset(stream, k) < required,
        whole_in_place(bytes.len(), stream, k),
        stream[k].ip_relative,
    ensures
        relocation(bytes, address, required) == Err::<Seq<Instruction>, HypervisorError>(
            HypervisorError::RelativeInstruction,
        ),
{
    lemma_first_rejected_decides(bytes, address, required, stream, k);
}


/// The first `k` instructions of a stream, as relocation records them, are as
/// long as the offset at which instruction `k` starts.
pub proof fn lemma_relocated_stream_length(stream: Seq<Decoding>, address: u64, k: int)
    requires
        0 <= k <= stream.len(),
    ensures
        total_length(relocated_stream(stream, address).take(k)) == stream_offset(stream, k),
    decreases k,
{
    if k > 0 {
        lemma_relocated_stream_length(stream, address, k - 1);
        lemma_total_length_take(relocated_stream(stream, address), k);
    }
}

} // verus!
