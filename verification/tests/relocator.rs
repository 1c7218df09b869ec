use hypervisor::error::HypervisorError;
use hypervisor::relocator::{relocate, Decoding, FlowControl, Instruction};

const MOV_RAX_IMM: [u8; 7] = [0x48, 0xC7, 0xC0, 0x78, 0x56, 0x34, 0x12];
const MOV_EAX_IMM: [u8; 5] = [0xB8, 0x78, 0x56, 0x34, 0x12];

fn padded(code: &[u8], len: usize) -> Vec<u8> {
    let mut bytes = code.to_vec();
    while bytes.len() < len {
        bytes.push(0x90);
    }
    bytes
}

fn decoding(length: usize, flow: FlowControl) -> Decoding {
    Decoding { length, flow, malformed: false, ip_relative: false }
}

#[test]
fn relocates_single_instruction_that_covers_one_byte() {
    let bytes = padded(&MOV_EAX_IMM, 15);
    let instructions = relocate(&bytes, 0x1000, 1).unwrap();
    assert_eq!(
        instructions,
        vec![Instruction { address: 0x1000, length: 5, flow: FlowControl::Sequential }]
    );
}

#[test]
fn relocates_two_instructions_for_fourteen_bytes() {
    let mut code = MOV_RAX_IMM.to_vec();
    code.extend_from_slice(&MOV_RAX_IMM);
    let bytes = padded(&code, 28);
    let instructions = relocate(&bytes, 0x7000_0000, 14).unwrap();
    assert_eq!(
        instructions,
        vec![
            Instruction { address: 0x7000_0000, length: 7, flow: FlowControl::Sequential },
            Instruction { address: 0x7000_0007, length: 7, flow: FlowControl::Sequential },
        ]
    );
}

#[test]
fn takes_the_instruction_that_crosses_the_required_size() {
    // Three one-byte nops, then a five-byte mov: four bytes are asked for and
    // the mov starts at byte three.
    let mut code = vec![0x90, 0x90, 0x90];
    code.extend_from_slice(&MOV_EAX_IMM);
    let bytes = padded(&code, 15);
    let instructions = relocate(&bytes, 0x2000, 4).unwrap();
    assert_eq!(instructions.len(), 4);
    assert_eq!(instructions[3], Instruction { address: 0x2003, length: 5, flow: FlowControl::Sequential });
    let total: usize = instructions.iter().map(|i| i.length).sum();
    assert_eq!(total, 8);
}

#[test]
fn stops_as_soon_as_the_required_bytes_are_covered() {
    // What follows the relocated instruction is not looked at.
    let bytes = padded(&[0x90, 0x06, 0x06], 15);
    let instructions = relocate(&bytes, 0x2000, 1).unwrap();
    assert_eq!(instructions, vec![Instruction { address: 0x2000, length: 1, flow: FlowControl::Sequential }]);
}

#[test]
fn return_is_relocatable() {
    let bytes = padded(&[0xC3], 15);
    let instructions = relocate(&bytes, 0x3000, 1).unwrap();
    assert_eq!(instructions, vec![Instruction { address: 0x3000, length: 1, flow: FlowControl::Return }]);
}

#[test]
fn call_is_rejected_as_relative() {
    let bytes = padded(&[0xE8, 0x00, 0x00, 0x00, 0x00], 15);
    assert_eq!(relocate(&bytes, 0x1000, 1), Err(HypervisorError::RelativeInstruction));
}

#[test]
fn conditional_branch_is_rejected_as_relative() {
    let bytes = padded(&[0x74, 0x05], 15);
    assert_eq!(relocate(&bytes, 0x1000, 1), Err(HypervisorError::RelativeInstruction));
}

#[test]
fn unconditional_branch_is_rejected_as_relative() {
    let bytes = padded(&[0xEB, 0x05], 15);
    assert_eq!(relocate(&bytes, 0x1000, 1), Err(HypervisorError::RelativeInstruction));
}

#[test]
fn indirect_call_is_rejected_as_relative() {
    let bytes = padded(&[0xFF, 0xD0], 15);
    assert_eq!(relocate(&bytes, 0x1000, 1), Err(HypervisorError::RelativeInstruction));
}

#[test]
fn branch_behind_relocatable_instructions_is_rejected() {
    // nop; nop; call: the call starts within the first five bytes.
    let bytes = padded(&[0x90, 0x90, 0xE8, 0x00, 0x00, 0x00, 0x00], 15);
    assert_eq!(relocate(&bytes, 0x1000, 5), Err(HypervisorError::RelativeInstruction));
    // With two bytes asked for the call is never reached.
    assert_eq!(relocate(&bytes, 0x1000, 2).unwrap().len(), 2);
}

#[test]
fn ip_relative_operand_is_rejected_whatever_the_flow() {
    // mov rax, [rip+0] is sequential, and still rejected.
    let bytes = padded(&[0x48, 0x8B, 0x05, 0x00, 0x00, 0x00, 0x00], 15);
    assert_eq!(relocate(&bytes, 0x1000, 1), Err(HypervisorError::RelativeInstruction));
}

#[test]
fn indirect_branch_is_unsupported() {
    let bytes = padded(&[0xFF, 0xE0], 15);
    assert_eq!(relocate(&bytes, 0x1000, 1), Err(HypervisorError::UnsupportedInstruction));
}

#[test]
fn interrupt_is_unsupported() {
    let bytes = padded(&[0xCC], 15);
    assert_eq!(relocate(&bytes, 0x1000, 1), Err(HypervisorError::UnsupportedInstruction));
}

#[test]
fn transaction_begin_is_unsupported() {
    let bytes = padded(&[0xC7, 0xF8, 0x00, 0x00, 0x00, 0x00], 15);
    assert_eq!(relocate(&bytes, 0x1000, 1), Err(HypervisorError::UnsupportedInstruction));
}

#[test]
fn undefined_opcode_is_unsupported() {
    let bytes = padded(&[0x0F, 0x0B], 15);
    assert_eq!(relocate(&bytes, 0x1000, 1), Err(HypervisorError::UnsupportedInstruction));
}

#[test]
fn malformed_bytes_are_invalid() {
    // 0x06 is no instruction in 64-bit mode.
    let bytes = padded(&[0x06], 15);
    assert_eq!(relocate(&bytes, 0x1000, 1), Err(HypervisorError::InvalidBytes));
}

#[test]
fn truncated_instruction_is_invalid() {
    let bytes = [0xB8, 0x78];
    assert_eq!(relocate(&bytes, 0x1000, 1), Err(HypervisorError::InvalidBytes));
}

#[test]
fn running_out_of_code_is_not_enough_bytes() {
    let bytes = [0x90, 0x90];
    assert_eq!(relocate(&bytes, 0x1000, 5), Err(HypervisorError::NotEnoughBytes));
    assert_eq!(relocate(&[], 0x1000, 1), Err(HypervisorError::NotEnoughBytes));
}

#[test]
fn nothing_asked_for_is_no_instructions() {
    let bytes = padded(&MOV_EAX_IMM, 15);
    assert_eq!(relocate(&bytes, 0x1000, 0), Err(HypervisorError::NoInstructions));
    assert_eq!(relocate(&[], 0x1000, 0), Err(HypervisorError::NoInstructions));
}

#[test]
fn verdict_follows_the_flow_control() {
    assert_eq!(decoding(3, FlowControl::Sequential).check_relocatable(15), Ok(()));
    assert_eq!(decoding(1, FlowControl::Return).check_relocatable(1), Ok(()));
    for flow in [
        FlowControl::Call,
        FlowControl::ConditionalBranch,
        FlowControl::UnconditionalBranch,
        FlowControl::IndirectCall,
    ] {
        assert_eq!(
            decoding(3, flow).check_relocatable(15),
            Err(HypervisorError::RelativeInstruction)
        );
    }
    for flow in [
        FlowControl::IndirectBranch,
        FlowControl::Interrupt,
        FlowControl::SpecialRegionTransition,
        FlowControl::Invalid,
    ] {
        assert_eq!(
            decoding(3, flow).check_relocatable(15),
            Err(HypervisorError::UnsupportedInstruction)
        );
    }
}

#[test]
fn verdict_checks_form_before_operand_before_flow() {
    let malformed = Decoding { length: 3, flow: FlowControl::Call, malformed: true, ip_relative: true };
    assert_eq!(malformed.check_relocatable(15), Err(HypervisorError::InvalidBytes));
    let relative = Decoding { length: 3, flow: FlowControl::Interrupt, malformed: false, ip_relative: true };
    assert_eq!(relative.check_relocatable(15), Err(HypervisorError::RelativeInstruction));
}

#[test]
fn verdict_rejects_a_length_that_does_not_fit() {
    assert_eq!(decoding(0, FlowControl::Sequential).check_relocatable(15), Err(HypervisorError::InvalidBytes));
    assert_eq!(decoding(5, FlowControl::Sequential).check_relocatable(4), Err(HypervisorError::InvalidBytes));
    assert_eq!(decoding(5, FlowControl::Sequential).check_relocatable(5), Ok(()));
}
