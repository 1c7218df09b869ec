use hypervisor::vmstack::{
    VmStack, KERNEL_STACK_SIZE, PADDING_SENTINEL, PAGE_SIZE, STACK_CONTENTS_SIZE,
};

#[test]
fn region_is_a_whole_number_of_pages() {
    assert_eq!(KERNEL_STACK_SIZE, 0x6000);
    assert_eq!(PAGE_SIZE, 4096);
    assert_eq!(KERNEL_STACK_SIZE % PAGE_SIZE, 0);
    assert_eq!(STACK_CONTENTS_SIZE, 0x6000 - 32);
    assert_eq!(STACK_CONTENTS_SIZE + 4 * 8, KERNEL_STACK_SIZE);
    assert_eq!(KERNEL_STACK_SIZE % 16, 0);
}

#[test]
fn setup_zeroes_contents_and_fills_padding() {
    let mut stack = Box::new(VmStack {
        stack_contents: [0xAA; STACK_CONTENTS_SIZE],
        vmx: 0xFFFF_8000_DEAD_BEEF,
        padding_3: 1,
        padding_2: 2,
        padding_1: 3,
    });
    assert_eq!(VmStack::setup(&mut stack), Ok(()));
    assert!(stack.stack_contents.iter().all(|byte| *byte == 0));
    assert_eq!(stack.padding_3, u64::MAX);
    assert_eq!(stack.padding_2, u64::MAX);
    assert_eq!(stack.padding_1, u64::MAX);
    assert_eq!(PADDING_SENTINEL, u64::MAX);
    assert_eq!(stack.vmx, 0xFFFF_8000_DEAD_BEEF);
}

#[test]
fn setup_can_be_repeated() {
    let mut stack = Box::new(VmStack {
        stack_contents: [0; STACK_CONTENTS_SIZE],
        vmx: 42,
        padding_3: 0,
        padding_2: 0,
        padding_1: 0,
    });
    assert_eq!(VmStack::setup(&mut stack), Ok(()));
    stack.stack_contents[100] = 7;
    stack.padding_2 = 5;
    assert_eq!(VmStack::setup(&mut stack), Ok(()));
    assert_eq!(stack.stack_contents[100], 0);
    assert_eq!(stack.padding_2, u64::MAX);
    assert_eq!(stack.vmx, 42);
}
