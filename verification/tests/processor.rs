use hypervisor::processor::{
    nt_success, processor_number_from_index, step, GroupAffinity, PinAction, PinEvent, PinState,
    ProcessorExecutor, ProcessorNumber,
};

fn affinity(mask: u64, group: u16) -> GroupAffinity {
    GroupAffinity { mask, group, reserved_0: 0, reserved_1: 0, reserved_2: 0 }
}

#[test]
fn status_is_success_when_not_negative() {
    assert!(nt_success(0));
    assert!(nt_success(0x4000_0000));
    assert!(nt_success(i32::MAX));
    assert!(!nt_success(-1));
    assert!(!nt_success(0xC000_0001u32 as i32));
    assert!(!nt_success(i32::MIN));
}

#[test]
fn lookup_gives_the_processor_on_success_only() {
    let number = ProcessorNumber { group: 1, number: 5, reserved: 0 };
    assert_eq!(processor_number_from_index(0, number), Some(number));
    assert_eq!(processor_number_from_index(0xC000_000Du32 as i32, number), None);
}

#[test]
fn affinity_is_the_bit_of_the_processor() {
    assert_eq!(
        GroupAffinity::for_processor(ProcessorNumber { group: 0, number: 0, reserved: 0 }),
        Some(affinity(1, 0))
    );
    assert_eq!(
        GroupAffinity::for_processor(ProcessorNumber { group: 2, number: 5, reserved: 9 }),
        Some(affinity(32, 2))
    );
    assert_eq!(
        GroupAffinity::for_processor(ProcessorNumber { group: 0, number: 63, reserved: 0 }),
        Some(affinity(1 << 63, 0))
    );
    assert_eq!(GroupAffinity::for_processor(ProcessorNumber { group: 0, number: 64, reserved: 0 }), None);
    assert_eq!(GroupAffinity::for_processor(ProcessorNumber { group: 0, number: 255, reserved: 0 }), None);
}

#[test]
fn index_beyond_the_processors_fails_at_once() {
    assert_eq!(ProcessorExecutor::switch_to_processor(4, 4), (PinState::Unpinned, PinAction::Fail));
    assert_eq!(ProcessorExecutor::switch_to_processor(5, 4), (PinState::Unpinned, PinAction::Fail));
    assert_eq!(ProcessorExecutor::switch_to_processor(0, 0), (PinState::Unpinned, PinAction::Fail));
    assert_eq!(
        step(PinState::Unpinned, PinEvent::Requested { index: u32::MAX, processor_count: 8 }),
        (PinState::Unpinned, PinAction::Fail)
    );
}

#[test]
fn pin_and_release_restore_the_affinity() {
    let original = affinity(0xFF, 0);
    let (state, action) = ProcessorExecutor::switch_to_processor(3, 4);
    assert_eq!(action, PinAction::ResolveIndex { index: 3 });
    let (state, action) = step(
        state,
        PinEvent::Resolved { status: 0, processor_number: ProcessorNumber { group: 0, number: 3, reserved: 0 } },
    );
    assert_eq!(action, PinAction::SetAffinity { affinity: affinity(8, 0) });
    let (state, action) = step(state, PinEvent::Applied { old_affinity: original });
    assert_eq!(action, PinAction::YieldExecution);
    let (state, action) = step(state, PinEvent::Yielded { status: 0 });
    assert_eq!(action, PinAction::Proceed);
    assert_eq!(state, PinState::Pinned { guard: ProcessorExecutor { old_affinity: original } });
    let (state, action) = step(state, PinEvent::Released);
    assert_eq!(action, PinAction::RevertAffinity { affinity: original });
    assert_eq!(state, PinState::Unpinned);
}

#[test]
fn failed_lookup_fails_the_pin() {
    let (state, _) = ProcessorExecutor::switch_to_processor(1, 4);
    let (state, action) = step(
        state,
        PinEvent::Resolved {
            status: -1,
            processor_number: ProcessorNumber { group: 0, number: 1, reserved: 0 },
        },
    );
    assert_eq!((state, action), (PinState::Unpinned, PinAction::Fail));
}

#[test]
fn processor_without_a_mask_bit_fails_the_pin() {
    let (state, _) = ProcessorExecutor::switch_to_processor(1, 4);
    let (state, action) = step(
        state,
        PinEvent::Resolved {
            status: 0,
            processor_number: ProcessorNumber { group: 0, number: 64, reserved: 0 },
        },
    );
    assert_eq!((state, action), (PinState::Unpinned, PinAction::Fail));
}

#[test]
fn failed_yield_fails_the_pin() {
    let state = PinState::Yielding { old_affinity: affinity(3, 0) };
    assert_eq!(step(state, PinEvent::Yielded { status: -5 }), (PinState::Unpinned, PinAction::Fail));
}

#[test]
fn event_out_of_turn_is_ignored() {
    assert_eq!(step(PinState::Unpinned, PinEvent::Released), (PinState::Unpinned, PinAction::Ignore));
    assert_eq!(
        step(PinState::Resolving { index: 2 }, PinEvent::Yielded { status: 0 }),
        (PinState::Resolving { index: 2 }, PinAction::Ignore)
    );
    let pinned = PinState::Pinned { guard: ProcessorExecutor { old_affinity: affinity(1, 0) } };
    assert_eq!(
        step(pinned, PinEvent::Requested { index: 0, processor_count: 4 }),
        (
            PinState::Pinned { guard: ProcessorExecutor { old_affinity: affinity(1, 0) } },
            PinAction::Ignore
        )
    );
}

#[test]
fn guard_release_gives_the_old_affinity() {
    let guard = ProcessorExecutor { old_affinity: affinity(0xF0, 3) };
    assert_eq!(guard.release(), affinity(0xF0, 3));
}
