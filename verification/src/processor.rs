//! Pinning the calling thread to one logical processor for the time of a
//! per-processor set-up, and giving it back its affinity afterwards.
//!
//! The platform does the work; this module decides. `transition` is fed what
//! the platform reported and answers with what to ask of it next.

use vstd::prelude::*;
use vstd::arithmetic::power2::pow2;

verus! {

/// Number of processors a group can hold, which is the width of an affinity mask.
pub const GROUP_CAPACITY: u8 = 64;

/// A logical processor, named by its group and its number within the group.
#[derive(Clone, Copy, Debug, PartialEq, Eq, Structural)]
pub struct ProcessorNumber {
    /// The processor's group.
    pub group: u16,
    /// The processor's number within its group.
    pub number: u8,
    /// Not used.
    pub reserved: u8,
}

/// The processors of one group that a thread may run on.
#[derive(Clone, Copy, Debug, PartialEq, Eq, Structural)]
pub struct GroupAffinity {
    /// One bit for each processor of the group that the thread may run on.
    pub mask: u64,
    /// The group.
    pub group: u16,
    /// Not used.
    pub reserved_0: u16,
    /// Not used.
    pub reserved_1: u16,
    /// Not used.
    pub reserved_2: u16,
}

/// Holds the affinity that the thread had before it was pinned. While it
/// exists the thread is pinned; `release` ends that.
#[derive(Debug, PartialEq, Eq)]
pub struct ProcessorExecutor {
    /// The affinity that the thread had before it was pinned.
    pub old_affinity: GroupAffinity,
}

/// How far a pin has come.
#[derive(Debug, PartialEq, Eq)]
pub enum PinState {
    /// The thread runs where the scheduler puts it.
    Unpinned,
    /// The platform was asked which processor the index names.
    Resolving {
        /// The index asked for.
        index: u32,
    },
    /// The platform was asked to move the thread.
    Applying {
        /// The affinity asked for.
        affinity: GroupAffinity,
    },
    /// The thread's affinity is changed and the platform was asked to yield.
    Yielding {
        /// The affinity the thread had before.
        old_affinity: GroupAffinity,
    },
    /// The thread runs on the processor asked for.
    Pinned {
        /// The guard of the pin.
        guard: ProcessorExecutor,
    },
}

/// What the caller or the platform reports.
#[derive(Clone, Copy, Debug, PartialEq, Eq, Structural)]
pub enum PinEvent {
    /// The caller asks for the processor with this index.
    Requested {
        /// Index of the processor asked for.
        index: u32,
        /// Number of logical processors that are active.
        processor_count: u32,
    },
    /// The platform has looked the index up.
    Resolved {
        /// Status of the lookup.
        status: i32,
        /// The processor found, where the status is a success.
        processor_number: ProcessorNumber,
    },
    /// The platform has changed the thread's affinity.
    Applied {
        /// The affinity the thread had before.
        old_affinity: GroupAffinity,
    },
    /// The platform has yielded the processor and come back.
    Yielded {
        /// Status of the yield.
        status: i32,
    },
    /// The caller is done with the processor.
    Released,
}

/// What to do next.
#[derive(Clone, Copy, Debug, PartialEq, Eq, Structural)]
pub enum PinAction {
    /// Nothing: the event does not belong to the state.
    Ignore,
    /// Report to the caller that the thread could not be pinned.
    Fail,
    /// Ask the platform which processor the index names.
    ResolveIndex {
        /// The index to look up.
        index: u32,
    },
    /// Ask the platform to give the thread this affinity and to report the one it had.
    SetAffinity {
        /// The affinity to apply.
        affinity: GroupAffinity,
    },
    /// Ask the platform to yield the processor once, so that the thread is moved.
    YieldExecution,
    /// Report to the caller that the thread is pinned.
    Proceed,
    /// Ask the platform to give the thread back this affinity.
    RevertAffinity {
        /// The affinity to restore.
        affinity: GroupAffinity,
    },
}

/// A status is a success when it is not negative: success and informational
/// values pass, warnings and errors do not.
pub open spec fn is_success(status: i32) -> bool {
    status >= 0
}

/// Tells whether a status reports success.
pub fn nt_success(status: i32) -> (success: bool)
    ensures
        success == is_success(status),
{
    status >= 0
}

/// The processor that a lookup found, if it found one.
pub open spec fn resolved_processor(status: i32, processor_number: ProcessorNumber) -> Option<
    ProcessorNumber,
> {
    if is_success(status) {
        Some(processor_number)
    } else {
        None
    }
}

/// Makes of a lookup's status and output the processor it found, if any.
pub fn processor_number_from_index(status: i32, processor_number: ProcessorNumber) -> (found:
    Option<ProcessorNumber>)
    ensures
        found == resolved_processor(status, processor_number),
{
    if nt_success(status) {
        Some(processor_number)
    } else {
        None
    }
}

impl GroupAffinity {
    /// The affinity that admits the one processor `processor`, where its number
    /// fits the mask.
    pub open spec fn only(processor: ProcessorNumber) -> Option<GroupAffinity> {
        if processor.number < GROUP_CAPACITY {
            Some(
                GroupAffinity {
                    mask: pow2(processor.number as nat) as u64,
                    group: processor.group,
                    reserved_0: 0,
                    reserved_1: 0,
                    reserved_2: 0,
                },
            )
        } else {
            None
        }
    }

    /// Builds the affinity that admits `processor` and no other: the bit of its
    /// number in the mask of its group. There is none for a number that the
    /// mask has no bit for.
    pub fn for_processor(processor: ProcessorNumber) -> (affinity: Option<GroupAffinity>)
        ensures
            affinity == Self::only(processor),
    {
        if processor.number >= GROUP_CAPACITY {
            return None;
        }
        let shift: u64 = processor.number as u64;
        proof {
            vstd::arithmetic::power2::lemma_pow2_strictly_increases(shift as nat, 64);
            vstd::arithmetic::power2::lemma2_to64();
            vstd::bits::lemma_u64_shl_is_mul(1u64, shift);
        }
        let mask: u64 = 1u64 << shift;
        Some(
            GroupAffinity {
                mask,
                group: processor.group,
                reserved_0: 0,
                reserved_1: 0,
                reserved_2: 0,
            },
        )
    }
}

impl ProcessorExecutor {
    /// Where a request for the processor `i` leads when `processor_count`
    /// processors are active.
    pub open spec fn requested(i: u32, processor_count: u32) -> (PinState, PinAction) {
        if i >= processor_count {
            (PinState::Unpinned, PinAction::Fail)
        } else {
            (PinState::Resolving { index: i }, PinAction::ResolveIndex { index: i })
        }
    }

    /// Starts to pin the thread to the processor with index `i`, one of
    /// `processor_count`. An index that names no active processor fails at once,
    /// with nothing asked of the platform.
    pub fn switch_to_processor(i: u32, processor_count: u32) -> (next: (PinState, PinAction))
        ensures
            next == Self::requested(i, processor_count),
    {
        if i >= processor_count {
            (PinState::Unpinned, PinAction::Fail)
        } else {
            (PinState::Resolving { index: i }, PinAction::ResolveIndex { index: i })
        }
    }

    /// Ends the pin: returns the affinity that the thread is to get back.
    pub fn release(self) -> (affinity: GroupAffinity)
        ensures
            affinity == self.old_affinity,
    {
        self.old_affinity
    }
}

/// The state that follows `state` on `event`, and what to do on the way.
pub open spec fn transition(state: PinState, event: PinEvent) -> (PinState, PinAction) {
    match (state, event) {
        (PinState::Unpinned, PinEvent::Requested { index, processor_count }) => {
            ProcessorExecutor::requested(index, processor_count)
        },
        (PinState::Resolving { index }, PinEvent::Resolved { status, processor_number }) => {
            match resolved_processor(status, processor_number) {
                Some(processor) => match GroupAffinity::only(processor) {
                    Some(affinity) => (
                        PinState::Applying { affinity },
                        PinAction::SetAffinity { affinity },
                    ),
                    None => (PinState::Unpinned, PinAction::Fail),
                },
                None => (PinState::Unpinned, PinAction::Fail),
            }
        },
        (PinState::Applying { affinity }, PinEvent::Applied { old_affinity }) => {
            (PinState::Yielding { old_affinity }, PinAction::YieldExecution)
        },
        (PinState::Yielding { old_affinity }, PinEvent::Yielded { status }) => {
            if is_success(status) {
                (PinState::Pinned { guard: ProcessorExecutor { old_affinity } }, PinAction::Proceed)
            } else {
                (PinState::Unpinned, PinAction::Fail)
            }
        },
        (PinState::Pinned { guard }, PinEvent::Released) => {
            (PinState::Unpinned, PinAction::RevertAffinity { affinity: guard.old_affinity })
        },
        (state, _) => (state, PinAction::Ignore),
    }
}

/// Takes one step of a pin: from the state reached and what was just reported
/// to the next state and the next thing to do.
pub fn step(state: PinState, event: PinEvent) -> (next: (PinState, PinAction))
    ensures
        next == transition(state, event),
{
    match (state, event) {
        (PinState::Unpinned, PinEvent::Requested { index, processor_count }) => {
            ProcessorExecutor::switch_to_processor(index, processor_count)
        },
        (PinState::Resolving { index }, PinEvent::Resolved { status, processor_number }) => {
            match processor_number_from_index(status, processor_number) {
                Some(processor) => match GroupAffinity::for_processor(processor) {
                    Some(affinity) => (
                        PinState::Applying { affinity },
                        PinAction::SetAffinity { affinity },
                    ),
                    None => (PinState::Unpinned, PinAction::Fail),
                },
                None => (PinState::Unpinned, PinAction::Fail),
            }
        },
        (PinState::Applying { affinity }, PinEvent::Applied { old_affinity }) => {
            (PinState::Yielding { old_affinity }, PinAction::YieldExecution)
        },
        (PinState::Yielding { old_affinity }, PinEvent::Yielded { status }) => {
            if nt_success(status) {
                (PinState::Pinned { guard: ProcessorExecutor { old_affinity } }, PinAction::Proceed)
            } else {
                (PinState::Unpinned, PinAction::Fail)
            }
        },
        (PinState::Pinned { guard }, PinEvent::Released) => {
            let affinity = guard.release();
            (PinState::Unpinned, PinAction::RevertAffinity { affinity })
        },
        (state, _) => (state, PinAction::Ignore),
    }
}

/// The affinity of the thread after the platform has carried out `action`,
/// when it was `current` before.
pub open spec fn affinity_after(current: GroupAffinity, action: PinAction) -> GroupAffinity {
    match action {
        PinAction::SetAffinity { affinity } => affinity,
        PinAction::RevertAffinity { affinity } => affinity,
        _ => current,
    }
}

/// A request for an index that names no active processor fails and leaves the
/// thread's affinity as it is.
pub proof fn lemma_invalid_index_fails(index: u32, processor_count: u32, current: GroupAffinity)
    requires
        index >= processor_count,
    ensures
        transition(PinState::Unpinned, PinEvent::Requested { index, processor_count }) == (
            PinState::Unpinned,
            PinAction::Fail,
        ),
        affinity_after(
            current,
            transition(PinState::Unpinned, PinEvent::Requested { index, processor_count }).1,
        ) == current,
{
}

/// Only two steps change the thread's affinity: the one that pins, taken on a
/// successful lookup, and the one that releases a pin.
pub proof fn lemma_affinity_changes_only_on_pin_and_release(
    state: PinState,
    event: PinEvent,
    current: GroupAffinity,
)
    ensures
        affinity_after(current, transition(state, event).1) != current ==> {
            ||| state is Resolving && event is Resolved
            ||| state is Pinned && event is Released
        },
{
}

/// Pinning and releasing gives the thread back the affinity it had: when the
/// platform applies what it is asked and reports the affinity it replaced, a pin
/// that succeeds holds that affinity, and its release restores exactly it.
pub proof fn lemma_pin_round_trip(
    index: u32,
    processor_count: u32,
    lookup_status: i32,
    processor_number: ProcessorNumber,
    yield_status: i32,
    original: GroupAffinity,
)
    requires
        index < processor_count,
        is_success(lookup_status),
        processor_number.number < GROUP_CAPACITY,
        is_success(yield_status),
    ensures
        ({
            let (resolving, resolve) = transition(
                PinState::Unpinned,
                PinEvent::Requested { index, processor_count },
            );
            let (applying, set) = transition(
                resolving,
                PinEvent::Resolved { status: lookup_status, processor_number },
            );
            let pinned_affinity = affinity_after(original, set);
            let (yielding, yield_now) = transition(
                applying,
                PinEvent::Applied { old_affinity: original },
            );
            let (pinned, proceed) = transition(yielding, PinEvent::Yielded { status: yield_status });
            let (released, revert) = transition(pinned, PinEvent::Released);
            &&& resolve == PinAction::ResolveIndex { index }
            &&& Some(pinned_affinity) == GroupAffinity::only(processor_number)
            &&& yield_now == PinAction::YieldExecution
            &&& proceed == PinAction::Proceed
            &&& pinned is Pinned
            &&& pinned->guard.old_affinity == original
            &&& released == PinState::Unpinned
            &&& affinity_after(pinned_affinity, revert) == original
        }),
{
}

} // verus!
