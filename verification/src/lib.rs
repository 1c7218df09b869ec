//! Verified core of a hook-installing hypervisor: trampoline synthesis,
//! hook objects, the per-processor host stack and processor pinning.

pub mod error;
pub mod function_hook;
pub mod hook_manager;
pub mod processor;
pub mod relocator;
pub mod vmstack;
