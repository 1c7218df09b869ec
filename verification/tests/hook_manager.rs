use hypervisor::function_hook::{FunctionHook, HookType};
use hypervisor::hook_manager::HookManager;

fn code() -> Vec<u8> {
    let mut bytes = vec![0x48, 0xC7, 0xC0, 0x78, 0x56, 0x34, 0x12, 0x48, 0xC7, 0xC0, 0x78, 0x56, 0x34, 0x12];
    while bytes.len() < 28 {
        bytes.push(0x90);
    }
    bytes
}

fn hook(address: u64, handler: u64, hook_type: HookType) -> FunctionHook {
    FunctionHook::new(address, address, handler, hook_type, &code(), 0x7000_0000, 9).unwrap()
}

#[test]
fn manager_keeps_hooks_in_order() {
    let manager = HookManager::new(vec![
        hook(0x1000, 0xA000, HookType::Breakpoint),
        hook(0x2000, 0xB000, HookType::Jmp),
    ]);
    assert_eq!(manager.len(), 2);
    assert_eq!(manager.hook(0).hook_address(), 0x1000);
    assert_eq!(manager.hook(1).hook_address(), 0x2000);
    assert_eq!(manager.hook(1).handler_address(), 0xB000);
}

#[test]
fn enable_hooks_writes_every_hook_in_order() {
    let manager = HookManager::new(vec![
        hook(0x1000, 0xA000, HookType::Breakpoint),
        hook(0x2000, 0xB000, HookType::Jmp),
    ]);
    let writes = manager.enable_hooks();
    assert_eq!(writes.len(), 2);
    assert_eq!(writes[0].address, 0x1000);
    assert_eq!(writes[0].bytes, vec![0xCC]);
    assert_eq!(writes[1].address, 0x2000);
    assert_eq!(
        writes[1].bytes,
        vec![0xff, 0x25, 0, 0, 0, 0, 0x00, 0xB0, 0, 0, 0, 0, 0, 0]
    );
}

#[test]
fn duplicate_hook_sites_are_kept() {
    let manager = HookManager::new(vec![
        hook(0x1000, 0xA000, HookType::Breakpoint),
        hook(0x1000, 0xB000, HookType::Jmp),
    ]);
    let writes = manager.enable_hooks();
    assert_eq!(writes.len(), 2);
    assert_eq!(writes[0].address, 0x1000);
    assert_eq!(writes[1].address, 0x1000);
    assert_eq!(writes[1].bytes.len(), 14);
}

#[test]
fn empty_manager_writes_nothing() {
    let manager = HookManager::new(Vec::new());
    assert_eq!(manager.len(), 0);
    assert!(manager.enable_hooks().is_empty());
}
