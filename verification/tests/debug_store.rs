use std::sync::Arc;
use virtmanager::instance::VirtualMachine;
use virtmanager::instance::VmInstance;
use virtmanager::aidl::VirtManager;
use virtmanager::state::State;
use virtmanager::status::Status;
use virtmanager::Cid;

fn dup(_log_fd: u32) -> Option<u32> {
    None
}

fn load(config_path: &str) -> Option<String> {
    Some(config_path.to_string())
}

fn launch(_config: String, cid: Cid, config_path: &str, _log_fd: Option<u32>) -> Option<VmInstance> {
    Some(VmInstance::new(cid, config_path))
}

fn start(manager: &mut VirtManager, config_path: &str) -> Result<VirtualMachine, Status> {
    manager.startVm(config_path, None, dup, load, launch)
}

fn handle(cid: Cid, config_path: &str) -> VirtualMachine {
    VirtualMachine::create(Arc::new(VmInstance::new(cid, config_path)))
}

#[test]
fn handle_reports_its_identity_and_configuration() {
    let vm = handle(17, "seventeen.json");
    assert_eq!(vm.getCid(), 17);
    assert_eq!(vm.config_path(), "seventeen.json");
}

#[test]
fn hold_then_drop_returns_the_handle_and_then_nothing() {
    let mut manager = VirtManager::new();
    let a = start(&mut manager, "a.json").expect("start a");
    assert_eq!(manager.debugHoldVmRef(0, &a), Ok(()));
    let back = manager.debugDropVmRef(0, a.getCid()).expect("allowed").expect("held");
    assert_eq!(back.getCid(), a.getCid());
    assert_eq!(back.config_path(), "a.json");
    assert!(manager.debugDropVmRef(0, a.getCid()).expect("allowed").is_none());
}

#[test]
fn dropping_what_was_never_held_is_absent_and_no_error() {
    let mut manager = VirtManager::new();
    assert!(manager.debugDropVmRef(0, 10).expect("allowed").is_none());
    let a = start(&mut manager, "a.json").expect("start a");
    assert!(manager.debugDropVmRef(2000, a.getCid()).expect("allowed").is_none());
    assert_eq!(manager.debugHoldVmRef(0, &a), Ok(()));
    assert!(manager.debugDropVmRef(0, a.getCid() + 1).expect("allowed").is_none());
    assert!(manager.debugDropVmRef(0, a.getCid()).expect("allowed").is_some());
}

#[test]
fn held_machine_outlives_its_caller() {
    let mut manager = VirtManager::new();
    let a = start(&mut manager, "a.json").expect("start a");
    assert_eq!(manager.debugHoldVmRef(2000, &a), Ok(()));
    drop(a);
    let listing = manager.debugListVms(2000).expect("allowed");
    assert_eq!(listing.len(), 1);
    assert_eq!(listing[0].cid, 10);
    assert_eq!(listing[0].config_path, "a.json");
    let back = manager.debugDropVmRef(2000, 10).expect("allowed").expect("held");
    assert_eq!(manager.debugListVms(2000).expect("allowed").len(), 1);
    drop(back);
    assert!(manager.debugListVms(2000).expect("allowed").is_empty());
}

#[test]
fn machine_may_be_held_twice() {
    let mut state = State::new();
    let vm = handle(10, "a.json");
    state.debug_hold_vm(vm.clone());
    state.debug_hold_vm(vm.clone());
    assert!(state.debug_drop_vm(10).is_some());
    assert!(state.debug_drop_vm(10).is_some());
    assert!(state.debug_drop_vm(10).is_none());
}

#[test]
fn drop_takes_the_first_handle_with_the_identity() {
    let mut state = State::new();
    state.debug_hold_vm(handle(5, "first"));
    state.debug_hold_vm(handle(6, "other"));
    state.debug_hold_vm(handle(5, "second"));
    assert_eq!(state.debug_drop_vm(5).expect("held").config_path(), "first");
    assert_eq!(state.debug_drop_vm(5).expect("held").config_path(), "second");
    assert!(state.debug_drop_vm(5).is_none());
    assert_eq!(state.debug_drop_vm(6).expect("held").config_path(), "other");
}

#[test]
fn drop_moves_the_last_handle_into_the_gap() {
    let mut state = State::new();
    state.debug_hold_vm(handle(1, "one"));
    state.debug_hold_vm(handle(7, "early"));
    state.debug_hold_vm(handle(3, "three"));
    state.debug_hold_vm(handle(7, "late"));
    assert_eq!(state.debug_drop_vm(1).expect("held").config_path(), "one");
    assert_eq!(state.debug_drop_vm(7).expect("held").config_path(), "late");
    assert_eq!(state.debug_drop_vm(7).expect("held").config_path(), "early");
    assert_eq!(state.debug_drop_vm(3).expect("held").config_path(), "three");
}

#[test]
fn debug_store_leaves_the_counter_alone() {
    let mut state = State::new();
    state.debug_hold_vm(handle(900, "a.json"));
    assert_eq!(state.allocate_next(), Ok(10));
    assert!(state.debug_drop_vm(900).is_some());
    assert_eq!(state.allocate_next(), Ok(11));
}

#[test]
fn held_handle_is_not_tracked() {
    let mut state = State::new();
    state.debug_hold_vm(handle(10, "a.json"));
    assert!(state.vms().is_empty());
}
