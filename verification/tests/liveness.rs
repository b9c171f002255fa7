use std::sync::Arc;
use virtmanager::instance::VirtualMachine;
use virtmanager::instance::VmInstance;
use virtmanager::aidl::debug_infos;
use virtmanager::aidl::VirtManager;
use virtmanager::state::collect_running;
use virtmanager::state::first_running;
use virtmanager::state::State;
use virtmanager::status::Status;
use virtmanager::Cid;

fn dup(_log_fd: u32) -> Option<u32> {
    None
}

fn load(config_path: &str) -> Option<String> {
    Some(config_path.to_string())
}

fn launch(_config: String, cid: Cid, config_path: &str, _log_fd: Option<u32>) -> Option<VmInstance> {
    Some(VmInstance::new(cid, config_path))
}

fn start(manager: &mut VirtManager, config_path: &str) -> Result<VirtualMachine, Status> {
    manager.startVm(config_path, None, dup, load, launch)
}

fn listed(manager: &VirtManager) -> Vec<(Cid, String)> {
    let mut entries: Vec<(Cid, String)> = Vec::new();
    for info in manager.debugListVms(0).expect("allowed") {
        entries.push((info.cid, info.config_path));
    }
    entries.sort();
    entries
}

fn identities(state: &State) -> Vec<Cid> {
    let mut cids: Vec<Cid> = Vec::new();
    for vm in state.vms() {
        cids.push(vm.cid);
    }
    cids
}

#[test]
fn new_manager_lists_nothing() {
    let manager = VirtManager::new();
    assert!(listed(&manager).is_empty());
}

#[test]
fn listing_has_both_started_machines() {
    let mut manager = VirtManager::new();
    let a = start(&mut manager, "a.json").expect("start a");
    let b = start(&mut manager, "b.json").expect("start b");
    assert_eq!(a.getCid(), 10);
    assert_eq!(b.getCid(), 11);
    assert_eq!(listed(&manager), vec![(10, "a.json".to_string()), (11, "b.json".to_string())]);
}

#[test]
fn dropped_machine_is_no_longer_listed() {
    let mut manager = VirtManager::new();
    let a = start(&mut manager, "a.json").expect("start a");
    let _b = start(&mut manager, "b.json").expect("start b");
    drop(a);
    assert_eq!(listed(&manager), vec![(11, "b.json".to_string())]);
    let _c = start(&mut manager, "c.json").expect("start c");
    assert_eq!(listed(&manager), vec![(11, "b.json".to_string()), (12, "c.json".to_string())]);
}

#[test]
fn machine_lives_while_any_handle_to_it_does() {
    let mut manager = VirtManager::new();
    let a = start(&mut manager, "a.json").expect("start a");
    let second = a.clone();
    drop(a);
    assert_eq!(listed(&manager), vec![(10, "a.json".to_string())]);
    drop(second);
    assert!(listed(&manager).is_empty());
}

#[test]
fn cloned_handle_is_the_same_machine() {
    let mut manager = VirtManager::starting_at(500);
    let a = start(&mut manager, "a.json").expect("start a");
    let second = a.clone();
    assert_eq!(second.getCid(), 500);
    assert_eq!(second.config_path(), "a.json");
}

#[test]
fn identities_are_not_reused_after_a_machine_is_gone() {
    let mut manager = VirtManager::new();
    let a = start(&mut manager, "a.json").expect("start a");
    drop(a);
    let b = start(&mut manager, "b.json").expect("start b");
    assert_eq!(b.getCid(), 11);
}

#[test]
fn snapshot_keeps_the_order_of_registration() {
    let mut state = State::new();
    let a = Arc::new(VmInstance::new(10, "a.json"));
    let b = Arc::new(VmInstance::new(11, "b.json"));
    let c = Arc::new(VmInstance::new(12, "c.json"));
    state.add_vm(&a);
    state.add_vm(&b);
    state.add_vm(&c);
    assert_eq!(identities(&state), vec![10, 11, 12]);
    drop(b);
    assert_eq!(identities(&state), vec![10, 12]);
}

#[test]
fn snapshot_owns_what_it_returns() {
    let mut state = State::new();
    let a = Arc::new(VmInstance::new(10, "a.json"));
    state.add_vm(&a);
    let snapshot = state.vms();
    drop(a);
    assert_eq!(identities(&state), vec![10]);
    assert_eq!(snapshot[0].config_path, "a.json");
    drop(snapshot);
    assert!(identities(&state).is_empty());
}

#[test]
fn adding_does_not_keep_the_machine_alive() {
    let mut state = State::new();
    let a = Arc::new(VmInstance::new(10, "a.json"));
    state.add_vm(&a);
    assert_eq!(Arc::strong_count(&a), 1);
    assert_eq!(Arc::weak_count(&a), 1);
}

#[test]
fn adding_discards_the_stale_references() {
    let mut state = State::new();
    let a = Arc::new(VmInstance::new(10, "a.json"));
    let b = Arc::new(VmInstance::new(11, "b.json"));
    state.add_vm(&a);
    state.add_vm(&b);
    assert_eq!(Arc::weak_count(&b), 1);
    drop(a);
    let c = Arc::new(VmInstance::new(12, "c.json"));
    state.add_vm(&c);
    assert_eq!(identities(&state), vec![11, 12]);
    state.retain_referenced(&vec![1, 1]);
    assert_eq!(identities(&state), vec![11, 12]);
    state.retain_referenced(&vec![1, 1, 1]);
    assert_eq!(identities(&state), vec![11, 12]);
}

#[test]
fn retaining_keeps_the_references_with_a_positive_count() {
    let mut state = State::new();
    let a = Arc::new(VmInstance::new(10, "a.json"));
    let b = Arc::new(VmInstance::new(11, "b.json"));
    let c = Arc::new(VmInstance::new(12, "c.json"));
    let d = Arc::new(VmInstance::new(13, "d.json"));
    state.add_vm(&a);
    state.add_vm(&b);
    state.add_vm(&c);
    state.add_vm(&d);
    state.retain_referenced(&vec![1, 0, 3, 0]);
    assert_eq!(identities(&state), vec![10, 12]);
    assert_eq!(Arc::weak_count(&a), 1);
    assert_eq!(Arc::weak_count(&b), 0);
    assert_eq!(Arc::weak_count(&c), 1);
    assert_eq!(Arc::weak_count(&d), 0);
}

#[test]
fn retaining_discards_a_reference_without_a_count() {
    let mut state = State::new();
    let a = Arc::new(VmInstance::new(10, "a.json"));
    let b = Arc::new(VmInstance::new(11, "b.json"));
    state.add_vm(&a);
    state.add_vm(&b);
    state.retain_referenced(&vec![2]);
    assert_eq!(identities(&state), vec![10]);
    state.retain_referenced(&Vec::new());
    assert!(identities(&state).is_empty());
}

#[test]
fn retaining_on_an_empty_state_does_nothing() {
    let mut state = State::new();
    state.retain_referenced(&vec![1, 0, 1]);
    assert!(identities(&state).is_empty());
    assert_eq!(state.allocate_next(), Ok(10));
}

#[test]
fn running_machine_is_found_by_its_identity() {
    let mut manager = VirtManager::new();
    let a = start(&mut manager, "a.json").expect("start a");
    let b = start(&mut manager, "b.json").expect("start b");
    let found = manager.running_vm(b.getCid()).expect("running");
    assert_eq!(found.getCid(), 11);
    assert_eq!(found.config_path(), "b.json");
    assert!(manager.running_vm(12).is_none());
    drop(a);
    assert!(manager.running_vm(10).is_none());
}

#[test]
fn found_machine_is_kept_alive_by_what_was_found() {
    let mut manager = VirtManager::new();
    let a = start(&mut manager, "a.json").expect("start a");
    let found = manager.running_vm(10).expect("running");
    drop(a);
    assert_eq!(listed(&manager), vec![(10, "a.json".to_string())]);
    drop(found);
    assert!(listed(&manager).is_empty());
}

#[test]
fn first_running_machine_with_the_identity_is_found() {
    let mut state = State::new();
    let stale = Arc::new(VmInstance::new(10, "stale.json"));
    let first = Arc::new(VmInstance::new(10, "first.json"));
    let second = Arc::new(VmInstance::new(10, "second.json"));
    state.add_vm(&stale);
    state.add_vm(&first);
    state.add_vm(&second);
    drop(stale);
    assert_eq!(state.running_vm(10).expect("running").config_path, "first.json");
    assert!(state.running_vm(11).is_none());
}

#[test]
fn collecting_keeps_what_is_there_in_order() {
    let a = Arc::new(VmInstance::new(10, "a.json"));
    let c = Arc::new(VmInstance::new(12, "c.json"));
    let upgraded = vec![Some(Arc::clone(&a)), None, Some(Arc::clone(&c)), None];
    let running = collect_running(&upgraded);
    assert_eq!(running.len(), 2);
    assert_eq!((running[0].cid, running[0].config_path.as_str()), (10, "a.json"));
    assert_eq!((running[1].cid, running[1].config_path.as_str()), (12, "c.json"));
    assert!(Arc::ptr_eq(&running[0], &a));
    assert!(Arc::ptr_eq(&running[1], &c));
}

#[test]
fn collecting_nothing_gives_nothing() {
    assert!(collect_running(&Vec::new()).is_empty());
    assert!(collect_running(&vec![None, None]).is_empty());
}

#[test]
fn first_running_is_the_first_with_the_identity() {
    let running = vec![
        Arc::new(VmInstance::new(10, "a.json")),
        Arc::new(VmInstance::new(11, "first.json")),
        Arc::new(VmInstance::new(12, "c.json")),
        Arc::new(VmInstance::new(11, "second.json")),
    ];
    let found = first_running(&running, 11).expect("running");
    assert!(Arc::ptr_eq(&found, &running[1]));
    assert_eq!(first_running(&running, 12).expect("running").config_path, "c.json");
    assert!(first_running(&running, 13).is_none());
    assert!(first_running(&Vec::new(), 10).is_none());
}

#[test]
fn debug_infos_say_identity_and_configuration_of_each() {
    let vms = vec![
        Arc::new(VmInstance::new(12, "c.json")),
        Arc::new(VmInstance::new(10, "a.json")),
    ];
    let listing = debug_infos(&vms);
    assert_eq!(listing.len(), 2);
    assert_eq!((listing[0].cid, listing[0].config_path.as_str()), (12, "c.json"));
    assert_eq!((listing[1].cid, listing[1].config_path.as_str()), (10, "a.json"));
    assert!(debug_infos(&Vec::new()).is_empty());
}

#[test]
fn destroyed_machine_is_not_listed_while_its_reference_is_still_kept() {
    let mut manager = VirtManager::new();
    let a = start(&mut manager, "a.json").expect("start a");
    drop(a);
    assert!(listed(&manager).is_empty());
}
