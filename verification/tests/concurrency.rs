use std::sync::Arc;
use std::sync::Mutex;
use virtmanager::instance::VirtualMachine;
use virtmanager::instance::VmInstance;
use virtmanager::aidl::VirtManager;
use virtmanager::status::Status;
use virtmanager::Cid;

fn dup(_log_fd: u32) -> Option<u32> {
    None
}

fn load(config_path: &str) -> Option<String> {
    Some(config_path.to_string())
}

fn launch(_config: String, cid: Cid, config_path: &str, _log_fd: Option<u32>) -> Option<VmInstance> {
    Some(VmInstance::new(cid, config_path))
}

fn start(manager: &mut VirtManager, config_path: &str) -> Result<VirtualMachine, Status> {
    manager.startVm(config_path, None, dup, load, launch)
}

fn is_shareable<T: Send + Sync>(_value: &T) -> bool {
    true
}

#[test]
fn manager_behind_a_lock_can_be_shared() {
    let manager = Arc::new(Mutex::new(VirtManager::new()));
    assert!(is_shareable(&manager));
}

#[test]
fn clients_of_one_locked_manager_get_distinct_identities() {
    let manager = Arc::new(Mutex::new(VirtManager::new()));
    let first = Arc::clone(&manager);
    let second = Arc::clone(&manager);
    let mut all: Vec<Cid> = Vec::new();
    let mut handles = Vec::new();
    let mut n = 0;
    while n < 25 {
        let a = start(&mut first.lock().unwrap(), "a.json").expect("start");
        let b = start(&mut second.lock().unwrap(), "b.json").expect("start");
        all.push(a.getCid());
        all.push(b.getCid());
        handles.push(a);
        handles.push(b);
        n += 1;
    }
    let mut k = 0;
    while k < all.len() {
        assert_eq!(all[k], 10 + (k as Cid));
        k += 1;
    }
    assert_eq!(manager.lock().unwrap().debugListVms(0).expect("allowed").len(), 50);
}
