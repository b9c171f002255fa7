//! Virtual machine instances and the references that the registry holds to them.

use crate::Cid;
use std::sync::Arc;
use std::sync::Weak;
use vstd::prelude::*;

verus! {

/// What the registry reads of an instance: its identity and the configuration
/// that it was started from.
pub struct VmInfo {
    /// The identity that the instance was started with.
    pub cid: Cid,
    /// The path of the configuration that the instance was started from.
    pub config_path: Seq<char>,
}

/// A running virtual machine, as the launcher hands it over.
#[derive(Debug)]
pub struct VmInstance {
    /// The identity that the instance was started with.
    pub cid: Cid,
    /// The path of the configuration that the instance was started from.
    pub config_path: String,
}

impl View for VmInstance {
    type V = VmInfo;

    open spec fn view(&self) -> VmInfo {
        VmInfo { cid: self.cid, config_path: self.config_path@ }
    }
}

impl VmInstance {
    /// Tags a started machine with its identity and the path of its configuration.
    pub fn new(cid: Cid, config_path: &str) -> (instance: VmInstance)
        ensures
            instance@ == (VmInfo { cid, config_path: config_path@ }),
    {
        VmInstance { cid, config_path: config_path.to_owned() }
    }
}

/// A handle to a running virtual machine. Whoever holds one keeps the machine
/// alive.
#[derive(Debug)]
pub struct VirtualMachine {
    instance: Arc<VmInstance>,
}

impl View for VirtualMachine {
    type V = VmInfo;

    closed spec fn view(&self) -> VmInfo {
        self.instance@
    }
}

impl VirtualMachine {
    /// A handle to `instance`.
    pub fn create(instance: Arc<VmInstance>) -> (handle: VirtualMachine)
        ensures
            handle@ == instance@,
    {
        VirtualMachine { instance }
    }

    /// The identity of the machine.
    #[allow(non_snake_case)]
    pub fn getCid(&self) -> (cid: Cid)
        ensures
            cid == self@.cid,
    {
        self.instance.cid
    }

    /// The path of the configuration that the machine was started from.
    pub fn config_path(&self) -> (path: &str)
        ensures
            path@ == self@.config_path,
    {
        self.instance.config_path.as_str()
    }
}

impl Clone for VirtualMachine {
    /// One more handle to the same machine.
    fn clone(&self) -> (handle: VirtualMachine)
        ensures
            handle@ == self@,
    {
        VirtualMachine { instance: share(&self.instance) }
    }
}

/// The machine of a handle that may be absent.
pub open spec fn handle_view(handle: Option<VirtualMachine>) -> Option<VmInfo> {
    match handle {
        Some(vm) => Some(vm@),
        None => None,
    }
}

/// The instance of an owning reference that may be absent.
pub open spec fn instance_view(instance: Option<Arc<VmInstance>>) -> Option<VmInfo> {
    match instance {
        Some(vm) => Some(vm@),
        None => None,
    }
}

/// What the debug listing says of one running machine.
#[derive(Debug)]
pub struct VirtualMachineDebugInfo {
    /// The identity of the machine.
    pub cid: Cid,
    /// The path of the configuration that the machine was started from.
    pub config_path: String,
}

impl View for VirtualMachineDebugInfo {
    type V = VmInfo;

    open spec fn view(&self) -> VmInfo {
        VmInfo { cid: self.cid, config_path: self.config_path@ }
    }
}

/// A reference to an instance that does not keep it alive.
///
/// Inside is a `std::sync::Weak`, a type with an allocator parameter that
/// Verus cannot be told of. So Verus does not look into this struct: all that
/// is known of a reference is its target, `weak_target`, and what the functions
/// below state of it.
#[verifier::external_body]
#[derive(Debug)]
pub struct WeakVm {
    inner: Weak<VmInstance>,
}

/// The target of a non-owning reference: the instance that it was taken from.
/// An instance is not changed while a reference to it exists, so the target is
/// the same for as long as the reference is.
pub uninterp spec fn weak_target(vm: WeakVm) -> VmInfo;

impl WeakVm {
    /// `Arc::downgrade`: a non-owning reference to the instance that `vm` owns.
    /// The instance is the new reference's target.
    #[verifier::external_body]
    pub(crate) fn downgrade(vm: &Arc<VmInstance>) -> (weak: WeakVm)
        ensures
            weak_target(weak) == vm@,
    {
        WeakVm { inner: Arc::downgrade(vm) }
    }

    /// `Weak::upgrade`: an owning reference to the target, or `None` once the
    /// target has been destroyed. Whether it still lives is not ours to say; what
    /// comes back, if anything, is the target.
    #[verifier::external_body]
    pub(crate) fn upgrade(&self) -> (vm: Option<Arc<VmInstance>>)
        ensures
            vm matches Some(instance) ==> instance@ == weak_target(*self),
    {
        self.inner.upgrade()
    }

    /// `Weak::strong_count`: the number of owning references to the target, 0
    /// once it has been destroyed. Nothing is claimed of the number.
    #[verifier::external_body]
    pub(crate) fn strong_count(&self) -> usize {
        self.inner.strong_count()
    }
}

/// `Arc::clone`: one more owning reference to the same instance.
#[verifier::external_body]
pub(crate) fn share(vm: &Arc<VmInstance>) -> (shared: Arc<VmInstance>)
    ensures
        shared == *vm,
{
    Arc::clone(vm)
}

} // verus!
