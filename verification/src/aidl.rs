//! The operations of the AIDL interface of the Virt Manager, on the registry.
//!
//! The operations carry the names that the interface gives them. What the
//! transport knows of a request comes in as an argument: the user id of the
//! caller, and the callbacks that duplicate a log descriptor, load a
//! configuration and start a machine.

use crate::access::debug_access_allowed;
use crate::access::is_debug_uid;
use crate::instance::handle_view;
use crate::instance::VirtualMachine;
use crate::instance::VirtualMachineDebugInfo;
use crate::instance::VmInfo;
use crate::instance::VmInstance;
use crate::model::StateView;
use crate::state::instance_views;
use crate::state::State;
use crate::status::StartError;
use crate::status::Status;
use crate::Cid;
use crate::FIRST_GUEST_CID;
use std::sync::Arc;
use vstd::prelude::*;

verus! {

/// The name under which the service is registered with the service manager.
pub const BINDER_SERVICE_IDENTIFIER: &'static str = "android.system.virtmanager";

/// What the work outside the registry came to, as the model reads it: the
/// instance by its identity and its configuration.
pub open spec fn outcome_view(outcome: Result<VmInstance, StartError>) -> Result<VmInfo, StartError> {
    match outcome {
        Ok(instance) => Ok(instance@),
        Err(e) => Err(e),
    }
}

/// The machine that a start attempt returned, by what the registry reads of it.
pub open spec fn started_view(started: Result<VirtualMachine, Status>) -> Result<VmInfo, Status> {
    match started {
        Ok(handle) => Ok(handle@),
        Err(status) => Err(status),
    }
}

/// What the entries of a listing say.
pub open spec fn listing_views(listing: Seq<VirtualMachineDebugInfo>) -> Seq<VmInfo> {
    listing.map_values(|info: VirtualMachineDebugInfo| info@)
}

/// What the debug listing says of the machines `vms`: the identity and the
/// configuration of each, in their order.
pub fn debug_infos(vms: &Vec<Arc<VmInstance>>) -> (listing: Vec<VirtualMachineDebugInfo>)
    ensures
        listing_views(listing@) == instance_views(vms@),
{
    let mut listing: Vec<VirtualMachineDebugInfo> = Vec::new();
    let mut i: usize = 0;
    while i < vms.len()
        invariant
            i <= vms.len(),
            listing_views(listing@) == instance_views(vms@).take(i as int),
        decreases vms.len() - i,
    {
        let ghost views = listing_views(listing@);
        let info = VirtualMachineDebugInfo {
            cid: vms[i].cid,
            config_path: vms[i].config_path.clone(),
        };
        listing.push(info);
        assert(instance_views(vms@).take(i + 1) == views.push(info@));
        i += 1;
    }
    assert(instance_views(vms@).take(i as int) == instance_views(vms@));
    listing
}

/// Whether `duplicate` is what came of duplicating the log descriptor `log_fd`
/// by `dup`: nothing where no descriptor was given, else what `dup` returned.
pub open spec fn duplicated<P, Fd, D>(log_fd: Option<P>, dup: D, duplicate: Option<Fd>) -> bool
    where
        D: FnOnce(P) -> Option<Fd>,
{
    match log_fd {
        Some(given) => duplicate matches Some(fd) && dup.ensures((given,), Some(fd)),
        None => duplicate is None,
    }
}

/// Whether `outcome` is what loading the configuration at `config_path` by
/// `load` and then starting a machine under the identity `cid` by `launch`
/// came to: `launch` gets the configuration that `load` has returned, and is
/// not asked where `load` has failed.
pub open spec fn loaded_and_launched<C, Fd, L, S>(
    config_path: &str,
    cid: Cid,
    log_fd: Option<Fd>,
    load: L,
    launch: S,
    outcome: Result<VmInstance, StartError>,
) -> bool
    where
        L: FnOnce(&str) -> Option<C>,
        S: FnOnce(C, Cid, &str, Option<Fd>) -> Option<VmInstance>,
{
    match outcome {
        Ok(instance) => exists|config: C|
            load.ensures((config_path,), Some(config)) && #[trigger] launch.ensures(
                (config, cid, config_path, log_fd),
                Some(instance),
            ),
        Err(StartError::Launch) => exists|config: C|
            load.ensures((config_path,), Some(config)) && #[trigger] launch.ensures(
                (config, cid, config_path, log_fd),
                None,
            ),
        Err(StartError::Config) => load.ensures((config_path,), None),
        Err(StartError::LogDescriptor) => false,
    }
}

/// Whether `outcome` is what the work outside the registry came to for a start
/// under the identity `cid`: the log descriptor is duplicated first, then the
/// configuration is loaded, then the machine is started, and the first of
/// these that fails ends the work.
pub open spec fn worked_outside<C, P, Fd, D, L, S>(
    config_path: &str,
    cid: Cid,
    log_fd: Option<P>,
    dup: D,
    load: L,
    launch: S,
    outcome: Result<VmInstance, StartError>,
) -> bool
    where
        D: FnOnce(P) -> Option<Fd>,
        L: FnOnce(&str) -> Option<C>,
        S: FnOnce(C, Cid, &str, Option<Fd>) -> Option<VmInstance>,
{
    match outcome {
        Err(StartError::LogDescriptor) => log_fd matches Some(given) && dup.ensures(
            (given,),
            None,
        ),
        _ => exists|duplicate: Option<Fd>| #[trigger]
            duplicated(log_fd, dup, duplicate) && loaded_and_launched(
                config_path,
                cid,
                duplicate,
                load,
                launch,
                outcome,
            ),
    }
}

/// What a start attempt reports of `outcome`: the instance, or the code of the
/// step that failed.
pub open spec fn reported(outcome: Result<VmInstance, StartError>) -> Result<VmInstance, Status> {
    match outcome {
        Ok(instance) => Ok(instance),
        Err(e) => Err(e.spec_status()),
    }
}

/// Starts a machine from the configuration at `config_path` under the identity
/// `cid`: loads the configuration by `load` and, where that succeeds, starts
/// the machine by `launch`, which logs to `log_fd` if there is one. Each of the
/// two returns `None` where it fails, and keeps the cause to itself; the
/// failure comes back as the code that the caller is to see.
pub fn start_vm<C, Fd, L, S>(
    config_path: &str,
    cid: Cid,
    log_fd: Option<Fd>,
    load: L,
    launch: S,
) -> (started: Result<VmInstance, Status>)
    where
        L: FnOnce(&str) -> Option<C>,
        S: FnOnce(C, Cid, &str, Option<Fd>) -> Option<VmInstance>,
    requires
        load.requires((config_path,)),
        forall|config: C|
            load.ensures((config_path,), Some(config)) ==> #[trigger] launch.requires(
                (config, cid, config_path, log_fd),
            ),
    ensures
        exists|outcome: Result<VmInstance, StartError>|
            loaded_and_launched(config_path, cid, log_fd, load, launch, outcome) && started
                == #[trigger] reported(outcome),
{
    match load(config_path) {
        Some(config) => match launch(config, cid, config_path, log_fd) {
            Some(instance) => {
                assert(reported(Ok(instance)) == Ok::<VmInstance, Status>(instance));
                Ok(instance)
            },
            None => {
                assert(reported(Err(StartError::Launch)) == Err::<VmInstance, Status>(
                    Status::Internal,
                ));
                Err(StartError::Launch.status())
            },
        },
        None => {
            assert(reported(Err(StartError::Config)) == Err::<VmInstance, Status>(
                Status::InvalidArgument,
            ));
            Err(StartError::Config.status())
        },
    }
}

/// The manager of virtual machines: the entry point of the service.
///
/// An operation that changes the state takes the manager by `&mut`, so it has
/// the state to itself from its first step to its last, the work of the
/// launcher included. A process that serves several callers at once keeps the
/// manager behind a lock.
#[derive(Debug)]
pub struct VirtManager {
    state: State,
}

impl View for VirtManager {
    type V = StateView;

    closed spec fn view(&self) -> StateView {
        self.state@
    }
}

impl VirtManager {
    /// A manager that has started no machine yet.
    pub fn new() -> (manager: VirtManager)
        ensures
            manager@ == StateView::fresh(),
    {
        VirtManager { state: State::new() }
    }

    /// A manager that has started no machine yet and whose first identity is
    /// `next_cid`, which is a guest identity.
    pub fn starting_at(next_cid: Cid) -> (manager: VirtManager)
        requires
            next_cid >= FIRST_GUEST_CID,
        ensures
            manager@ == (StateView {
                next_cid,
                vms: Seq::empty(),
                debug_held_vms: Seq::empty(),
            }),
    {
        VirtManager { state: State::starting_at(next_cid) }
    }

    /// Creates and starts a new machine from the configuration at
    /// `config_path`, under the next identity. Returns a handle to it.
    ///
    /// The work outside the registry is done by the three callbacks, in this
    /// order: `dup` duplicates the log descriptor `log_fd`, if the caller has
    /// given one; `load` loads the configuration; `launch` starts the machine,
    /// which logs to the duplicate. Each
    /// returns `None` where it fails, and the first that fails ends the
    /// attempt. The identity is consumed before any of them runs, so an attempt
    /// that fails leaves a gap: identities are never given out twice. Where no
    /// identity is left, none of them runs.
    #[allow(non_snake_case)]
    pub fn startVm<C, P, Fd, D, L, S>(
        &mut self,
        config_path: &str,
        log_fd: Option<P>,
        dup: D,
        load: L,
        launch: S,
    ) -> (started: Result<VirtualMachine, Status>)
        where
            D: FnOnce(P) -> Option<Fd>,
            L: FnOnce(&str) -> Option<C>,
            S: FnOnce(C, Cid, &str, Option<Fd>) -> Option<VmInstance>,
        requires
            !old(self)@.exhausted() ==> {
                &&& log_fd matches Some(given) ==> dup.requires((given,))
                &&& load.requires((config_path,))
                &&& forall|config: C, duplicate: Option<Fd>|
                    load.ensures((config_path,), Some(config)) ==> #[trigger] launch.requires(
                        (config, old(self)@.next_cid, config_path, duplicate),
                    )
            },
        ensures
            old(self)@.exhausted() ==> final(self)@ == old(self)@ && started == Err::<
                VirtualMachine,
                Status,
            >(Status::ResourceExhausted),
            !old(self)@.exhausted() ==> exists|
                outcome: Result<VmInstance, StartError>,
                alive: Seq<bool>,
            |
                worked_outside(
                    config_path,
                    old(self)@.next_cid,
                    log_fd,
                    dup,
                    load,
                    launch,
                    outcome,
                ) && alive.len() == old(self)@.vms.len() && final(self)@ == #[trigger] old(
                    self,
                )@.start(outcome_view(outcome), alive) && started_view(started) == old(
                    self,
                )@.start_result(outcome_view(outcome)),
    {
        let cid = self.state.allocate_next()?;
        let ghost nothing_purged = Seq::new(old(self)@.vms.len(), |i: int| true);
        let duplicate = match log_fd {
            Some(given) => match dup(given) {
                Some(fd) => Some(fd),
                None => {
                    proof {
                        let outcome = Err::<VmInstance, StartError>(StartError::LogDescriptor);
                        assert(worked_outside(config_path, cid, log_fd, dup, load, launch, outcome));
                        assert(self@ == old(self)@.start(outcome_view(outcome), nothing_purged));
                    }
                    return Err(StartError::LogDescriptor.status());
                },
            },
            None => None,
        };
        assert(duplicated(log_fd, dup, duplicate));
        let started = start_vm(config_path, cid, duplicate, load, launch);
        let ghost outcome = choose|outcome: Result<VmInstance, StartError>|
            loaded_and_launched(config_path, cid, duplicate, load, launch, outcome) && started
                == #[trigger] reported(outcome);
        assert(worked_outside(config_path, cid, log_fd, dup, load, launch, outcome));
        match started {
            Ok(instance) => {
                let ghost allocated = self@;
                let instance = Arc::new(instance);
                self.state.add_vm(&instance);
                proof {
                    let alive = choose|alive: Seq<bool>|
                        alive.len() == allocated.vms.len() && self@ == #[trigger] allocated.register(
                            alive,
                            instance@,
                        );
                    assert(self@ == old(self)@.start(outcome_view(outcome), alive));
                }
                Ok(VirtualMachine::create(instance))
            },
            Err(status) => {
                assert(self@ == old(self)@.start(outcome_view(outcome), nothing_purged));
                Err(status)
            },
        }
    }

    /// A handle to the running machine with identity `cid`, if there is one and
    /// it could still be had. This resolves a reference that names a machine by
    /// its identity alone, as one that has come over the transport does.
    pub fn running_vm(&self, cid: Cid) -> (found: Option<VirtualMachine>)
        ensures
            exists|alive: Seq<bool>|
                alive.len() == self@.vms.len() && handle_view(found) == #[trigger] self@.running(
                    alive,
                    cid,
                ),
    {
        let found = match self.state.running_vm(cid) {
            Some(vm) => Some(VirtualMachine::create(vm)),
            None => None,
        };
        proof {
            let alive = choose|alive: Seq<bool>|
                alive.len() == self@.vms.len() && handle_view(found) == #[trigger] self@.running(
                    alive,
                    cid,
                );
            assert(handle_view(found) == self@.running(alive, cid));
        }
        found
    }

    /// Lists the machines that are running. For debugging: allowed to the
    /// principals of the allow-list only, of whom `calling_uid` is to be one.
    #[allow(non_snake_case)]
    pub fn debugListVms(&self, calling_uid: u32) -> (listing: Result<
        Vec<VirtualMachineDebugInfo>,
        Status,
    >)
        ensures
            match listing {
                Ok(vms) => is_debug_uid(calling_uid) && exists|alive: Seq<bool>|
                    alive.len() == self@.vms.len() && listing_views(vms@) == #[trigger] self@.snapshot(
                        alive,
                    ),
                Err(status) => !is_debug_uid(calling_uid) && status == Status::PermissionDenied,
            },
    {
        if !debug_access_allowed(calling_uid) {
            return Err(Status::PermissionDenied);
        }
        let vms = self.state.vms();
        let listing = debug_infos(&vms);
        proof {
            let alive = choose|alive: Seq<bool>|
                alive.len() == self@.vms.len() && instance_views(vms@) == #[trigger] self@.snapshot(
                    alive,
                );
            assert(listing_views(listing@) == self@.snapshot(alive));
        }
        Ok(listing)
    }

    /// Holds a reference to the machine of `vmref` in the manager, which keeps
    /// the machine alive. For debugging: allowed to the principals of the
    /// allow-list only, of whom `calling_uid` is to be one.
    #[allow(non_snake_case)]
    pub fn debugHoldVmRef(&mut self, calling_uid: u32, vmref: &VirtualMachine) -> (held: Result<
        (),
        Status,
    >)
        ensures
            held == if is_debug_uid(calling_uid) {
                Ok::<(), Status>(())
            } else {
                Err::<(), Status>(Status::PermissionDenied)
            },
            final(self)@ == if is_debug_uid(calling_uid) {
                old(self)@.hold(vmref@)
            } else {
                old(self)@
            },
    {
        if !debug_access_allowed(calling_uid) {
            return Err(Status::PermissionDenied);
        }
        self.state.debug_hold_vm(vmref.clone());
        Ok(())
    }

    /// Drops the reference to the machine with identity `cid` that the manager
    /// holds, and returns it; `None` if it holds none. For debugging: allowed
    /// to the principals of the allow-list only, of whom `calling_uid` is to be
    /// one.
    #[allow(non_snake_case)]
    pub fn debugDropVmRef(&mut self, calling_uid: u32, cid: Cid) -> (dropped: Result<
        Option<VirtualMachine>,
        Status,
    >)
        ensures
            final(self)@ == if is_debug_uid(calling_uid) {
                old(self)@.take(cid)
            } else {
                old(self)@
            },
            match dropped {
                Ok(handle) => is_debug_uid(calling_uid) && handle_view(handle) == old(self)@.taken(
                    cid,
                ),
                Err(status) => !is_debug_uid(calling_uid) && status == Status::PermissionDenied,
            },
    {
        if !debug_access_allowed(calling_uid) {
            return Err(Status::PermissionDenied);
        }
        Ok(self.state.debug_drop_vm(cid))
    }
}

impl Default for VirtManager {
    fn default() -> (manager: VirtManager)
        ensures
            manager@ == StateView::fresh(),
    {
        VirtManager::new()
    }
}

} // verus!
