//! The life cycle of a virtual machine.
use crate::path::{join, joined};
use crate::text::{
    concat, decimal, parse_i64, parse_signed, split_whitespace, texts, u64_to_text, words,
};
use crate::virtmgr::common::{Cid, CommonVmConfig, Rss, VmMetric};
use crate::virtmgr::kvmtool::{
    death_reason, ipc_message, DeathReason, ExitStatus, IpcTransaction, KvmIpcCmd, KvmToolVmBackend,
    RunVmError,
};
use vstd::prelude::*;

verus! {

pub const MILLIS_PER_SEC: i64 = 1000;

/// How far the payload of a virtual machine has come. Only transitions to a later state in this
/// order are allowed.
#[derive(Copy, Clone, Debug, Eq, Ord, PartialEq, PartialOrd, Structural)]
pub enum PayloadState {
    Starting,
    Started,
    Ready,
    Finished,
    /// The payload had not started when the timeout expired.
    Hangup,
}

impl PayloadState {
    /// The position of the state in the order of states.
    pub open spec fn rank(self) -> u8 {
        match self {
            PayloadState::Starting => 0,
            PayloadState::Started => 1,
            PayloadState::Ready => 2,
            PayloadState::Finished => 3,
            PayloadState::Hangup => 4,
        }
    }

    fn position(self) -> (r: u8)
        ensures
            r == self.rank(),
    {
        match self {
            PayloadState::Starting => 0,
            PayloadState::Started => 1,
            PayloadState::Ready => 2,
            PayloadState::Finished => 3,
            PayloadState::Hangup => 4,
        }
    }
}

/// The state of a virtual machine.
#[derive(Debug)]
pub enum VmState {
    /// Nobody has tried to start it yet.
    NotStarted {
        config: Box<CommonVmConfig>,
    },
    /// It runs in the process `child`. `monitored` is set until somebody waits for the thread
    /// that waits for the process.
    Running {
        child: u32,
        monitored: bool,
    },
    /// It died or was killed.
    Dead,
    /// It failed to start.
    Failed,
}

/// The program that runs a virtual machine.
#[derive(Debug)]
pub enum VmBackend {
    KvmTool(KvmToolVmBackend),
    CrosVm,
}

/// Why a request on a virtual machine was refused.
#[derive(Debug, Clone, Copy, PartialEq, Eq, Structural)]
pub enum VmError {
    /// It was started before, or failed to start.
    AlreadyStartedOrFailed,
    /// The program that runs it cannot be set up.
    BackendUnavailable,
    /// It does not run.
    NotRunning,
    /// The payload cannot go from one state to the other.
    InvalidPayloadTransition { from: PayloadState, to: PayloadState },
}

/// A virtual machine.
#[derive(Debug)]
pub struct CommonVmInstance {
    pub vm_state: VmState,
    /// The context identifier for vsock communication.
    pub cid: Cid,
    pub name: String,
    pub protected: bool,
    /// The directory of the files that the virtual machine uses while it runs.
    pub temporary_directory: String,
    /// The user who requested the virtual machine.
    pub requester_uid: u32,
    /// The process that requested the virtual machine; it may no longer exist.
    pub requester_debug_pid: i32,
    pub vm_metric: VmMetric,
    /// The last state that the payload reported.
    payload_state: PayloadState,
    /// The name of the user who requested the virtual machine.
    requester_uid_name: String,
    backend: VmBackend,
}

/// What a virtual machine is.
pub struct VmView {
    pub vm_state: VmState,
    pub cid: Cid,
    pub name: String,
    pub protected: bool,
    pub temporary_directory: String,
    pub requester_uid: u32,
    pub requester_debug_pid: i32,
    pub vm_metric: VmMetric,
    pub payload_state: PayloadState,
    pub requester_uid_name: String,
    pub backend: VmBackend,
}

impl View for CommonVmInstance {
    type V = VmView;

    closed spec fn view(&self) -> VmView {
        VmView {
            vm_state: self.vm_state,
            cid: self.cid,
            name: self.name,
            protected: self.protected,
            temporary_directory: self.temporary_directory,
            requester_uid: self.requester_uid,
            requester_debug_pid: self.requester_debug_pid,
            vm_metric: self.vm_metric,
            payload_state: self.payload_state,
            requester_uid_name: self.requester_uid_name,
            backend: self.backend,
        }
    }
}

/// What is reported of a virtual machine that exited.
#[derive(Debug)]
pub struct ExitReport {
    pub cid: Cid,
    pub uid: i32,
    pub name: String,
    pub death_reason: DeathReason,
    pub exit_signal: Option<i32>,
    pub vm_metric: VmMetric,
}

/// What is reported of a virtual machine that exited.
pub struct ReportView {
    pub cid: Cid,
    pub uid: int,
    pub name: Seq<char>,
    pub death_reason: DeathReason,
    pub exit_signal: Option<i32>,
    pub vm_metric: VmMetric,
}

impl View for ExitReport {
    type V = ReportView;

    open spec fn view(&self) -> ReportView {
        ReportView {
            cid: self.cid,
            uid: self.uid as int,
            name: self.name@,
            death_reason: self.death_reason,
            exit_signal: self.exit_signal,
            vm_metric: self.vm_metric,
        }
    }
}

/// What is reported of a virtual machine that exited with the given status and failure.
pub open spec fn report_of(
    vm: VmView,
    status: Option<ExitStatus>,
    failure: Seq<char>,
) -> ReportView {
    ReportView {
        cid: vm.cid,
        uid: signed_uid(vm.requester_uid),
        name: vm.name@,
        death_reason: death_reason(status, failure),
        exit_signal: signal_of(status),
        vm_metric: vm.vm_metric,
    }
}

/// A user identifier as a signed number of the same 32 bits.
pub open spec fn signed_uid(uid: u32) -> int {
    if uid < 0x8000_0000 {
        uid as int
    } else {
        uid - 0x1_0000_0000
    }
}

/// How a virtual machine is described.
pub open spec fn description(protected: bool, name: Seq<char>, owner: Seq<char>, cid: nat) -> Seq<
    char,
> {
    (if protected {
        "Protected"@
    } else {
        "Non-protected"@
    }) + " virtual machine \""@ + name + "\" (owner: "@ + owner + ", cid: "@ + decimal(cid) + ")"@
}

/// The name of a failure: what the virtual machine reported, or a hang-up where it reported
/// nothing and its payload never started in time.
pub open spec fn failure_name(reported: Seq<char>, state: PayloadState) -> Seq<char> {
    if reported.len() == 0 && state == PayloadState::Hangup {
        "HANGUP"@
    } else {
        reported
    }
}

/// The signal that ended a process.
pub open spec fn signal_of(status: Option<ExitStatus>) -> Option<i32> {
    match status {
        Some(s) => s.signal,
        None => None,
    }
}

/// The metrics after a sample: the guest time is replaced, the sizes are the largest so far; what
/// could not be sampled stays.
pub open spec fn sampled(metric: VmMetric, guest_time: Option<i64>, rss: Option<Rss>) -> VmMetric {
    VmMetric {
        start_timestamp: metric.start_timestamp,
        cpu_guest_time: match guest_time {
            Some(t) => Some(t),
            None => metric.cpu_guest_time,
        },
        rss: match rss {
            Some(y) => match metric.rss {
                Some(x) => Some(Rss::max(x, y)),
                None => Some(y),
            },
            None => metric.rss,
        },
    }
}

/// The steps that the state of a virtual machine can take.
pub open spec fn life_step(before: VmState, after: VmState) -> bool {
    ||| after == before
    ||| before is NotStarted && after is Failed
    ||| before is Failed && after is Running
    ||| before is Running && after is Running && before->child == after->child
    ||| after is Dead
}

impl CommonVmInstance {
    /// A virtual machine that nobody has tried to start. `uid_name` is the name of the user, where
    /// the user is known; else the number stands for it.
    pub fn new(
        config: CommonVmConfig,
        temporary_directory: String,
        requester_uid: u32,
        requester_debug_pid: i32,
        uid_name: Option<String>,
        use_kvmtool: bool,
    ) -> (r: Result<CommonVmInstance, VmError>)
        ensures
            r matches Ok(vm) && {
                &&& vm@.vm_state == (VmState::NotStarted { config: Box::new(config) })
                &&& vm@.cid == config.cid
                &&& vm@.name@ == config.name@
                &&& vm@.protected == config.protected
                &&& vm@.temporary_directory == temporary_directory
                &&& vm@.requester_uid == requester_uid
                &&& vm@.requester_debug_pid == requester_debug_pid
                &&& vm@.vm_metric == VmMetric::empty()
                &&& vm@.payload_state == PayloadState::Starting
                &&& vm@.requester_uid_name@ == match uid_name {
                    Some(n) => n@,
                    None => decimal(requester_uid as nat),
                }
                &&& if use_kvmtool {
                    vm@.backend matches VmBackend::KvmTool(b) && b.directory()
                        == temporary_directory@ && b.socket() == joined(
                        temporary_directory@,
                        config.name@ + ".sock"@,
                    )
                } else {
                    vm@.backend is CrosVm
                }
            },
    {
        let cid: Cid = config.cid;
        let name: String = config.name.clone();
        let protected: bool = config.protected;
        let requester_uid_name: String = match uid_name {
            Some(n) => n,
            None => u64_to_text(requester_uid as u64),
        };
        let backend: VmBackend = if use_kvmtool {
            match KvmToolVmBackend::new(temporary_directory.as_str(), config.name.as_str()) {
                Ok(b) => VmBackend::KvmTool(b),
                Err(_) => {
                    return Err(VmError::BackendUnavailable);
                },
            }
        } else {
            VmBackend::CrosVm
        };
        Ok(
            CommonVmInstance {
                vm_state: VmState::NotStarted { config: Box::new(config) },
                cid,
                name,
                protected,
                temporary_directory,
                requester_uid,
                requester_debug_pid,
                vm_metric: VmMetric::default(),
                payload_state: PayloadState::Starting,
                requester_uid_name,
                backend,
            },
        )
    }

    /// How the virtual machine is named to people.
    pub fn describe(&self) -> (r: String)
        ensures
            r@ == description(
                self@.protected,
                self@.name@,
                self@.requester_uid_name@,
                self@.cid as nat,
            ),
    {
        let mut s: String = if self.protected {
            "Protected".to_owned()
        } else {
            "Non-protected".to_owned()
        };
        s.append(" virtual machine \"");
        s.append(self.name.as_str());
        s.append("\" (owner: ");
        s.append(self.requester_uid_name.as_str());
        s.append(", cid: ");
        let cid: String = u64_to_text(self.cid as u64);
        s.append(cid.as_str());
        s.append(")");
        s
    }

    /// Begins to start the virtual machine at the time `now`: hands out its configuration and
    /// counts it as failed until `started` is called. Every attempt is recorded as the time of
    /// start; one on a virtual machine that was started before is refused.
    pub fn start(&mut self, now: u64) -> (r: Result<Box<CommonVmConfig>, VmError>)
        ensures
            life_step(old(self)@.vm_state, final(self)@.vm_state),
            match r {
                Ok(config) => {
                    &&& old(self)@.vm_state == (VmState::NotStarted { config })
                    &&& final(self)@ == (VmView {
                        vm_state: VmState::Failed,
                        vm_metric: VmMetric {
                            start_timestamp: Some(now),
                            ..old(self)@.vm_metric
                        },
                        ..old(self)@
                    })
                },
                Err(e) => {
                    &&& old(self)@.vm_state !is NotStarted
                    &&& e == VmError::AlreadyStartedOrFailed
                    &&& final(self)@ == (VmView {
                        vm_metric: VmMetric {
                            start_timestamp: Some(now),
                            ..old(self)@.vm_metric
                        },
                        ..old(self)@
                    })
                },
            },
    {
        self.vm_metric.start_timestamp = Some(now);
        let mut state: VmState = VmState::Failed;
        core::mem::swap(&mut self.vm_state, &mut state);
        match state {
            VmState::NotStarted { config } => Ok(config),
            other => {
                self.vm_state = other;
                Err(VmError::AlreadyStartedOrFailed)
            },
        }
    }

    /// Records that the virtual machine runs in the process `child`.
    pub fn started(&mut self, child: u32)
        requires
            old(self)@.vm_state is Failed,
        ensures
            life_step(old(self)@.vm_state, final(self)@.vm_state),
            final(self)@ == (VmView {
                vm_state: VmState::Running { child, monitored: true },
                ..old(self)@
            }),
    {
        self.vm_state = VmState::Running { child, monitored: true };
    }

    /// The last state that the payload reported.
    pub fn payload_state(&self) -> (r: PayloadState)
        ensures
            r == self@.payload_state,
    {
        self.payload_state
    }

    /// Moves the payload to a later state.
    pub fn update_payload_state(&mut self, new_state: PayloadState) -> (r: Result<(), VmError>)
        ensures
            final(self)@.payload_state == payload_after(old(self)@.payload_state, new_state),
            match r {
                Ok(()) => {
                    &&& new_state.rank() > old(self)@.payload_state.rank()
                    &&& final(self)@ == (VmView {
                        payload_state: new_state,
                        ..old(self)@
                    })
                },
                Err(e) => {
                    &&& new_state.rank() <= old(self)@.payload_state.rank()
                    &&& e == (VmError::InvalidPayloadTransition {
                        from: old(self)@.payload_state,
                        to: new_state,
                    })
                    &&& final(self)@ == old(self)@
                },
            },
    {
        if new_state.position() > self.payload_state.position() {
            self.payload_state = new_state;
            Ok(())
        } else {
            Err(
                VmError::InvalidPayloadTransition { from: self.payload_state, to: new_state },
            )
        }
    }

    /// The process to kill in order to stop the virtual machine.
    pub fn kill(&self) -> (r: Result<u32, VmError>)
        ensures
            match r {
                Ok(pid) => self@.vm_state matches VmState::Running { child, .. } && child == pid,
                Err(e) => self@.vm_state !is Running && e == VmError::NotRunning,
            },
    {
        match &self.vm_state {
            VmState::Running { child, .. } => Ok(*child),
            _ => Err(VmError::NotRunning),
        }
    }

    /// Whether the caller, who has just killed the process, is to wait for the thread that waits
    /// for the process; only the first caller is.
    pub fn killed(&mut self) -> (r: bool)
        ensures
            life_step(old(self)@.vm_state, final(self)@.vm_state),
            match old(self)@.vm_state {
                VmState::Running { child, monitored } => {
                    &&& r == monitored
                    &&& final(self)@ == (VmView {
                        vm_state: VmState::Running { child, monitored: false },
                        ..old(self)@
                    })
                },
                _ => !r && final(self)@ == old(self)@,
            },
    {
        match self.vm_state {
            VmState::Running { child, monitored } => {
                self.vm_state = VmState::Running { child, monitored: false };
                monitored
            },
            _ => false,
        }
    }

    /// The program that runs the virtual machine.
    pub fn backend(&self) -> (r: &VmBackend)
        ensures
            *r == self@.backend,
    {
        &self.backend
    }

    /// The size of the memory balloon, where kvmtool runs the virtual machine.
    pub fn get_memory_balloon(&self) -> (r: Option<Result<u64, RunVmError>>)
        ensures
            r == match self@.backend {
                VmBackend::KvmTool(_) => Some(Ok::<u64, RunVmError>(0)),
                VmBackend::CrosVm => None,
            },
    {
        match &self.backend {
            VmBackend::KvmTool(b) => Some(b.get_memory_balloon()),
            VmBackend::CrosVm => None,
        }
    }

    /// Sets the size of the memory balloon, where kvmtool runs the virtual machine: this succeeds.
    pub fn set_memory_balloon(&self, num_bytes: u64) -> (r: Option<Result<(), RunVmError>>)
        ensures
            r == match self@.backend {
                VmBackend::KvmTool(_) => Some(Ok::<(), RunVmError>(())),
                VmBackend::CrosVm => None,
            },
    {
        match &self.backend {
            VmBackend::KvmTool(b) => Some(b.set_memory_balloon(num_bytes)),
            VmBackend::CrosVm => None,
        }
    }

    /// The exchange that pauses the virtual machine, where kvmtool runs it.
    pub fn suspend(&self) -> (r: Option<IpcTransaction>)
        ensures
            match self@.backend {
                VmBackend::KvmTool(b) => r matches Some(t) && t.socket@ == b.socket() && t.request@
                    == ipc_message(KvmIpcCmd::Pause, Seq::empty()) && t.response_size == 0,
                VmBackend::CrosVm => r is None,
            },
    {
        match &self.backend {
            VmBackend::KvmTool(b) => Some(b.suspend()),
            VmBackend::CrosVm => None,
        }
    }

    /// The exchange that resumes the virtual machine, where kvmtool runs it.
    pub fn resume(&self) -> (r: Option<IpcTransaction>)
        ensures
            match self@.backend {
                VmBackend::KvmTool(b) => r matches Some(t) && t.socket@ == b.socket() && t.request@
                    == ipc_message(KvmIpcCmd::Resume, Seq::empty()) && t.response_size == 0,
                VmBackend::CrosVm => r is None,
            },
    {
        match &self.backend {
            VmBackend::KvmTool(b) => Some(b.resume()),
            VmBackend::CrosVm => None,
        }
    }

    /// The file that a crashed guest leaves its memory in.
    pub fn ramdump_path(&self) -> (r: String)
        ensures
            r@ == joined(self@.temporary_directory@, "ramdump"@),
    {
        join(self.temporary_directory.as_str(), "ramdump")
    }

    /// Takes a sample of the running virtual machine over into the metrics; each value is `None`
    /// where it could not be sampled. Returns whether sampling goes on.
    pub fn monitor_vm_status(&mut self, guest_time: Option<i64>, rss: Option<Rss>) -> (r: bool)
        ensures
            r == (old(self)@.vm_state !is Dead),
            final(self)@ == if r {
                VmView {
                    vm_metric: sampled(old(self)@.vm_metric, guest_time, rss),
                    ..old(self)@
                }
            } else {
                old(self)@
            },
    {
        match self.vm_state {
            VmState::Dead => {
                return false;
            },
            _ => {},
        }
        match guest_time {
            Some(t) => {
                self.vm_metric.cpu_guest_time = Some(t);
            },
            None => {},
        }
        match rss {
            Some(y) => {
                self.vm_metric.rss = match &self.vm_metric.rss {
                    Some(x) => Some(Rss::extract_max(x, &y)),
                    None => Some(y),
                };
            },
            None => {},
        }
        true
    }

    /// Records that the process of the virtual machine has ended.
    pub fn exited(&mut self)
        ensures
            life_step(old(self)@.vm_state, final(self)@.vm_state),
            final(self)@ == (VmView { vm_state: VmState::Dead, ..old(self)@ }),
    {
        self.vm_state = VmState::Dead;
    }

    /// The name of the failure of a virtual machine that reported the given reason.
    pub fn failure(&self, reported: String) -> (r: String)
        ensures
            r@ == failure_name(reported@, self@.payload_state),
    {
        if reported.as_str().is_empty() && self.payload_state() == PayloadState::Hangup {
            "HANGUP".to_owned()
        } else {
            reported
        }
    }

    /// What is reported of the virtual machine once its process has ended with `status` (`None`
    /// where it could not be waited for) and with the given failure, by what kvmtool says of it.
    pub fn exit_report(
        &self,
        backend: &KvmToolVmBackend,
        status: &Option<ExitStatus>,
        failure: &str,
    ) -> (r: ExitReport)
        ensures
            r@ == report_of(self@, *status, failure@),
    {
        let uid: i32 = if self.requester_uid < 0x8000_0000 {
            self.requester_uid as i32
        } else {
            (self.requester_uid as i64 - 0x1_0000_0000) as i32
        };
        ExitReport {
            cid: self.cid,
            uid,
            name: self.name.clone(),
            death_reason: backend.translate_death_reason(status, failure),
            exit_signal: exit_signal(status),
            vm_metric: self.vm_metric,
        }
    }

    /// Whether the payload has yet to start.
    pub fn awaits_payload(&self) -> (r: bool)
        ensures
            r == (self@.payload_state.rank() < PayloadState::Started.rank()),
    {
        self.payload_state.position() < 1
    }

    /// Decides, when waiting for the payload has ended, whether the virtual machine hangs and is
    /// to be killed; the payload then counts as hung up.
    pub fn monitor_payload_hangup(&mut self, timed_out: bool, child_still_running: bool) -> (r: bool)
        requires
            timed_out && child_still_running ==> old(self)@.payload_state != PayloadState::Hangup,
        ensures
            r == (timed_out && child_still_running),
            final(self)@ == if r {
                VmView { payload_state: PayloadState::Hangup, ..old(self)@ }
            } else {
                old(self)@
            },
    {
        if timed_out && child_still_running {
            let _ = self.update_payload_state(PayloadState::Hangup);
            true
        } else {
            false
        }
    }
}

/// How many seconds a payload has to start; a guest within a guest is slower.
pub fn boot_hangup_timeout(nested_virtualization: bool) -> (r: u64)
    ensures
        r == if nested_virtualization {
            3000u64
        } else {
            30u64
        },
{
    if nested_virtualization {
        3000
    } else {
        30
    }
}

/// Whether a ram dump is worth sending: one that exists and is not empty.
pub fn ramdump_to_send(found: bool, size: u64) -> (r: bool)
    ensures
        r == (found && size > 0),
{
    found && size > 0
}

/// The signal that ended a process, where a signal did; `status` is `None` where the process
/// could not be waited for.
pub fn exit_signal(status: &Option<ExitStatus>) -> (r: Option<i32>)
    ensures
        r == signal_of(*status),
{
    match status {
        Some(s) => s.signal,
        None => None,
    }
}

/// Why no guest time can be read out of a process status.
#[derive(Debug, Clone, Copy, PartialEq, Eq, Structural)]
pub enum GuestTimeError {
    /// There are too few fields.
    TooFewFields,
    /// The field is not a number.
    InvalidNumber,
    /// The time in milliseconds is not representable.
    Overflow,
}

/// Division that rounds towards zero.
pub open spec fn quotient(a: int, b: int) -> int
    recommends
        b != 0,
{
    let abs_a = if a < 0 {
        -a
    } else {
        a
    };
    let abs_b = if b < 0 {
        -b
    } else {
        b
    };
    if (a < 0) == (b < 0) {
        abs_a / abs_b
    } else {
        -(abs_a / abs_b)
    }
}

/// The guest time in milliseconds that a process status tells: its 43rd field counts ticks.
pub open spec fn guest_time(stat: Seq<char>, ticks_per_sec: int) -> Result<int, GuestTimeError> {
    let fields = words(stat);
    if fields.len() < 43 {
        Err(GuestTimeError::TooFewFields)
    } else {
        match parse_signed(fields[42], i64::MIN as int, i64::MAX as int) {
            None => Err(GuestTimeError::InvalidNumber),
            Some(ticks) => if i64::MIN <= ticks * MILLIS_PER_SEC <= i64::MAX && i64::MIN
                <= quotient(ticks * MILLIS_PER_SEC, ticks_per_sec) <= i64::MAX {
                Ok(quotient(ticks * MILLIS_PER_SEC, ticks_per_sec))
            } else {
                Err(GuestTimeError::Overflow)
            },
        }
    }
}

/// The guest time in milliseconds, from the status of a process (`/proc/<pid>/stat`).
pub fn get_guest_time(stat: &str, ticks_per_sec: i64) -> (r: Result<i64, GuestTimeError>)
    requires
        ticks_per_sec != 0,
    ensures
        match r {
            Ok(t) => guest_time(stat@, ticks_per_sec as int) == Ok::<int, GuestTimeError>(t as int),
            Err(e) => guest_time(stat@, ticks_per_sec as int) == Err::<int, GuestTimeError>(e),
        },
{
    let data: Vec<String> = split_whitespace(stat);
    assert(texts(data@).len() == data@.len());
    if data.len() < 43 {
        return Err(GuestTimeError::TooFewFields);
    }
    assert(texts(data@)[42] == data@[42]@);
    let ticks: i64 = match parse_i64(data[42].as_str()) {
        Some(t) => t,
        None => {
            return Err(GuestTimeError::InvalidNumber);
        },
    };
    let product: i64 = match ticks.checked_mul(MILLIS_PER_SEC) {
        Some(p) => p,
        None => {
            return Err(GuestTimeError::Overflow);
        },
    };
    match product.checked_div(ticks_per_sec) {
        Some(t) => Ok(t),
        None => Err(GuestTimeError::Overflow),
    }
}

// ---------------------------------------------------------------------------
// Laws
// ---------------------------------------------------------------------------

/// The state of a payload after it was asked to move to `requested`.
pub open spec fn payload_after(state: PayloadState, requested: PayloadState) -> PayloadState {
    if requested.rank() > state.rank() {
        requested
    } else {
        state
    }
}

/// The state of a payload after a sequence of requests.
pub open spec fn payload_after_all(
    state: PayloadState,
    requested: Seq<PayloadState>,
) -> PayloadState
    decreases requested.len(),
{
    if requested.len() == 0 {
        state
    } else {
        payload_after(payload_after_all(state, requested.drop_last()), requested.last())
    }
}

/// Whatever is requested in whatever order, the payload never goes back, and it ends in the
/// latest of the states that were requested or that it was in.
pub proof fn payload_never_goes_back(state: PayloadState, requested: Seq<PayloadState>)
    ensures
        payload_after_all(state, requested).rank() >= state.rank(),
        forall|i: int|
            0 <= i < requested.len() ==> payload_after_all(state, requested).rank() >= (
            #[trigger] requested[i]).rank(),
        payload_after_all(state, requested) == state || requested.contains(
            payload_after_all(state, requested),
        ),
    decreases requested.len(),
{
    if requested.len() > 0 {
        let before = requested.drop_last();
        payload_never_goes_back(state, before);
        assert forall|i: int| 0 <= i < requested.len() implies payload_after_all(
            state,
            requested,
        ).rank() >= (#[trigger] requested[i]).rank() by {
            if i < before.len() {
                assert(before[i] == requested[i]);
            }
        }
        let r = payload_after_all(state, requested);
        if r != state {
            if r == requested.last() {
                assert(requested[requested.len() - 1] == r);
            } else {
                assert(before.contains(r));
                let k = choose|k: int| 0 <= k < before.len() && before[k] == r;
                assert(requested[k] == r);
            }
        }
    }
}

/// A virtual machine that was started once can never be started again, and one that is dead stays
/// dead.
pub proof fn no_second_life(states: Seq<VmState>, i: int)
    requires
        forall|k: int|
            0 <= k < states.len() - 1 ==> life_step(#[trigger] states[k], states[k + 1]),
        0 <= i < states.len(),
    ensures
        states[0] is Dead ==> states[i] is Dead,
        states[0] !is NotStarted ==> states[i] !is NotStarted,
    decreases i,
{
    if i > 0 {
        no_second_life(states, i - 1);
        assert(life_step(states[i - 1], states[i - 1 + 1]));
    }
}

/// The metrics after a sequence of samples.
pub open spec fn sampled_all(
    metric: VmMetric,
    samples: Seq<(Option<i64>, Option<Rss>)>,
) -> VmMetric
    decreases samples.len(),
{
    if samples.len() == 0 {
        metric
    } else {
        let s = samples.last();
        sampled(sampled_all(metric, samples.drop_last()), s.0, s.1)
    }
}

/// The recorded sizes bound every sample that was taken, and samples leave the time of start
/// alone.
pub proof fn metrics_bound_every_sample(
    metric: VmMetric,
    samples: Seq<(Option<i64>, Option<Rss>)>,
)
    ensures
        sampled_all(metric, samples).start_timestamp == metric.start_timestamp,
        forall|i: int|
            0 <= i < samples.len() && (#[trigger] samples[i]).1 is Some ==> (sampled_all(
                metric,
                samples,
            ).rss matches Some(m) && m.vm >= samples[i].1->0.vm && m.crosvm
                >= samples[i].1->0.crosvm),
    decreases samples.len(),
{
    if samples.len() > 0 {
        let before = samples.drop_last();
        metrics_bound_every_sample(metric, before);
        assert forall|i: int|
            0 <= i < samples.len() && (#[trigger] samples[i]).1 is Some implies (sampled_all(
            metric,
            samples,
        ).rss matches Some(m) && m.vm >= samples[i].1->0.vm && m.crosvm >= samples[i].1->0.crosvm) by {
            if i < before.len() {
                assert(before[i] == samples[i]);
            }
        }
    }
}

/// A virtual machine whose payload hung up and which reported nothing itself died of a hang-up,
/// however its process was ended.
pub proof fn silent_hangup_is_reported(status: ExitStatus)
    ensures
        death_reason(Some(status), failure_name(Seq::empty(), PayloadState::Hangup))
            == DeathReason::Hangup,
{
    reveal_strlit("HANGUP");
    reveal_strlit("PVM_FIRMWARE_PUBLIC_KEY_MISMATCH");
    reveal_strlit("PVM_FIRMWARE_INSTANCE_IMAGE_CHANGED");
    reveal_strlit("MICRODROID_FAILED_TO_CONNECT_TO_VIRTUALIZATION_SERVICE");
    reveal_strlit("MICRODROID_PAYLOAD_HAS_CHANGED");
    reveal_strlit("MICRODROID_PAYLOAD_VERIFICATION_FAILED");
    reveal_strlit("MICRODROID_INVALID_PAYLOAD_CONFIG");
    reveal_strlit("MICRODROID_UNKNOWN_RUNTIME_ERROR");
    crate::text::lemma_first_index("HANGUP"@, '|', 6);
    assert(crate::text::before_first("HANGUP"@, '|') =~= "HANGUP"@);
}

/// The states of a payload follow each other: starting, started, ready, finished, hung up.
pub proof fn payload_states_are_ordered()
    ensures
        PayloadState::Starting.rank() < PayloadState::Started.rank(),
        PayloadState::Started.rank() < PayloadState::Ready.rank(),
        PayloadState::Ready.rank() < PayloadState::Finished.rank(),
        PayloadState::Finished.rank() < PayloadState::Hangup.rank(),
{
}

/// A payload moves to the requested state exactly where that comes later than its own.
pub proof fn payloads_move_to_later_states(state: PayloadState, requested: PayloadState)
    ensures
        requested.rank() > state.rank() ==> payload_after(state, requested) == requested,
        requested.rank() <= state.rank() ==> payload_after(state, requested) == state,
{
}

/// A report names the virtual machine, who requested it, why it died, which signal ended its process
/// and what was measured of it.
pub proof fn reports_are_complete(vm: VmView, status: Option<ExitStatus>, failure: Seq<char>)
    ensures
        ({
            let r = report_of(vm, status, failure);
            &&& r.cid == vm.cid
            &&& r.name == vm.name@
            &&& r.death_reason == death_reason(status, failure)
            &&& r.vm_metric == vm.vm_metric
            &&& status matches Some(s) ==> r.exit_signal == s.signal
            &&& status is None ==> r.exit_signal is None
            &&& -0x8000_0000 <= r.uid < 0x8000_0000
            &&& (r.uid - vm.requester_uid) % 0x1_0000_0000 == 0
        }),
{
}

/// What the virtual machine reported names its failure; only where it reported nothing and its
/// payload hung up, that is the failure.
pub proof fn reported_failures_keep_their_names(reported: Seq<char>, state: PayloadState)
    ensures
        reported.len() > 0 || state != PayloadState::Hangup ==> failure_name(reported, state)
            == reported,
        reported.len() == 0 && state == PayloadState::Hangup ==> failure_name(reported, state)
            == "HANGUP"@,
{
}

/// A sample replaces the guest time and raises the sizes to the sampled ones where those are larger;
/// what could not be sampled stays, and so does the time of start.
pub proof fn samples_update_the_metrics(metric: VmMetric, time: Option<i64>, rss: Option<Rss>)
    ensures
        ({
            let after = sampled(metric, time, rss);
            &&& after.start_timestamp == metric.start_timestamp
            &&& time is Some ==> after.cpu_guest_time == time
            &&& time is None ==> after.cpu_guest_time == metric.cpu_guest_time
            &&& rss is None ==> after.rss == metric.rss
            &&& rss is Some && metric.rss is None ==> after.rss == rss
            &&& rss is Some && metric.rss is Some ==> {
                let (x, y) = (metric.rss->0, rss->0);
                &&& after.rss is Some
                &&& (after.rss->0).vm == if x.vm < y.vm {
                    y.vm
                } else {
                    x.vm
                }
                &&& (after.rss->0).crosvm == if x.crosvm < y.crosvm {
                    y.crosvm
                } else {
                    x.crosvm
                }
            }
        }),
{
}

/// A quotient times its divisor comes closest to the dividend from the side of zero.
pub proof fn quotients_round_towards_zero(a: int, b: int)
    requires
        b != 0,
    ensures
        a >= 0 ==> 0 <= a - quotient(a, b) * b,
        a >= 0 && b > 0 ==> a - quotient(a, b) * b < b,
        a >= 0 && b < 0 ==> a - quotient(a, b) * b < -b,
        a < 0 ==> a - quotient(a, b) * b <= 0,
        a < 0 && b > 0 ==> -b < a - quotient(a, b) * b,
        a < 0 && b < 0 ==> b < a - quotient(a, b) * b,
{
    let x = if a < 0 {
        -a
    } else {
        a
    };
    let y = if b < 0 {
        -b
    } else {
        b
    };
    let q = x / y;
    assert(0 <= x - q * y < y) by (nonlinear_arith)
        requires
            y > 0,
            q == x / y,
    ;
    assert(quotient(a, b) * b == if a < 0 {
        -(q * y)
    } else {
        q * y
    }) by (nonlinear_arith)
        requires
            quotient(a, b) == q || quotient(a, b) == -q,
            (a < 0) == (b < 0) ==> quotient(a, b) == q,
            (a < 0) != (b < 0) ==> quotient(a, b) == -q,
            b < 0 ==> y == -b,
            b >= 0 ==> y == b,
    ;
}

/// The guest time is the 43rd word of a process status, a number of ticks, in milliseconds; what is
/// missing, no number or too large is told.
pub proof fn guest_times_count_ticks(stat: Seq<char>, ticks_per_sec: int)
    requires
        ticks_per_sec != 0,
    ensures
        ({
            let r = guest_time(stat, ticks_per_sec);
            let ticks = parse_signed(words(stat)[42], i64::MIN as int, i64::MAX as int);
            &&& words(stat).len() < 43 ==> r == Err::<int, _>(GuestTimeError::TooFewFields)
            &&& words(stat).len() >= 43 && ticks is None ==> r == Err::<int, _>(
                GuestTimeError::InvalidNumber,
            )
            &&& words(stat).len() >= 43 && ticks is Some ==> {
                let millis = quotient(ticks->0 * 1000, ticks_per_sec);
                let fits = i64::MIN <= ticks->0 * 1000 <= i64::MAX && i64::MIN <= millis
                    <= i64::MAX;
                &&& fits ==> r == Ok::<int, GuestTimeError>(millis)
                &&& !fits ==> r == Err::<int, _>(GuestTimeError::Overflow)
            }
        }),
{
}

/// A description tells whether the virtual machine is protected, its name, its owner and its context
/// identifier.
pub proof fn descriptions_are_complete(name: Seq<char>, owner: Seq<char>, cid: nat)
    ensures
        ({
            let rest = " virtual machine \""@ + name + "\" (owner: "@ + owner + ", cid: "@
                + decimal(cid) + ")"@;
            &&& description(true, name, owner, cid) == "Protected"@ + rest
            &&& description(false, name, owner, cid) == "Non-protected"@ + rest
        }),
{
    let rest = " virtual machine \""@ + name + "\" (owner: "@ + owner + ", cid: "@ + decimal(cid)
        + ")"@;
    assert(description(true, name, owner, cid) =~= "Protected"@ + rest);
    assert(description(false, name, owner, cid) =~= "Non-protected"@ + rest);
}

/// What is said of a virtual machine is what its fields hold.
proof fn nothing_is_left_out_of_a_machine(vm: CommonVmInstance)
    ensures
        vm@.vm_state == vm.vm_state,
        vm@.cid == vm.cid,
        vm@.name == vm.name,
        vm@.protected == vm.protected,
        vm@.temporary_directory == vm.temporary_directory,
        vm@.requester_uid == vm.requester_uid,
        vm@.requester_debug_pid == vm.requester_debug_pid,
        vm@.vm_metric == vm.vm_metric,
        vm@.payload_state == vm.payload_state,
        vm@.requester_uid_name == vm.requester_uid_name,
        vm@.backend == vm.backend,
{
}

/// Where a virtual machine can go: not started to failed, failed to running, running to running in
/// the same process, anything to dead; otherwise it stays as it is.
pub proof fn machines_live_once(before: VmState, after: VmState)
    requires
        life_step(before, after),
    ensures
        before is Dead ==> after is Dead,
        before is NotStarted ==> after == before || after is Failed || after is Dead,
        before is Failed ==> after is Failed || after is Running || after is Dead,
        before is Running ==> after is Dead || after is Running && after->child == before->child,
{
}

} // verus!
