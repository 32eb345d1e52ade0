//! What happens when the process of a virtual machine ends: the virtual machine counts as dead
//! before anybody is told, and its files and network device are removed afterwards.
use crate::virtmgr::instance::{
    failure_name, report_of, CommonVmInstance, ExitReport, ReportView, VmState, VmView,
};
use crate::virtmgr::kvmtool::{ExitStatus, KvmToolVmBackend};
use vstd::prelude::*;

verus! {

/// What the monitor waits for.
#[derive(Debug)]
pub enum ExitPhase {
    /// That the process ends.
    Process,
    /// What the virtual machine reported.
    Failure { status: Option<ExitStatus> },
    /// That a ram dump was handled.
    Ramdump { status: Option<ExitStatus>, failure: String },
    /// That the clients were told.
    Report,
    /// That the temporary files were removed.
    Files,
    /// That the network device was deleted.
    Tap,
    /// Nothing: it has ended.
    Ended,
}

/// What the monitor waits for.
pub enum ExitPhaseView {
    Process,
    Failure { status: Option<ExitStatus> },
    Ramdump { status: Option<ExitStatus>, failure: Seq<char> },
    Report,
    Files,
    Tap,
    Ended,
}

impl View for ExitPhase {
    type V = ExitPhaseView;

    open spec fn view(&self) -> ExitPhaseView {
        match self {
            ExitPhase::Process => ExitPhaseView::Process,
            ExitPhase::Failure { status } => ExitPhaseView::Failure { status: *status },
            ExitPhase::Ramdump { status, failure } => ExitPhaseView::Ramdump {
                status: *status,
                failure: failure@,
            },
            ExitPhase::Report => ExitPhaseView::Report,
            ExitPhase::Files => ExitPhaseView::Files,
            ExitPhase::Tap => ExitPhaseView::Tap,
            ExitPhase::Ended => ExitPhaseView::Ended,
        }
    }
}

/// What happened to the monitor.
#[derive(Debug)]
pub enum ExitEvent {
    /// The process ended; `None` where it could not be waited for.
    Process(Option<ExitStatus>),
    /// What the virtual machine reported, as far as it could be read.
    Failure(String),
    /// A ram dump was handled, where there was one.
    Ramdump,
    /// The clients were told.
    Reported,
    /// The temporary files were removed, as far as possible.
    FilesRemoved,
    /// The network device was deleted, if possible.
    TapDeleted,
}

/// What the monitor does next.
#[derive(Debug)]
pub enum ExitAction {
    /// Reads what the virtual machine reported. Where it is known how the process ended, it is
    /// looked at first whether a processor stalled.
    ReadFailure { check_stall: bool },
    /// Handles a ram dump, where there is one.
    HandleRamdump,
    /// Tells the clients and writes the metrics.
    Report(ExitReport),
    /// Removes the temporary files.
    RemoveFiles,
    /// Deletes the network device.
    DeleteTap,
    /// Ends.
    End,
}

/// What the monitor does next.
pub enum ExitActionView {
    ReadFailure { check_stall: bool },
    HandleRamdump,
    Report(ReportView),
    RemoveFiles,
    DeleteTap,
    End,
}

impl View for ExitAction {
    type V = ExitActionView;

    open spec fn view(&self) -> ExitActionView {
        match self {
            ExitAction::ReadFailure { check_stall } => ExitActionView::ReadFailure {
                check_stall: *check_stall,
            },
            ExitAction::HandleRamdump => ExitActionView::HandleRamdump,
            ExitAction::Report(r) => ExitActionView::Report(r@),
            ExitAction::RemoveFiles => ExitActionView::RemoveFiles,
            ExitAction::DeleteTap => ExitActionView::DeleteTap,
            ExitAction::End => ExitActionView::End,
        }
    }
}

/// Whether an event is one that the monitor waits for.
pub open spec fn exit_awaits(phase: ExitPhaseView, event: ExitEvent) -> bool {
    match phase {
        ExitPhaseView::Process => event is Process,
        ExitPhaseView::Failure { .. } => event is Failure,
        ExitPhaseView::Ramdump { .. } => event is Ramdump,
        ExitPhaseView::Report => event is Reported,
        ExitPhaseView::Files => event is FilesRemoved,
        ExitPhaseView::Tap => event is TapDeleted,
        ExitPhaseView::Ended => false,
    }
}

/// What an event leads to, for a virtual machine with or without a network device: its state, what
/// the monitor waits for and what is done.
pub open spec fn exit_next(
    vm: VmView,
    tap: bool,
    phase: ExitPhaseView,
    event: ExitEvent,
) -> (VmView, ExitPhaseView, ExitActionView) {
    match (phase, event) {
        (ExitPhaseView::Process, ExitEvent::Process(status)) => (
            VmView { vm_state: VmState::Dead, ..vm },
            ExitPhaseView::Failure { status },
            ExitActionView::ReadFailure { check_stall: status is Some },
        ),
        (ExitPhaseView::Failure { status }, ExitEvent::Failure(reported)) => (
            vm,
            ExitPhaseView::Ramdump {
                status,
                failure: failure_name(reported@, vm.payload_state),
            },
            ExitActionView::HandleRamdump,
        ),
        (ExitPhaseView::Ramdump { status, failure }, ExitEvent::Ramdump) => (
            vm,
            ExitPhaseView::Report,
            ExitActionView::Report(report_of(vm, status, failure)),
        ),
        (ExitPhaseView::Report, ExitEvent::Reported) => (
            vm,
            ExitPhaseView::Files,
            ExitActionView::RemoveFiles,
        ),
        (ExitPhaseView::Files, ExitEvent::FilesRemoved) => if tap {
            (vm, ExitPhaseView::Tap, ExitActionView::DeleteTap)
        } else {
            (vm, ExitPhaseView::Ended, ExitActionView::End)
        },
        _ => (vm, ExitPhaseView::Ended, ExitActionView::End),
    }
}

/// Monitors the exit of a virtual machine that kvmtool runs.
#[derive(Debug)]
pub struct ExitMonitor {
    tap: bool,
    phase: ExitPhase,
}

impl ExitMonitor {
    pub closed spec fn has_tap(&self) -> bool {
        self.tap
    }

    pub closed spec fn spec_phase(&self) -> ExitPhaseView {
        self.phase@
    }

    /// A monitor of a virtual machine with or without a network device, which waits for the
    /// process to end.
    pub fn new(tap: bool) -> (r: ExitMonitor)
        ensures
            r.has_tap() == tap,
            r.spec_phase() == ExitPhaseView::Process,
    {
        ExitMonitor { tap, phase: ExitPhase::Process }
    }

    /// Decides what is done next.
    pub fn monitor_vm_exit(
        &mut self,
        vm: &mut CommonVmInstance,
        backend: &KvmToolVmBackend,
        event: ExitEvent,
    ) -> (r: ExitAction)
        requires
            exit_awaits(old(self).spec_phase(), event),
        ensures
            final(self).has_tap() == old(self).has_tap(),
            (final(vm)@, final(self).spec_phase(), r@) == exit_next(
                old(vm)@,
                old(self).has_tap(),
                old(self).spec_phase(),
                event,
            ),
    {
        let mut phase: ExitPhase = ExitPhase::Ended;
        core::mem::swap(&mut self.phase, &mut phase);
        match (phase, event) {
            (ExitPhase::Process, ExitEvent::Process(status)) => {
                vm.exited();
                self.phase = ExitPhase::Failure { status };
                ExitAction::ReadFailure { check_stall: status.is_some() }
            },
            (ExitPhase::Failure { status }, ExitEvent::Failure(reported)) => {
                let failure: String = vm.failure(reported);
                self.phase = ExitPhase::Ramdump { status, failure };
                ExitAction::HandleRamdump
            },
            (ExitPhase::Ramdump { status, failure }, ExitEvent::Ramdump) => {
                self.phase = ExitPhase::Report;
                ExitAction::Report(vm.exit_report(backend, &status, failure.as_str()))
            },
            (ExitPhase::Report, ExitEvent::Reported) => {
                self.phase = ExitPhase::Files;
                ExitAction::RemoveFiles
            },
            (ExitPhase::Files, ExitEvent::FilesRemoved) => {
                if self.tap {
                    self.phase = ExitPhase::Tap;
                    ExitAction::DeleteTap
                } else {
                    ExitAction::End
                }
            },
            _ => ExitAction::End,
        }
    }
}

// ---------------------------------------------------------------------------
// Laws
// ---------------------------------------------------------------------------

/// The virtual machine and what the monitor waits for and does after the given events, where only
/// the monitor changes the virtual machine.
pub open spec fn exit_after(vm: VmView, tap: bool, events: Seq<ExitEvent>) -> (
    VmView,
    ExitPhaseView,
    ExitActionView,
)
    decreases events.len(),
{
    if events.len() == 0 {
        (vm, ExitPhaseView::Process, ExitActionView::End)
    } else {
        let before = exit_after(vm, tap, events.drop_last());
        exit_next(before.0, tap, before.1, events.last())
    }
}

/// Whether each of the events was one that the monitor waited for.
pub open spec fn exit_accepts(vm: VmView, tap: bool, events: Seq<ExitEvent>) -> bool
    decreases events.len(),
{
    events.len() > 0 ==> {
        &&& exit_accepts(vm, tap, events.drop_last())
        &&& exit_awaits(exit_after(vm, tap, events.drop_last()).1, events.last())
    }
}

/// A virtual machine is dead as soon as its process has ended, before anybody is told; what is told
/// names how the process ended and what was reported of the failure; and a network device is
/// deleted exactly where there is one.
pub proof fn exits_are_reported_of_dead_machines(
    vm: VmView,
    tap: bool,
    events: Seq<ExitEvent>,
)
    requires
        exit_accepts(vm, tap, events),
    ensures
        ({
            let after = exit_after(vm, tap, events);
            &&& events.len() > 0 ==> after.0 == (VmView {
                vm_state: VmState::Dead,
                ..vm
            })
            &&& events.len() == 0 ==> after.0 == vm && after.1 is Process
            &&& after.1 matches ExitPhaseView::Failure { status } ==> events.len() == 1
                && events[0] == ExitEvent::Process(status)
            &&& after.1 matches ExitPhaseView::Ramdump { status, failure } ==> events.len() == 2
                && events[0] == ExitEvent::Process(status) && (events[1] matches ExitEvent::Failure(
                reported,
            ) && failure == failure_name(reported@, vm.payload_state))
            &&& after.2 matches ExitActionView::Report(report) ==> events.len() == 3 && (
            events[0] matches ExitEvent::Process(status) && events[1] matches ExitEvent::Failure(
                reported,
            ) && report == report_of(
                VmView { vm_state: VmState::Dead, ..vm },
                status,
                failure_name(reported@, vm.payload_state),
            ))
            &&& after.2 is DeleteTap ==> tap
            &&& after.1 is Report ==> events.len() == 3
            &&& after.1 is Files ==> events.len() == 4
            &&& after.1 is Tap ==> events.len() == 5 && tap
            &&& after.1 is Ended ==> events.len() == if tap {
                6nat
            } else {
                5nat
            }
        }),
    decreases events.len(),
{
    if events.len() > 0 {
        let before = events.drop_last();
        exits_are_reported_of_dead_machines(vm, tap, before);
        if before.len() > 0 {
            assert(before[0] == events[0]);
        }
        if before.len() > 1 {
            assert(before[1] == events[1]);
        }
    }
}

/// The exit of a virtual machine is followed up step by step: it is dead once its process has ended,
/// the failure is read, with a look for a stall where the process could be waited for, a ram dump
/// is handled, the report is made, the files are removed and a network device is deleted.
pub proof fn exits_are_followed_up(
    vm: VmView,
    tap: bool,
    status: Option<ExitStatus>,
    reported: String,
    failure: Seq<char>,
)
    ensures
        exit_next(vm, tap, ExitPhaseView::Process, ExitEvent::Process(status)) == (
            VmView { vm_state: VmState::Dead, ..vm },
            ExitPhaseView::Failure { status },
            ExitActionView::ReadFailure { check_stall: status is Some },
        ),
        exit_next(vm, tap, ExitPhaseView::Failure { status }, ExitEvent::Failure(reported)) == (
            vm,
            ExitPhaseView::Ramdump { status, failure: failure_name(reported@, vm.payload_state) },
            ExitActionView::HandleRamdump,
        ),
        exit_next(vm, tap, ExitPhaseView::Ramdump { status, failure }, ExitEvent::Ramdump) == (
            vm,
            ExitPhaseView::Report,
            ExitActionView::Report(report_of(vm, status, failure)),
        ),
        exit_next(vm, tap, ExitPhaseView::Report, ExitEvent::Reported) == (
            vm,
            ExitPhaseView::Files,
            ExitActionView::RemoveFiles,
        ),
        exit_next(vm, true, ExitPhaseView::Files, ExitEvent::FilesRemoved) == (
            vm,
            ExitPhaseView::Tap,
            ExitActionView::DeleteTap,
        ),
        exit_next(vm, false, ExitPhaseView::Files, ExitEvent::FilesRemoved) == (
            vm,
            ExitPhaseView::Ended,
            ExitActionView::End,
        ),
        exit_next(vm, tap, ExitPhaseView::Tap, ExitEvent::TapDeleted) == (
            vm,
            ExitPhaseView::Ended,
            ExitActionView::End,
        ),
{
}

/// The monitor waits for just one kind of event at a time, and for nothing once it has ended.
pub proof fn monitors_wait_for_what_they_asked_for(
    status: Option<ExitStatus>,
    failure: Seq<char>,
    event: ExitEvent,
)
    ensures
        exit_awaits(ExitPhaseView::Process, event) <==> event is Process,
        exit_awaits(ExitPhaseView::Failure { status }, event) <==> event is Failure,
        exit_awaits(ExitPhaseView::Ramdump { status, failure }, event) <==> event is Ramdump,
        exit_awaits(ExitPhaseView::Report, event) <==> event is Reported,
        exit_awaits(ExitPhaseView::Files, event) <==> event is FilesRemoved,
        exit_awaits(ExitPhaseView::Tap, event) <==> event is TapDeleted,
        !exit_awaits(ExitPhaseView::Ended, event),
{
}

/// What the monitor does is told as it is, with all of the report.
pub proof fn actions_of_the_monitor_are_told(report: ExitReport, stall: bool)
    ensures
        ExitAction::Report(report)@ matches ExitActionView::Report(r) && r.cid == report.cid
            && r.uid == report.uid && r.name == report.name@ && r.death_reason
            == report.death_reason && r.exit_signal == report.exit_signal && r.vm_metric
            == report.vm_metric,
        (ExitAction::ReadFailure { check_stall: stall })@ == (ExitActionView::ReadFailure {
            check_stall: stall,
        }),
        ExitAction::HandleRamdump@ is HandleRamdump,
        ExitAction::RemoveFiles@ is RemoveFiles,
        ExitAction::DeleteTap@ is DeleteTap,
        ExitAction::End@ is End,
{
}

} // verus!
