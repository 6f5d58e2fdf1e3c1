//! The order of an over-the-air update: check the running boot, read the
//! release's version, compare it with the installed one, stage and check
//! the layers, write the inactive slot, remember the version, reboot into
//! the new slot. Each step's outside work is done by the caller, which
//! hands its outcome back as the next [`UpdateEvent`].

use vstd::prelude::*;

use crate::ota::{healthy, report, verify_boot_healthy};
use crate::state::State;
use crate::text;

verus! {

/// Where an update stands.
pub enum UpdatePhase {
    Start,
    AwaitHealth,
    AwaitManifest,
    AwaitState { version: String },
    AwaitStaging { version: String },
    AwaitApply { version: String },
    AwaitStateWrite { version: String },
    AwaitReboot,
    Finished,
}

pub enum PhaseModel {
    Start,
    AwaitHealth,
    AwaitManifest,
    AwaitState { version: Seq<char> },
    AwaitStaging { version: Seq<char> },
    AwaitApply { version: Seq<char> },
    AwaitStateWrite { version: Seq<char> },
    AwaitReboot,
    Finished,
}

impl View for UpdatePhase {
    type V = PhaseModel;

    open spec fn view(&self) -> PhaseModel {
        match self {
            UpdatePhase::Start => PhaseModel::Start,
            UpdatePhase::AwaitHealth => PhaseModel::AwaitHealth,
            UpdatePhase::AwaitManifest => PhaseModel::AwaitManifest,
            UpdatePhase::AwaitState { version } => PhaseModel::AwaitState { version: version@ },
            UpdatePhase::AwaitStaging { version } => PhaseModel::AwaitStaging { version: version@ },
            UpdatePhase::AwaitApply { version } => PhaseModel::AwaitApply { version: version@ },
            UpdatePhase::AwaitStateWrite { version } => PhaseModel::AwaitStateWrite {
                version: version@,
            },
            UpdatePhase::AwaitReboot => PhaseModel::AwaitReboot,
            UpdatePhase::Finished => PhaseModel::Finished,
        }
    }
}

/// The outcome of a step's outside work.
pub enum UpdateEvent {
    /// The update was asked for.
    Begin,
    /// What `systemctl is-system-running` printed.
    Health(String),
    /// The release's version, or why the manifest or version could not be had.
    Manifest(Result<String, String>),
    /// The state of the last update, where it could be read.
    CurrentState(Option<State>),
    /// The layers were pulled into the staging directory and their
    /// checksums checked.
    Staged(Result<(), String>),
    /// The inactive slot was written.
    Applied(Result<(), String>),
    /// The new version was remembered.
    StateWritten(Result<(), String>),
    /// The tryboot reboot was started.
    Rebooted(Result<(), String>),
}

/// The outside work to do next.
pub enum UpdateCommand {
    /// Nothing: the event was not the one awaited.
    Wait,
    /// Run `systemctl is-system-running`; answer `Health`.
    CheckHealth,
    /// Fetch the manifest and read its version; answer `Manifest`.
    FetchManifest,
    /// Read the state file; answer `CurrentState`.
    ReadState,
    /// Clear the staging directory, pull the layers, check their sums;
    /// answer `Staged`.
    Stage,
    /// Write the staged release to the inactive slot; answer `Applied`.
    Apply,
    /// Remember `version`; answer `StateWritten`.
    WriteState { version: String },
    /// Reboot into the other slot; answer `Rebooted`.
    Reboot,
    /// The update is over, with this outcome.
    Done(Result<(), String>),
}

pub enum CommandModel {
    Wait,
    CheckHealth,
    FetchManifest,
    ReadState,
    Stage,
    Apply,
    WriteState { version: Seq<char> },
    Reboot,
    Done(Result<(), Seq<char>>),
}

pub open spec fn result_view(r: Result<(), String>) -> Result<(), Seq<char>> {
    match r {
        Ok(()) => Ok(()),
        Err(e) => Err(e@),
    }
}

impl View for UpdateCommand {
    type V = CommandModel;

    open spec fn view(&self) -> CommandModel {
        match self {
            UpdateCommand::Wait => CommandModel::Wait,
            UpdateCommand::CheckHealth => CommandModel::CheckHealth,
            UpdateCommand::FetchManifest => CommandModel::FetchManifest,
            UpdateCommand::ReadState => CommandModel::ReadState,
            UpdateCommand::Stage => CommandModel::Stage,
            UpdateCommand::Apply => CommandModel::Apply,
            UpdateCommand::WriteState { version } => CommandModel::WriteState { version: version@ },
            UpdateCommand::Reboot => CommandModel::Reboot,
            UpdateCommand::Done(r) => CommandModel::Done(result_view(*r)),
        }
    }
}

/// The refusal text for an unhealthy boot whose status is `status`.
pub open spec fn unhealthy_message(status: Seq<char>) -> Seq<char> {
    "current boot is unhealthy ("@ + status
        + "); refusing to update (use --force to override)"@
}

/// The next phase and command, from phase `p` on event `e`; `force` skips
/// the health check.
pub open spec fn update_next(force: bool, p: PhaseModel, e: UpdateEvent) -> (PhaseModel, CommandModel) {
    match (p, e) {
        (PhaseModel::Start, UpdateEvent::Begin) => if force {
            (PhaseModel::AwaitManifest, CommandModel::FetchManifest)
        } else {
            (PhaseModel::AwaitHealth, CommandModel::CheckHealth)
        },
        (PhaseModel::AwaitHealth, UpdateEvent::Health(out)) => {
            let status = text::trim(out@);
            if healthy(status) {
                (PhaseModel::AwaitManifest, CommandModel::FetchManifest)
            } else {
                (PhaseModel::Finished, CommandModel::Done(Err(unhealthy_message(status))))
            }
        },
        (PhaseModel::AwaitManifest, UpdateEvent::Manifest(Ok(v))) => (
            PhaseModel::AwaitState { version: v@ },
            CommandModel::ReadState,
        ),
        (PhaseModel::AwaitManifest, UpdateEvent::Manifest(Err(m))) => (
            PhaseModel::Finished,
            CommandModel::Done(Err(m@)),
        ),
        (PhaseModel::AwaitState { version }, UpdateEvent::CurrentState(st)) => {
            let current = match st {
                Some(s) => s.current_version@,
                None => Seq::empty(),
            };
            if version == current {
                (PhaseModel::Finished, CommandModel::Done(Ok(())))
            } else {
                (PhaseModel::AwaitStaging { version }, CommandModel::Stage)
            }
        },
        (PhaseModel::AwaitStaging { version }, UpdateEvent::Staged(r)) => match r {
            Ok(()) => (PhaseModel::AwaitApply { version }, CommandModel::Apply),
            Err(m) => (PhaseModel::Finished, CommandModel::Done(Err(m@))),
        },
        (PhaseModel::AwaitApply { version }, UpdateEvent::Applied(r)) => match r {
            Ok(()) => (
                PhaseModel::AwaitStateWrite { version },
                CommandModel::WriteState { version },
            ),
            Err(m) => (PhaseModel::Finished, CommandModel::Done(Err(m@))),
        },
        (PhaseModel::AwaitStateWrite { .. }, UpdateEvent::StateWritten(r)) => match r {
            Ok(()) => (PhaseModel::AwaitReboot, CommandModel::Reboot),
            Err(m) => (PhaseModel::Finished, CommandModel::Done(Err(m@))),
        },
        (PhaseModel::AwaitReboot, UpdateEvent::Rebooted(r)) => (
            PhaseModel::Finished,
            CommandModel::Done(result_view(r)),
        ),
        (p, _) => (p, CommandModel::Wait),
    }
}

/// An update in progress.
pub struct UpdateFlow {
    /// Update even from an unhealthy boot.
    pub force: bool,
    pub phase: UpdatePhase,
}

impl UpdateFlow {
    /// An update that has not started.
    pub fn new(force: bool) -> (res: UpdateFlow)
        ensures
            res.force == force,
            res.phase@ == PhaseModel::Start,
    {
        UpdateFlow { force, phase: UpdatePhase::Start }
    }

    /// Takes in the outcome of the last command; returns the next one.
    pub fn step(&mut self, event: UpdateEvent) -> (res: UpdateCommand)
        ensures
            final(self).force == old(self).force,
            (final(self).phase@, res@) == update_next(old(self).force, old(self).phase@, event),
    {
        let mut phase = UpdatePhase::Finished;
        std::mem::swap(&mut phase, &mut self.phase);
        let (next, cmd) = match (phase, event) {
            (UpdatePhase::Start, UpdateEvent::Begin) => if self.force {
                (UpdatePhase::AwaitManifest, UpdateCommand::FetchManifest)
            } else {
                (UpdatePhase::AwaitHealth, UpdateCommand::CheckHealth)
            },
            (UpdatePhase::AwaitHealth, UpdateEvent::Health(out)) => match verify_boot_healthy(
                out.as_str(),
            ) {
                Ok(()) => (UpdatePhase::AwaitManifest, UpdateCommand::FetchManifest),
                Err(m) => (UpdatePhase::Finished, UpdateCommand::Done(Err(m))),
            },
            (UpdatePhase::AwaitManifest, UpdateEvent::Manifest(Ok(v))) => (
                UpdatePhase::AwaitState { version: v },
                UpdateCommand::ReadState,
            ),
            (UpdatePhase::AwaitManifest, UpdateEvent::Manifest(Err(m))) => (
                UpdatePhase::Finished,
                UpdateCommand::Done(Err(m)),
            ),
            (UpdatePhase::AwaitState { version }, UpdateEvent::CurrentState(st)) => {
                let state = State::read_or_default(st);
                if crate::ota::needs_update(version.as_str(), state.current_version.as_str()) {
                    (UpdatePhase::AwaitStaging { version }, UpdateCommand::Stage)
                } else {
                    (UpdatePhase::Finished, UpdateCommand::Done(Ok(())))
                }
            },
            (UpdatePhase::AwaitStaging { version }, UpdateEvent::Staged(r)) => match r {
                Ok(()) => (UpdatePhase::AwaitApply { version }, UpdateCommand::Apply),
                Err(m) => (UpdatePhase::Finished, UpdateCommand::Done(Err(m))),
            },
            (UpdatePhase::AwaitApply { version }, UpdateEvent::Applied(r)) => match r {
                Ok(()) => {
                    let v = version.clone();
                    (UpdatePhase::AwaitStateWrite { version }, UpdateCommand::WriteState { version: v })
                },
                Err(m) => (UpdatePhase::Finished, UpdateCommand::Done(Err(m))),
            },
            (UpdatePhase::AwaitStateWrite { .. }, UpdateEvent::StateWritten(r)) => match r {
                Ok(()) => (UpdatePhase::AwaitReboot, UpdateCommand::Reboot),
                Err(m) => (UpdatePhase::Finished, UpdateCommand::Done(Err(m))),
            },
            (UpdatePhase::AwaitReboot, UpdateEvent::Rebooted(r)) => (
                UpdatePhase::Finished,
                UpdateCommand::Done(r),
            ),
            (p, _) => (p, UpdateCommand::Wait),
        };
        self.phase = next;
        cmd
    }
}

/// Without `force`, nothing is fetched before the running boot was found
/// healthy, and an unhealthy boot ends the update with its refusal.
pub proof fn law_health_checked_first(out: String)
    ensures
        update_next(false, PhaseModel::Start, UpdateEvent::Begin).1 == CommandModel::CheckHealth,
        !healthy(text::trim(out@)) ==> update_next(
            false,
            PhaseModel::AwaitHealth,
            UpdateEvent::Health(out),
        ) == (
            PhaseModel::Finished,
            CommandModel::Done(Err(unhealthy_message(text::trim(out@)))),
        ),
        healthy(text::trim(out@)) ==> update_next(
            false,
            PhaseModel::AwaitHealth,
            UpdateEvent::Health(out),
        ) == (PhaseModel::AwaitManifest, CommandModel::FetchManifest),
{
}

/// A release whose version is the one installed is not staged: the update
/// ends at once, successfully.
pub proof fn law_no_update_when_current(force: bool, version: Seq<char>, st: Option<State>)
    requires
        version == (match st {
            Some(s) => s.current_version@,
            None => Seq::<char>::empty(),
        }),
    ensures
        update_next(force, PhaseModel::AwaitState { version }, UpdateEvent::CurrentState(st)) == (
            PhaseModel::Finished,
            CommandModel::Done(Ok(())),
        ),
{
}

/// The slot is written only once the layers were staged and checked; the
/// version is remembered only once the slot was written, and it is the
/// version read from the manifest; the reboot comes only after that.
pub proof fn law_writes_in_order(force: bool, p: PhaseModel, e: UpdateEvent)
    ensures
        update_next(force, p, e).1 is Apply ==> p is AwaitStaging && e matches UpdateEvent::Staged(
            Ok(()),
        ),
        update_next(force, p, e).1 matches CommandModel::WriteState { version } ==> p
            == (PhaseModel::AwaitApply { version }) && e matches UpdateEvent::Applied(Ok(())),
        update_next(force, p, e).1 is Reboot ==> p is AwaitStateWrite
            && e matches UpdateEvent::StateWritten(Ok(())),
        update_next(force, p, e).1 is Stage ==> p is AwaitState,
{
}

/// A finished update stays finished.
pub proof fn law_finished_is_final(force: bool, e: UpdateEvent)
    ensures
        update_next(force, PhaseModel::Finished, e) == (PhaseModel::Finished, CommandModel::Wait),
{
}

/// `check` and `update` agree: `check` reports the release up to date
/// exactly when `update`, at the same versions, ends without staging.
pub proof fn law_check_agrees_with_update(force: bool, version: Seq<char>, st: Option<State>)
    ensures
        ({
            let current = match st {
                Some(s) => s.current_version@,
                None => Seq::<char>::empty(),
            };
            (report(version, current) == "up-to-date"@) <==> update_next(
                force,
                PhaseModel::AwaitState { version },
                UpdateEvent::CurrentState(st),
            ) == (PhaseModel::Finished, CommandModel::Done(Ok(())))
        }),
{
    reveal_strlit("up-to-date");
    reveal_strlit("update-available ");
    let current = match st {
        Some(s) => s.current_version@,
        None => Seq::<char>::empty(),
    };
    if version != current {
        assert(report(version, current).len() != "up-to-date"@.len());
    }
}

/// The tryboot reboot decides how the update ends: the update is over, and
/// its outcome is the reboot's, a failure with the reboot's own words.
pub proof fn law_reboot_outcome_ends_update(force: bool, r: Result<(), String>)
    ensures
        update_next(force, PhaseModel::AwaitReboot, UpdateEvent::Rebooted(r)).0 is Finished,
        r matches Err(m) ==> update_next(force, PhaseModel::AwaitReboot, UpdateEvent::Rebooted(r)).1
            == CommandModel::Done(Err(m@)),
        r is Ok ==> update_next(force, PhaseModel::AwaitReboot, UpdateEvent::Rebooted(r)).1
            == CommandModel::Done(Ok(())),
{
}

/// An update reports success only once the tryboot reboot was started, or
/// where the release is the one already installed.
pub proof fn law_success_only_after_reboot_or_current(force: bool, p: PhaseModel, e: UpdateEvent)
    ensures
        update_next(force, p, e).1 == CommandModel::Done(Ok(())) ==> (p is AwaitReboot
            && e matches UpdateEvent::Rebooted(Ok(()))) || (p is AwaitState && e is CurrentState),
{
}

/// Each step's failure ends the update with that failure's own words.
pub proof fn law_step_failures_end_update(force: bool, version: Seq<char>, m: String)
    ensures
        update_next(force, PhaseModel::AwaitManifest, UpdateEvent::Manifest(Err(m))) == (
            PhaseModel::Finished,
            CommandModel::Done(Err(m@)),
        ),
        update_next(force, PhaseModel::AwaitStaging { version }, UpdateEvent::Staged(Err(m))) == (
            PhaseModel::Finished,
            CommandModel::Done(Err(m@)),
        ),
        update_next(force, PhaseModel::AwaitApply { version }, UpdateEvent::Applied(Err(m))) == (
            PhaseModel::Finished,
            CommandModel::Done(Err(m@)),
        ),
        update_next(force, PhaseModel::AwaitStateWrite { version }, UpdateEvent::StateWritten(Err(m)))
            == (PhaseModel::Finished, CommandModel::Done(Err(m@))),
{
}

/// From a healthy boot (or with `force`), a release whose version differs
/// from the installed one is fetched, staged, written, remembered under
/// that version, and booted into, in this order; the update then ends with
/// the reboot's outcome.
pub proof fn law_update_runs_in_order(
    force: bool,
    out: String,
    v: String,
    st: Option<State>,
    r: Result<(), String>,
)
    requires
        force || text::trim(out@) == "running"@ || text::trim(out@) == "degraded"@,
        v@ != (match st {
            Some(s) => s.current_version@,
            None => Seq::<char>::empty(),
        }),
    ensures
        ({
            let (p0, c0) = update_next(force, PhaseModel::Start, UpdateEvent::Begin);
            let (p1, c1) = if force {
                (p0, c0)
            } else {
                update_next(force, p0, UpdateEvent::Health(out))
            };
            let (p2, c2) = update_next(force, p1, UpdateEvent::Manifest(Ok(v)));
            let (p3, c3) = update_next(force, p2, UpdateEvent::CurrentState(st));
            let (p4, c4) = update_next(force, p3, UpdateEvent::Staged(Ok(())));
            let (p5, c5) = update_next(force, p4, UpdateEvent::Applied(Ok(())));
            let (p6, c6) = update_next(force, p5, UpdateEvent::StateWritten(Ok(())));
            let (p7, c7) = update_next(force, p6, UpdateEvent::Rebooted(r));
            &&& c0 == (if force { CommandModel::FetchManifest } else { CommandModel::CheckHealth })
            &&& c1 == CommandModel::FetchManifest
            &&& c2 == CommandModel::ReadState
            &&& c3 == CommandModel::Stage
            &&& c4 == CommandModel::Apply
            &&& c5 == (CommandModel::WriteState { version: v@ })
            &&& c6 == CommandModel::Reboot
            &&& p7 is Finished
            &&& c7 == CommandModel::Done(
                match r {
                    Ok(()) => Ok(()),
                    Err(m) => Err(m@),
                },
            )
        }),
{
    reveal_strlit("running");
    reveal_strlit("degraded");
}

} // verus!
