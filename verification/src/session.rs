//! The session lifecycle: `Idle`, `Starting`, `Active`, `Stopping` and back
//! to `Idle`. The machine says which step comes next; the caller performs
//! it and reports how it went.

use crate::config::{Config, StartArgs};
use crate::pomodoro::{plan_session, planned, Refusal, SessionPlan};
use crate::span::ValidationError;
use vstd::prelude::*;

verus! {

/// Where a session stands.
#[derive(Debug, Clone, Copy, PartialEq, Eq, Structural)]
pub enum Phase {
    Idle,
    Starting,
    Active,
    Stopping,
}

/// One step of a session, for the caller to perform.
#[derive(Debug, Clone, Copy, PartialEq, Eq, Structural)]
pub enum Step {
    /// Back up the hosts file and write the overlay.
    BlockWebsites,
    /// Terminate the applications on the block list.
    BlockApplications,
    /// Mute the audio.
    Mute,
    /// Post the notice to the webhook.
    Notify,
    /// Write the marker file with the process id.
    WriteMarker,
    /// Open the log row with the task and the start time.
    OpenLog,
    /// Install the cancellation signal of the session.
    InstallCancellation,
    /// Sleep through the schedule, racing the cancellation signal.
    RunSchedule,
    /// Publish the cancellation signal, if one is installed.
    PublishCancellation,
    /// Restore the hosts file from the backup.
    UnblockWebsites,
    /// Nothing to do: terminated applications are not started again.
    UnblockApplications,
    /// Unmute the audio.
    Unmute,
    /// Delete the marker file.
    RemoveMarker,
    /// Close the log row with the end time.
    CloseLog,
}

/// How a step went.
#[derive(Debug, Clone, Copy, PartialEq, Eq, Structural)]
pub enum Outcome {
    Done,
    Failed,
}

/// What the caller is to do.
#[derive(Debug, Clone, Copy, PartialEq, Eq, Structural)]
pub enum Directive {
    /// Perform this step and report its outcome.
    Perform(Step),
    /// Give up: this step failed and the session cannot go on. What was
    /// written so far stays, for a later stop to undo.
    Abort(Step),
    /// Nothing is left to do.
    Finished,
}

/// Why a session did not start.
#[derive(Debug, Clone, PartialEq, Eq)]
pub enum StartError {
    /// A session is under way already.
    Busy,
    /// A duration text cannot be used. Nothing was changed.
    Invalid(ValidationError),
}

/// The phase that a step belongs to.
pub open spec fn phase_of(step: Step) -> Phase {
    match step {
        Step::BlockWebsites
        | Step::BlockApplications
        | Step::Mute
        | Step::Notify
        | Step::WriteMarker
        | Step::OpenLog
        | Step::InstallCancellation => Phase::Starting,
        Step::RunSchedule => Phase::Active,
        Step::PublishCancellation
        | Step::UnblockWebsites
        | Step::UnblockApplications
        | Step::Unmute
        | Step::RemoveMarker
        | Step::CloseLog => Phase::Stopping,
    }
}

/// Whether a failure of the step ends the session: failures to read or
/// write the hosts file, the backup, the marker or the log do, and so does
/// a cancellation signal that cannot be installed. Failures to terminate,
/// to mute or to notify are warnings.
pub open spec fn is_fatal(step: Step) -> bool {
    match step {
        Step::BlockWebsites
        | Step::WriteMarker
        | Step::OpenLog
        | Step::InstallCancellation
        | Step::UnblockWebsites
        | Step::RemoveMarker
        | Step::CloseLog => true,
        _ => false,
    }
}

/// The step after `step`. The notice is posted only where the request
/// names a webhook; marker and log row are dealt with at the end only where
/// a session has them open.
pub open spec fn following(step: Step, notify: bool, open: bool) -> Option<Step> {
    match step {
        Step::BlockWebsites => Some(Step::BlockApplications),
        Step::BlockApplications => Some(Step::Mute),
        Step::Mute => if notify {
            Some(Step::Notify)
        } else {
            Some(Step::WriteMarker)
        },
        Step::Notify => Some(Step::WriteMarker),
        Step::WriteMarker => Some(Step::OpenLog),
        Step::OpenLog => Some(Step::InstallCancellation),
        Step::InstallCancellation => Some(Step::RunSchedule),
        Step::RunSchedule => Some(Step::PublishCancellation),
        Step::PublishCancellation => Some(Step::UnblockWebsites),
        Step::UnblockWebsites => Some(Step::UnblockApplications),
        Step::UnblockApplications => Some(Step::Unmute),
        Step::Unmute => if open {
            Some(Step::RemoveMarker)
        } else {
            None
        },
        Step::RemoveMarker => Some(Step::CloseLog),
        Step::CloseLog => None,
    }
}

/// How many steps can still follow `step`; it falls with every step.
pub open spec fn steps_left(step: Step) -> nat {
    match step {
        Step::BlockWebsites => 13,
        Step::BlockApplications => 12,
        Step::Mute => 11,
        Step::Notify => 10,
        Step::WriteMarker => 9,
        Step::OpenLog => 8,
        Step::InstallCancellation => 7,
        Step::RunSchedule => 6,
        Step::PublishCancellation => 5,
        Step::UnblockWebsites => 4,
        Step::UnblockApplications => 3,
        Step::Unmute => 2,
        Step::RemoveMarker => 1,
        Step::CloseLog => 0,
    }
}

/// The lifecycle of a session.
#[derive(Debug, Clone, Copy, PartialEq, Eq, Structural)]
pub struct Session {
    /// The step that is being performed; `None` when idle.
    pub current: Option<Step>,
    /// Whether the request names a webhook.
    pub notify: bool,
    /// Whether a session has its marker and its log row open.
    pub open: bool,
}

impl Session {
    /// Where the session stands: idle when no step is due, else in the
    /// phase of the step that is.
    pub open spec fn phase(self) -> Phase {
        match self.current {
            None => Phase::Idle,
            Some(step) => phase_of(step),
        }
    }

    /// An idle session.
    pub open spec fn idle() -> Session {
        Session { current: None, notify: false, open: false }
    }

    /// The session once a start was asked for and validated. An idle
    /// session begins to start; a session under way is left as it is.
    pub open spec fn started(self, notify: bool) -> Session {
        if self.current is None {
            Session { current: Some(Step::BlockWebsites), notify, open: true }
        } else {
            self
        }
    }

    /// The session once a stop was asked for. An idle session begins to
    /// stop, and deals with marker and log row only where the marker shows
    /// that a session has them open. A session under way is left as it is:
    /// its own schedule ends when the cancellation signal is published.
    pub open spec fn stop_asked(self, marker_present: bool) -> Session {
        if self.current is None {
            Session { current: Some(Step::PublishCancellation), notify: false, open: marker_present }
        } else {
            self
        }
    }

    /// The session after the step that was due has ended with `outcome`. A
    /// fatal failure ends the session then and there; else the following
    /// step is due, or none after the last.
    pub open spec fn after(self, outcome: Outcome) -> Session {
        match self.current {
            None => self,
            Some(step) => if outcome == Outcome::Failed && is_fatal(step) {
                Session::idle()
            } else {
                match following(step, self.notify, self.open) {
                    Some(next) => Session { current: Some(next), ..self },
                    None => Session::idle(),
                }
            },
        }
    }

    /// What the caller is to do after the step that was due has ended with
    /// `outcome`.
    pub open spec fn told_after(self, outcome: Outcome) -> Directive {
        match self.current {
            None => Directive::Finished,
            Some(step) => if outcome == Outcome::Failed && is_fatal(step) {
                Directive::Abort(step)
            } else {
                self.after(outcome).told()
            },
        }
    }

    /// What the caller is to do now.
    pub open spec fn told(self) -> Directive {
        match self.current {
            Some(step) => Directive::Perform(step),
            None => Directive::Finished,
        }
    }

    /// Creates an idle session.
    pub fn new() -> (session: Session)
        ensures
            session == Session::idle(),
    {
        Session { current: None, notify: false, open: false }
    }

    /// Where the session stands.
    pub fn current_phase(&self) -> (phase: Phase)
        ensures
            phase == self.phase(),
    {
        match self.current {
            None => Phase::Idle,
            Some(step) => match step {
                Step::BlockWebsites
                | Step::BlockApplications
                | Step::Mute
                | Step::Notify
                | Step::WriteMarker
                | Step::OpenLog
                | Step::InstallCancellation => Phase::Starting,
                Step::RunSchedule => Phase::Active,
                Step::PublishCancellation
                | Step::UnblockWebsites
                | Step::UnblockApplications
                | Step::Unmute
                | Step::RemoveMarker
                | Step::CloseLog => Phase::Stopping,
            },
        }
    }

    /// What the caller is to do now.
    pub fn directive(&self) -> (directive: Directive)
        ensures
            directive == self.told(),
    {
        match self.current {
            Some(step) => Directive::Perform(step),
            None => Directive::Finished,
        }
    }

    /// Takes a start request. Every duration text is validated first: where
    /// one cannot be used the session stays idle and no step is handed out.
    /// On success the session is starting, its first step is due, and the
    /// timing of the session is returned.
    pub fn start(&mut self, args: &StartArgs, config: &Config) -> (plan: Result<
        SessionPlan,
        StartError,
    >)
        ensures
            match plan {
                Ok(p) => {
                    &&& old(self).current is None
                    &&& planned(*args, *config) == Ok::<SessionPlan, Refusal>(p)
                    &&& *final(self) == old(self).started(args.slack_webhook_url is Some)
                },
                Err(StartError::Busy) => old(self).current is Some && *final(self) == *old(self),
                Err(StartError::Invalid(error)) => {
                    &&& old(self).current is None
                    &&& planned(*args, *config) == Err::<SessionPlan, Refusal>(
                        Refusal {
                            field: error.field,
                            from_config: error.from_config,
                            value: error.value@,
                        },
                    )
                    &&& *final(self) == *old(self)
                },
            },
    {
        if self.current.is_some() {
            return Err(StartError::Busy);
        }
        match plan_session(args, config) {
            Err(error) => Err(StartError::Invalid(error)),
            Ok(plan) => {
                self.current = Some(Step::BlockWebsites);
                self.notify = args.slack_webhook_url.is_some();
                self.open = true;
                Ok(plan)
            },
        }
    }

    /// Takes a stop request. `marker_present` says whether the marker file
    /// of a session exists.
    pub fn stop(&mut self, marker_present: bool) -> (directive: Directive)
        ensures
            *final(self) == old(self).stop_asked(marker_present),
            directive == final(self).told(),
    {
        if self.current.is_none() {
            self.current = Some(Step::PublishCancellation);
            self.notify = false;
            self.open = marker_present;
        }
        self.directive()
    }

    /// Takes the outcome of the step that was due and says what to do next.
    pub fn advance(&mut self, outcome: Outcome) -> (directive: Directive)
        ensures
            *final(self) == old(self).after(outcome),
            directive == old(self).told_after(outcome),
    {
        let step = match self.current {
            None => {
                return Directive::Finished;
            },
            Some(step) => step,
        };
        let fatal = match step {
            Step::BlockWebsites
            | Step::WriteMarker
            | Step::OpenLog
            | Step::InstallCancellation
            | Step::UnblockWebsites
            | Step::RemoveMarker
            | Step::CloseLog => true,
            _ => false,
        };
        if fatal && outcome == Outcome::Failed {
            self.current = None;
            self.notify = false;
            self.open = false;
            return Directive::Abort(step);
        }
        let next = match step {
            Step::BlockWebsites => Some(Step::BlockApplications),
            Step::BlockApplications => Some(Step::Mute),
            Step::Mute => if self.notify {
                Some(Step::Notify)
            } else {
                Some(Step::WriteMarker)
            },
            Step::Notify => Some(Step::WriteMarker),
            Step::WriteMarker => Some(Step::OpenLog),
            Step::OpenLog => Some(Step::InstallCancellation),
            Step::InstallCancellation => Some(Step::RunSchedule),
            Step::RunSchedule => Some(Step::PublishCancellation),
            Step::PublishCancellation => Some(Step::UnblockWebsites),
            Step::UnblockWebsites => Some(Step::UnblockApplications),
            Step::UnblockApplications => Some(Step::Unmute),
            Step::Unmute => if self.open {
                Some(Step::RemoveMarker)
            } else {
                None
            },
            Step::RemoveMarker => Some(Step::CloseLog),
            Step::CloseLog => None,
        };
        match next {
            Some(step) => {
                self.current = Some(step);
            },
            None => {
                self.current = None;
                self.notify = false;
                self.open = false;
            },
        }
        self.directive()
    }
}

/// Whether a session may pass from one phase to another in one step: it
/// stays, moves on to the next phase, or falls back to idle.
pub open spec fn may_pass(from: Phase, to: Phase) -> bool {
    ||| to == from
    ||| to == Phase::Idle
    ||| from == Phase::Idle && to == Phase::Starting
    ||| from == Phase::Idle && to == Phase::Stopping
    ||| from == Phase::Starting && to == Phase::Active
    ||| from == Phase::Active && to == Phase::Stopping
}

/// The phases follow each other in the one order: from idle to starting
/// (or, on a stop request, straight to stopping), from starting to active,
/// from active to stopping, and from anywhere back to idle.
pub proof fn lemma_phases_in_order(session: Session, outcome: Outcome, notify: bool, marker: bool)
    ensures
        may_pass(session.phase(), session.after(outcome).phase()),
        may_pass(session.phase(), session.started(notify).phase()),
        may_pass(session.phase(), session.stop_asked(marker).phase()),
{
}

/// Every run comes to an end: each step leaves fewer steps to follow.
pub proof fn lemma_steps_run_out(session: Session, outcome: Outcome)
    requires
        session.current is Some,
    ensures
        session.after(outcome).current matches Some(next) ==> steps_left(next) < steps_left(
            session.current->0,
        ),
{
}

/// The schedule runs only once every starting step is through: the step
/// before it installs the cancellation signal, and no failure of a step
/// that must not fail lets the session reach it.
pub proof fn lemma_active_only_after_start(session: Session, outcome: Outcome)
    requires
        session.after(outcome).current == Some(Step::RunSchedule),
    ensures
        session.current == Some(Step::InstallCancellation),
        outcome == Outcome::Done,
{
}

/// The hosts file is restored whenever a session that became active ends:
/// after the schedule the cancellation signal is published, whatever the
/// outcome, and the restore follows.
pub proof fn lemma_active_session_is_undone(session: Session, first: Outcome, second: Outcome)
    requires
        session.current == Some(Step::RunSchedule),
    ensures
        session.after(first).current == Some(Step::PublishCancellation),
        session.after(first).after(second).current == Some(Step::UnblockWebsites),
{
}

/// A stop request on an idle session with no marker in place goes through
/// cancellation, restore, unblocking and unmuting, and then is finished: it
/// never comes to the marker or the log.
pub proof fn lemma_stop_without_session_skips_marker_and_log(
    a: Outcome,
    b: Outcome,
    c: Outcome,
    d: Outcome,
)
    requires
        b == Outcome::Done,
    ensures
        ({
            let s0 = Session::idle().stop_asked(false);
            let s1 = s0.after(a);
            let s2 = s1.after(b);
            let s3 = s2.after(c);
            let s4 = s3.after(d);
            &&& s0.current == Some(Step::PublishCancellation)
            &&& s1.current == Some(Step::UnblockWebsites)
            &&& s2.current == Some(Step::UnblockApplications)
            &&& s3.current == Some(Step::Unmute)
            &&& s4 == Session::idle()
        }),
{
}

/// A second stop request finds the session where the first one left it: a
/// stop that ran to its end leaves an idle session, on which stopping
/// starts over in the same way.
pub proof fn lemma_stop_is_repeatable(session: Session, marker: bool)
    requires
        session.current is None,
    ensures
        session.stop_asked(marker) == Session::idle().stop_asked(marker),
        session.stop_asked(marker).stop_asked(marker) == session.stop_asked(marker),
{
}

/// A failed step that is only worth a warning never ends the session: the
/// following step is the same as after success.
pub proof fn lemma_warnings_do_not_stop(session: Session)
    requires
        session.current matches Some(step) && !is_fatal(step),
    ensures
        session.after(Outcome::Failed) == session.after(Outcome::Done),
        !(session.told_after(Outcome::Failed) is Abort),
{
}

} // verus!
