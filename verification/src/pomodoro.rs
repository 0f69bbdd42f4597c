//! The timing of a session: how many Pomodoro cycles fit, which intervals
//! follow each other, and a scheduler that walks them and stops at once when
//! the session is cancelled.

use crate::config::{Config, StartArgs};
use crate::span::{parse_span, span_of, DurationField, Span, ValidationError};
use vstd::prelude::*;

verus! {

/// The Pomodoro part of a plan.
#[derive(Debug, Clone, Copy, PartialEq, Eq, Structural)]
pub struct PomodoroPlan {
    pub work: Span,
    pub short_break: Span,
    pub long_break: Span,
    /// The cycles that were asked for.
    pub cycles: u32,
    /// The cycles that will run: those asked for that fit into the session.
    pub actual_cycles: u32,
}

/// The timing of a session. Without a Pomodoro part the session is one
/// stretch of `duration`.
#[derive(Debug, Clone, Copy, PartialEq, Eq, Structural)]
pub struct SessionPlan {
    pub duration: Span,
    pub pomodoro: Option<PomodoroPlan>,
}

/// What an interval is for.
#[derive(Debug, Clone, Copy, PartialEq, Eq, Structural)]
pub enum IntervalKind {
    /// The whole session, where no Pomodoro timing is used.
    Focus,
    Work,
    ShortBreak,
    LongBreak,
}

/// One stretch of sleeping. `cycle` counts from 1; it is 0 for `Focus`.
#[derive(Debug, Clone, Copy, PartialEq, Eq, Structural)]
pub struct Interval {
    pub kind: IntervalKind,
    pub cycle: u32,
    pub length: Span,
}

/// How a sleep ended.
#[derive(Debug, Clone, Copy, PartialEq, Eq, Structural)]
pub enum SleepOutcome {
    /// The time was up.
    Elapsed,
    /// The cancellation signal came first.
    Cancelled,
}

/// The length of one cycle in nanoseconds: work and short break.
pub open spec fn cycle_nanos(work: Span, short_break: Span) -> nat {
    work.total_nanos() + short_break.total_nanos()
}

/// How many full cycles of work and short break fit into `duration`, but at
/// least 1.
pub open spec fn max_sessions(duration: Span, work: Span, short_break: Span) -> nat
    recommends
        cycle_nanos(work, short_break) > 0,
{
    let fit = duration.total_nanos() / cycle_nanos(work, short_break);
    if fit >= 1 {
        fit
    } else {
        1
    }
}

/// The cycles that run: the cycles asked for, bounded by `max_sessions`.
/// Cycles of no length at all are not bounded by the duration.
pub open spec fn fitting_cycles(duration: Span, work: Span, short_break: Span, cycles: u32) -> nat {
    if cycle_nanos(work, short_break) == 0 {
        cycles as nat
    } else if cycles <= max_sessions(duration, work, short_break) {
        cycles as nat
    } else {
        max_sessions(duration, work, short_break)
    }
}

/// Computes the cycles that run.
pub fn count_cycles(duration: Span, work: Span, short_break: Span, cycles: u32) -> (actual: u32)
    ensures
        actual == fitting_cycles(duration, work, short_break, cycles),
        actual <= cycles,
{
    let cycle: u128 = work.nanos_total() + short_break.nanos_total();
    if cycle == 0 {
        return cycles;
    }
    let fit: u128 = duration.nanos_total() / cycle;
    let most: u128 = if fit >= 1 {
        fit
    } else {
        1
    };
    if (cycles as u128) <= most {
        cycles
    } else {
        most as u32
    }
}

impl SessionPlan {
    /// The plan for parsed durations: with Pomodoro timing, the cycles that
    /// fit are counted; without, the session is one stretch.
    pub open spec fn assembled(
        duration: Span,
        work: Span,
        short_break: Span,
        long_break: Span,
        cycles: u32,
        pomodoro: bool,
    ) -> SessionPlan {
        SessionPlan {
            duration,
            pomodoro: if pomodoro {
                Some(
                    PomodoroPlan {
                        work,
                        short_break,
                        long_break,
                        cycles,
                        actual_cycles: fitting_cycles(duration, work, short_break, cycles) as u32,
                    },
                )
            } else {
                None
            },
        }
    }

    /// Builds the plan for parsed durations.
    pub fn assemble(
        duration: Span,
        work: Span,
        short_break: Span,
        long_break: Span,
        cycles: u32,
        pomodoro: bool,
    ) -> (plan: SessionPlan)
        ensures
            plan == SessionPlan::assembled(duration, work, short_break, long_break, cycles, pomodoro),
    {
        if pomodoro {
            let actual_cycles = count_cycles(duration, work, short_break, cycles);
            SessionPlan {
                duration,
                pomodoro: Some(
                    PomodoroPlan { work, short_break, long_break, cycles, actual_cycles },
                ),
            }
        } else {
            SessionPlan { duration, pomodoro: None }
        }
    }

    /// The interval at place `index` of the session, counted from 0, or
    /// `None` past the end. Without Pomodoro timing there is one interval,
    /// the session itself. With it, cycle `i` of the `actual_cycles` is a
    /// work interval followed by a short break; the last cycle is followed
    /// by the long break where all the cycles asked for run, and by nothing
    /// where they do not.
    pub open spec fn interval_at(self, index: nat) -> Option<Interval> {
        match self.pomodoro {
            None => if index == 0 {
                Some(Interval { kind: IntervalKind::Focus, cycle: 0, length: self.duration })
            } else {
                None
            },
            Some(p) => {
                let cycle = index / 2 + 1;
                if cycle > p.actual_cycles {
                    None
                } else if index % 2 == 0 {
                    Some(Interval { kind: IntervalKind::Work, cycle: cycle as u32, length: p.work })
                } else if cycle < p.actual_cycles {
                    Some(
                        Interval {
                            kind: IntervalKind::ShortBreak,
                            cycle: cycle as u32,
                            length: p.short_break,
                        },
                    )
                } else if p.actual_cycles == p.cycles {
                    Some(
                        Interval {
                            kind: IntervalKind::LongBreak,
                            cycle: cycle as u32,
                            length: p.long_break,
                        },
                    )
                } else {
                    None
                }
            },
        }
    }

    /// How many intervals the session has.
    pub open spec fn interval_count(self) -> nat {
        match self.pomodoro {
            None => 1,
            Some(p) => if p.actual_cycles == 0 {
                0
            } else if p.actual_cycles == p.cycles {
                2 * p.actual_cycles as nat
            } else {
                (2 * p.actual_cycles - 1) as nat
            },
        }
    }

    /// The interval at place `index`.
    pub fn interval(&self, index: u64) -> (found: Option<Interval>)
        ensures
            found == self.interval_at(index as nat),
    {
        match self.pomodoro {
            None => if index == 0 {
                Some(Interval { kind: IntervalKind::Focus, cycle: 0, length: self.duration })
            } else {
                None
            },
            Some(p) => {
                let cycle: u64 = index / 2 + 1;
                if cycle > p.actual_cycles as u64 {
                    None
                } else if index % 2 == 0 {
                    Some(Interval { kind: IntervalKind::Work, cycle: cycle as u32, length: p.work })
                } else if cycle < p.actual_cycles as u64 {
                    Some(
                        Interval {
                            kind: IntervalKind::ShortBreak,
                            cycle: cycle as u32,
                            length: p.short_break,
                        },
                    )
                } else if p.actual_cycles == p.cycles {
                    Some(
                        Interval {
                            kind: IntervalKind::LongBreak,
                            cycle: cycle as u32,
                            length: p.long_break,
                        },
                    )
                } else {
                    None
                }
            },
        }
    }
}

/// The intervals of a session are those at the places below
/// `interval_count`, with no gap.
pub proof fn lemma_intervals_are_contiguous(plan: SessionPlan, index: nat)
    ensures
        plan.interval_at(index) is Some <==> index < plan.interval_count(),
{
}

/// A long break comes only when every cycle that was asked for runs, and
/// then it is the last interval.
pub proof fn lemma_long_break_needs_all_cycles(plan: SessionPlan, index: nat)
    requires
        plan.interval_at(index) matches Some(interval) && interval.kind == IntervalKind::LongBreak,
    ensures
        plan.pomodoro matches Some(p) && p.actual_cycles == p.cycles,
        plan.interval_at(index + 1) is None,
{
}

/// Where the duration cuts the cycles short, the session ends with a work
/// interval: neither a short nor a long break follows the last cycle.
pub proof fn lemma_cut_session_ends_with_work(plan: SessionPlan)
    requires
        plan.pomodoro matches Some(p) && 0 < p.actual_cycles < p.cycles,
    ensures
        plan.interval_at((plan.interval_count() - 1) as nat) matches Some(interval)
            && interval.kind == IntervalKind::Work,
        plan.interval_at(plan.interval_count()) is None,
{
}

/// The cycles that run never exceed the cycles asked for, nor, where a cycle
/// has a length, the full cycles that fit into the duration, but for the one
/// cycle that always runs.
pub proof fn lemma_cycles_are_bounded(duration: Span, work: Span, short_break: Span, cycles: u32)
    ensures
        fitting_cycles(duration, work, short_break, cycles) <= cycles,
        cycle_nanos(work, short_break) > 0 ==> fitting_cycles(duration, work, short_break, cycles)
            <= max_sessions(duration, work, short_break),
        cycle_nanos(work, short_break) > 0 && fitting_cycles(duration, work, short_break, cycles)
            > 1 ==> fitting_cycles(duration, work, short_break, cycles) * cycle_nanos(
            work,
            short_break,
        ) <= duration.total_nanos(),
{
    let cycle = cycle_nanos(work, short_break);
    if cycle > 0 {
        let total = duration.total_nanos();
        let fit = total / cycle;
        let actual = fitting_cycles(duration, work, short_break, cycles);
        if actual > 1 {
            assert(actual <= fit);
            assert(fit * cycle <= total) by (nonlinear_arith)
                requires
                    fit == total / cycle,
                    cycle > 0,
            ;
            assert(actual * cycle <= fit * cycle) by (nonlinear_arith)
                requires
                    actual <= fit,
                    cycle > 0,
            ;
        }
    }
}

/// The count of full cycles that fit is the one number whose cycles fit
/// into the duration while one more would not.
pub proof fn lemma_fit_is_floor(duration: Span, work: Span, short_break: Span, fit: nat)
    requires
        cycle_nanos(work, short_break) > 0,
        fit * cycle_nanos(work, short_break) <= duration.total_nanos(),
        duration.total_nanos() < (fit + 1) * cycle_nanos(work, short_break),
    ensures
        duration.total_nanos() / cycle_nanos(work, short_break) == fit,
        max_sessions(duration, work, short_break) == if fit >= 1 {
            fit
        } else {
            1
        },
{
    let cycle = cycle_nanos(work, short_break) as int;
    let total = duration.total_nanos() as int;
    assert(total / cycle == fit) by (nonlinear_arith)
        requires
            cycle > 0,
            fit * cycle <= total,
            total < (fit + 1) * cycle,
    ;
}

/// Walks the intervals of a plan. Each sleep is raced against the
/// cancellation signal by the caller, who reports how it ended.
#[derive(Debug, Clone, Copy, PartialEq, Eq, Structural)]
pub struct Scheduler {
    pub plan: SessionPlan,
    /// The place of the interval that is due.
    pub position: u64,
    /// Whether the session was cancelled.
    pub stopped: bool,
}

impl Scheduler {
    /// The interval that is due, or `None` when the schedule is over.
    pub open spec fn due(self) -> Option<Interval> {
        if self.stopped {
            None
        } else {
            self.plan.interval_at(self.position as nat)
        }
    }

    /// The scheduler after a sleep has ended. A cancellation ends the
    /// schedule. When the time was up, the next interval becomes due.
    pub open spec fn after(self, outcome: SleepOutcome) -> Scheduler {
        match outcome {
            SleepOutcome::Cancelled => Scheduler { stopped: true, ..self },
            SleepOutcome::Elapsed => if self.due() is Some {
                Scheduler { position: (self.position + 1) as u64, ..self }
            } else {
                self
            },
        }
    }

    /// A scheduler at the start of the plan.
    pub fn new(plan: SessionPlan) -> (scheduler: Scheduler)
        ensures
            scheduler == (Scheduler { plan, position: 0, stopped: false }),
    {
        Scheduler { plan, position: 0, stopped: false }
    }

    /// The interval that is due, or `None` when the schedule is over.
    pub fn current(&self) -> (interval: Option<Interval>)
        ensures
            interval == self.due(),
    {
        if self.stopped {
            None
        } else {
            self.plan.interval(self.position)
        }
    }

    /// Takes in how the sleep of the due interval ended, and returns the
    /// interval to sleep for next, or `None` when the schedule is over.
    pub fn advance(&mut self, outcome: SleepOutcome) -> (next: Option<Interval>)
        ensures
            *final(self) == old(self).after(outcome),
            next == final(self).due(),
    {
        match outcome {
            SleepOutcome::Cancelled => {
                self.stopped = true;
                None
            },
            SleepOutcome::Elapsed => {
                if self.current().is_some() {
                    self.position = self.position + 1;
                }
                self.current()
            },
        }
    }
}

/// Once the cancellation is in, no interval is due any more, whatever is
/// reported afterwards: no sleep is begun after a cancellation.
pub proof fn lemma_cancellation_is_final(scheduler: Scheduler, later: SleepOutcome)
    ensures
        scheduler.after(SleepOutcome::Cancelled).due() is None,
        scheduler.after(SleepOutcome::Cancelled).after(later).due() is None,
        scheduler.after(SleepOutcome::Cancelled).after(SleepOutcome::Cancelled) == scheduler.after(
            SleepOutcome::Cancelled,
        ),
{
}

/// While nothing cancels, the scheduler hands out the intervals of the plan
/// one after the other.
pub proof fn lemma_elapsed_moves_to_next(scheduler: Scheduler)
    requires
        scheduler.due() is Some,
    ensures
        scheduler.after(SleepOutcome::Elapsed).due() == scheduler.plan.interval_at(
            (scheduler.position + 1) as nat,
        ),
{
    if let Some(p) = scheduler.plan.pomodoro {
        assert(scheduler.position / 2 + 1 <= p.actual_cycles);
    }
}

/// The text to read for one of the Pomodoro durations, and whether it comes
/// from the configuration: the request's own where it gives one, else the
/// configured default, else the built-in one.
pub open spec fn chosen_text(
    given: Option<String>,
    configured: Option<Seq<char>>,
    builtin: Seq<char>,
) -> (Seq<char>, bool) {
    match given {
        Some(text) => (text@, false),
        None => match configured {
            Some(text) => (text, true),
            None => (builtin, false),
        },
    }
}

/// The work duration that the configuration gives, if it gives one.
pub open spec fn configured_work(config: Config) -> Option<Seq<char>> {
    match config.pomodoro_defaults {
        Some(d) => Some(d.pomodoro@),
        None => None,
    }
}

/// The short break that the configuration gives, if it gives one.
pub open spec fn configured_short_break(config: Config) -> Option<Seq<char>> {
    match config.pomodoro_defaults {
        Some(d) => Some(d.short_break@),
        None => None,
    }
}

/// The long break that the configuration gives, if it gives one.
pub open spec fn configured_long_break(config: Config) -> Option<Seq<char>> {
    match config.pomodoro_defaults {
        Some(d) => Some(d.long_break@),
        None => None,
    }
}

/// The cycles asked for: the request's own, else the configured ones, else 4.
pub open spec fn chosen_cycles(args: StartArgs, config: Config) -> u32 {
    match args.cycles {
        Some(cycles) => cycles,
        None => match config.pomodoro_defaults {
            Some(d) => d.cycles,
            None => 4,
        },
    }
}

/// Whether the session uses Pomodoro timing: where the request names a work
/// duration or the configuration has Pomodoro defaults.
pub open spec fn uses_pomodoro(args: StartArgs, config: Config) -> bool {
    args.pomodoro is Some || config.pomodoro_defaults is Some
}

/// A duration text that was refused: which one, whether it came from the
/// configuration, and the text.
pub struct Refusal {
    pub field: DurationField,
    pub from_config: bool,
    pub value: Seq<char>,
}

/// The plan of a start request, or the first duration text that cannot be
/// used, in the order session, work, short break, long break. The session's
/// duration must stand for a span longer than zero.
pub open spec fn planned(args: StartArgs, config: Config) -> Result<SessionPlan, Refusal> {
    let work = chosen_text(args.pomodoro, configured_work(config), "25m"@);
    let short_break = chosen_text(args.short_break, configured_short_break(config), "5m"@);
    let long_break = chosen_text(args.long_break, configured_long_break(config), "15m"@);
    if span_of(args.duration@) is None || span_of(args.duration@)->0.total_nanos() == 0 {
        Err(Refusal { field: DurationField::Session, from_config: false, value: args.duration@ })
    } else if span_of(work.0) is None {
        Err(Refusal { field: DurationField::Pomodoro, from_config: work.1, value: work.0 })
    } else if span_of(short_break.0) is None {
        Err(
            Refusal {
                field: DurationField::ShortBreak,
                from_config: short_break.1,
                value: short_break.0,
            },
        )
    } else if span_of(long_break.0) is None {
        Err(
            Refusal {
                field: DurationField::LongBreak,
                from_config: long_break.1,
                value: long_break.0,
            },
        )
    } else {
        Ok(
            SessionPlan::assembled(
                span_of(args.duration@)->0,
                span_of(work.0)->0,
                span_of(short_break.0)->0,
                span_of(long_break.0)->0,
                chosen_cycles(args, config),
                uses_pomodoro(args, config),
            ),
        )
    }
}

/// Picks the text to read for one of the Pomodoro durations.
fn choose_text<'a>(
    given: &'a Option<String>,
    configured: Option<&'a String>,
    builtin: &'a str,
) -> (chosen: (&'a str, bool))
    ensures
        (chosen.0@, chosen.1) == chosen_text(
            *given,
            match configured {
                Some(text) => Some(text@),
                None => None,
            },
            builtin@,
        ),
{
    match given {
        Some(text) => (text.as_str(), false),
        None => match configured {
            Some(text) => (text.as_str(), true),
            None => (builtin, false),
        },
    }
}

/// Reads one duration text of a start request.
fn read_field(field: DurationField, from_config: bool, text: &str) -> (read: Result<
    Span,
    ValidationError,
>)
    ensures
        match read {
            Ok(span) => span_of(text@) == Some(span) && span.wf(),
            Err(error) => {
                &&& span_of(text@) is None
                &&& error.field == field
                &&& error.from_config == from_config
                &&& error.value@ == text@
            },
        },
{
    match parse_span(text) {
        Ok(span) => Ok(span),
        Err(reason) => Err(ValidationError { field, from_config, value: text.to_owned(), reason }),
    }
}

/// Validates a start request and plans its timing. Every duration text is
/// read here, before anything is changed: an error names the first text that
/// cannot be used.
pub fn plan_session(args: &StartArgs, config: &Config) -> (plan: Result<
    SessionPlan,
    ValidationError,
>)
    ensures
        match plan {
            Ok(p) => planned(*args, *config) == Ok::<SessionPlan, Refusal>(p),
            Err(error) => planned(*args, *config) == Err::<SessionPlan, Refusal>(
                Refusal { field: error.field, from_config: error.from_config, value: error.value@ },
            ),
        },
{
    let duration = match read_field(DurationField::Session, false, args.duration.as_str()) {
        Ok(span) => span,
        Err(error) => {
            return Err(error);
        },
    };
    if duration.is_zero() {
        return Err(
            ValidationError {
                field: DurationField::Session,
                from_config: false,
                value: args.duration.clone(),
                reason: "the session must last longer than zero".to_owned(),
            },
        );
    }
    let (configured_work, configured_short, configured_long) = match &config.pomodoro_defaults {
        Some(d) => (Some(&d.pomodoro), Some(&d.short_break), Some(&d.long_break)),
        None => (None, None, None),
    };
    let (work_text, work_configured) = choose_text(&args.pomodoro, configured_work, "25m");
    let work = match read_field(DurationField::Pomodoro, work_configured, work_text) {
        Ok(span) => span,
        Err(error) => {
            return Err(error);
        },
    };
    let (short_text, short_configured) = choose_text(&args.short_break, configured_short, "5m");
    let short_break = match read_field(DurationField::ShortBreak, short_configured, short_text) {
        Ok(span) => span,
        Err(error) => {
            return Err(error);
        },
    };
    let (long_text, long_configured) = choose_text(&args.long_break, configured_long, "15m");
    let long_break = match read_field(DurationField::LongBreak, long_configured, long_text) {
        Ok(span) => span,
        Err(error) => {
            return Err(error);
        },
    };
    let cycles = match args.cycles {
        Some(cycles) => cycles,
        None => match &config.pomodoro_defaults {
            Some(d) => d.cycles,
            None => 4,
        },
    };
    let pomodoro = args.pomodoro.is_some() || config.pomodoro_defaults.is_some();
    Ok(SessionPlan::assemble(duration, work, short_break, long_break, cycles, pomodoro))
}

} // verus!
