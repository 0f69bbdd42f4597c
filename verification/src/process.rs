//! The process blocker: which running processes a session terminates, and
//! what became of each attempt.

use crate::config::{entries, Config};
use crate::text::same_text;
use vstd::prelude::*;

verus! {

/// A running process, as far as the blocker looks at it.
#[derive(Debug, Clone, PartialEq, Eq)]
pub struct ProcessInfo {
    pub pid: u32,
    pub name: String,
    /// The user that owns the process, where that is known.
    pub owner: Option<u32>,
}

/// What the blocker does with a process for one application name.
#[derive(Debug, Clone, Copy, PartialEq, Eq, Structural)]
pub enum Verdict {
    /// The process does not have that name.
    NotTargeted,
    /// The process is to be terminated.
    Terminate,
    /// The process has the name, but belongs to another user.
    Foreign,
}

/// Whether the caller may terminate a process of that owner: where both
/// user ids are known they must be equal; where one is not known, the
/// attempt is made.
pub open spec fn may_terminate(owner: Option<u32>, caller: Option<u32>) -> bool {
    match (owner, caller) {
        (Some(o), Some(c)) => o == c,
        _ => true,
    }
}

/// The verdict on one process: its name must be exactly `app`, and the
/// caller must be allowed to terminate it.
pub open spec fn verdict(process: ProcessInfo, app: Seq<char>, caller: Option<u32>) -> Verdict {
    if process.name@ != app {
        Verdict::NotTargeted
    } else if may_terminate(process.owner, caller) {
        Verdict::Terminate
    } else {
        Verdict::Foreign
    }
}

/// The pids of the processes with the given verdict, in the order of the
/// listing.
pub open spec fn pids_with(
    processes: Seq<ProcessInfo>,
    app: Seq<char>,
    caller: Option<u32>,
    wanted: Verdict,
) -> Seq<u32>
    decreases processes.len(),
{
    if processes.len() == 0 {
        Seq::empty()
    } else {
        let before = pids_with(processes.drop_last(), app, caller, wanted);
        if verdict(processes.last(), app, caller) == wanted {
            before.push(processes.last().pid)
        } else {
            before
        }
    }
}

/// Whether the attempt at place `i` sent its signal. An attempt that was
/// never made sent none.
pub open spec fn signalled(results: Seq<bool>, i: int) -> bool {
    0 <= i < results.len() && results[i]
}

/// Those of `pids` whose attempt did (or did not) send its signal, in
/// order. The attempt on `pids[i]` is `results[i]`.
pub open spec fn pids_where(pids: Seq<u32>, results: Seq<bool>, wanted: bool) -> Seq<u32>
    decreases pids.len(),
{
    if pids.len() == 0 {
        Seq::empty()
    } else {
        let before = pids_where(pids.drop_last(), results, wanted);
        if signalled(results, pids.len() - 1) == wanted {
            before.push(pids.last())
        } else {
            before
        }
    }
}

/// For one application name: the processes to terminate and those left
/// alone because they belong to another user.
#[derive(Debug, Clone, PartialEq, Eq)]
pub struct Selection {
    pub targets: Vec<u32>,
    pub foreign: Vec<u32>,
}

/// What became of one application name.
#[derive(Debug, Clone, PartialEq, Eq)]
pub struct AppOutcome {
    pub name: String,
    /// The processes that took the kill signal.
    pub killed: Vec<u32>,
    /// The processes that could not be signalled.
    pub failed: Vec<u32>,
    /// The processes of other users, which were left alone.
    pub skipped: Vec<u32>,
}

/// An outcome as plain values.
pub struct AppOutcomeView {
    pub name: Seq<char>,
    pub killed: Seq<u32>,
    pub failed: Seq<u32>,
    pub skipped: Seq<u32>,
}

impl View for AppOutcome {
    type V = AppOutcomeView;

    open spec fn view(&self) -> AppOutcomeView {
        AppOutcomeView {
            name: self.name@,
            killed: self.killed@,
            failed: self.failed@,
            skipped: self.skipped@,
        }
    }
}

/// The outcome for `app` on a listing, given how each attempt ended.
pub open spec fn outcome_of(
    processes: Seq<ProcessInfo>,
    app: Seq<char>,
    caller: Option<u32>,
    results: Seq<bool>,
) -> AppOutcomeView {
    let targets = pids_with(processes, app, caller, Verdict::Terminate);
    AppOutcomeView {
        name: app,
        killed: pids_where(targets, results, true),
        failed: pids_where(targets, results, false),
        skipped: pids_with(processes, app, caller, Verdict::Foreign),
    }
}

/// Gives the verdict on one process.
pub fn judge(process: &ProcessInfo, app: &str, caller: Option<u32>) -> (v: Verdict)
    ensures
        v == verdict(*process, app@, caller),
{
    if !same_text(process.name.as_str(), app) {
        return Verdict::NotTargeted;
    }
    let allowed = match (process.owner, caller) {
        (Some(o), Some(c)) => o == c,
        _ => true,
    };
    if allowed {
        Verdict::Terminate
    } else {
        Verdict::Foreign
    }
}

/// Goes through a listing for one application name.
pub fn select(processes: &Vec<ProcessInfo>, app: &str, caller: Option<u32>) -> (chosen: Selection)
    ensures
        chosen.targets@ == pids_with(processes@, app@, caller, Verdict::Terminate),
        chosen.foreign@ == pids_with(processes@, app@, caller, Verdict::Foreign),
{
    let mut targets: Vec<u32> = Vec::new();
    let mut foreign: Vec<u32> = Vec::new();
    let mut i: usize = 0;
    assert(processes@.take(0) =~= Seq::<ProcessInfo>::empty());
    while i < processes.len()
        invariant
            i <= processes.len(),
            targets@ == pids_with(processes@.take(i as int), app@, caller, Verdict::Terminate),
            foreign@ == pids_with(processes@.take(i as int), app@, caller, Verdict::Foreign),
        decreases processes.len() - i,
    {
        proof {
            let next = processes@.take(i + 1);
            assert(next.drop_last() =~= processes@.take(i as int));
            assert(next.last() == processes@[i as int]);
        }
        match judge(&processes[i], app, caller) {
            Verdict::Terminate => targets.push(processes[i].pid),
            Verdict::Foreign => foreign.push(processes[i].pid),
            Verdict::NotTargeted => {},
        }
        i += 1;
    }
    assert(processes@.take(processes@.len() as int) =~= processes@);
    Selection { targets, foreign }
}

/// Sorts the targets by how their attempts ended.
pub fn summarize(app: &str, chosen: Selection, results: &Vec<bool>) -> (outcome: AppOutcome)
    ensures
        outcome@ == (AppOutcomeView {
            name: app@,
            killed: pids_where(chosen.targets@, results@, true),
            failed: pids_where(chosen.targets@, results@, false),
            skipped: chosen.foreign@,
        }),
{
    let mut killed: Vec<u32> = Vec::new();
    let mut failed: Vec<u32> = Vec::new();
    let mut i: usize = 0;
    let ghost pids = chosen.targets@;
    assert(pids.take(0) =~= Seq::<u32>::empty());
    while i < chosen.targets.len()
        invariant
            i <= chosen.targets.len(),
            pids == chosen.targets@,
            killed@ == pids_where(pids.take(i as int), results@, true),
            failed@ == pids_where(pids.take(i as int), results@, false),
        decreases chosen.targets.len() - i,
    {
        proof {
            assert(pids.take(i + 1).drop_last() =~= pids.take(i as int));
        }
        if i < results.len() && results[i] {
            killed.push(chosen.targets[i]);
        } else {
            failed.push(chosen.targets[i]);
        }
        i += 1;
    }
    proof {
        assert(pids.take(pids.len() as int) =~= pids);
    }
    AppOutcome { name: app.to_owned(), killed, failed, skipped: chosen.foreign }
}

/// Every target ends up either among the killed or among the failed, and
/// nothing else does.
pub proof fn lemma_every_target_is_accounted(pids: Seq<u32>, results: Seq<bool>)
    ensures
        pids_where(pids, results, true).len() + pids_where(pids, results, false).len()
            == pids.len(),
    decreases pids.len(),
{
    if pids.len() > 0 {
        lemma_every_target_is_accounted(pids.drop_last(), results);
    }
}

impl AppOutcome {
    /// Whether at least one instance was found and terminated.
    pub fn acted(&self) -> (yes: bool)
        ensures
            yes == (self.killed@.len() > 0),
    {
        self.killed.len() > 0
    }
}

/// The process table of `sysinfo`.
#[verifier::external_type_specification]
#[verifier::external_body]
pub struct ExSystem(sysinfo::System);

/// A process of `sysinfo`.
#[verifier::external_type_specification]
#[verifier::external_body]
pub struct ExProcess(sysinfo::Process);

/// Calls `sysinfo::System::new_all`: a table with everything loaded. What
/// it holds depends on the machine; nothing is claimed of it.
#[verifier::external_body]
fn load_system() -> (system: sysinfo::System) {
    sysinfo::System::new_all()
}

/// Calls `sysinfo::System::refresh_all`, which reads the machine's state
/// again. Nothing is claimed of the table afterwards.
#[verifier::external_body]
fn refresh_system(system: &mut sysinfo::System) {
    system.refresh_all()
}

/// Walks `sysinfo::System::processes` and hands each process out as plain
/// values: its pid, its name, and its owner where `user_id` knows one. The
/// order is that of a hash map; nothing is claimed of the listing.
#[verifier::external_body]
fn list_processes(system: &sysinfo::System) -> (listing: Vec<ProcessInfo>) {
    system.processes().iter().map(
        |(pid, process)|
            ProcessInfo {
                pid: pid.as_u32(),
                name: process.name().to_string_lossy().into_owned(),
                owner: process.user_id().map(|uid| **uid),
            },
    ).collect()
}

/// Calls `sysinfo::System::process`: the process with that pid, if the
/// table holds one.
#[verifier::external_body]
fn find_process(system: &sysinfo::System, pid: u32) -> (found: Option<&sysinfo::Process>) {
    system.process(sysinfo::Pid::from_u32(pid))
}

/// Calls `sysinfo::Process::kill`, which sends the kill signal and says
/// whether it could be sent. The answer depends on the machine.
#[verifier::external_body]
fn send_kill(process: &sysinfo::Process) -> (sent: bool) {
    process.kill()
}

/// Calls `nix::unistd::geteuid`: the effective user id of the caller.
#[verifier::external_body]
fn effective_uid() -> (uid: u32) {
    nix::unistd::geteuid().as_raw()
}

/// Whether an outcome is what the blocker makes of a listing for `app`,
/// however the attempts ended: the ones skipped are exactly the foreign
/// processes, and the targets are shared out between killed and failed.
pub open spec fn accounts_for(
    outcome: AppOutcomeView,
    processes: Seq<ProcessInfo>,
    app: Seq<char>,
    caller: Option<u32>,
) -> bool {
    exists|results: Seq<bool>| outcome == #[trigger] outcome_of(processes, app, caller, results)
}

/// Whether each outcome is what the blocker makes of the one listing for
/// the name at its place.
pub open spec fn all_account_for(
    outcomes: Seq<AppOutcome>,
    processes: Seq<ProcessInfo>,
    apps: Seq<Seq<char>>,
    caller: Option<u32>,
) -> bool {
    &&& outcomes.len() == apps.len()
    &&& forall|i: int|
        0 <= i < outcomes.len() ==> accounts_for(
            (#[trigger] outcomes[i])@,
            processes,
            apps[i],
            caller,
        )
}

/// Terminates the processes named `app` in a listing that the caller may
/// terminate. A process that is gone from the table counts as not
/// signalled; no failure ends the run.
pub fn block_one(
    system: &sysinfo::System,
    processes: &Vec<ProcessInfo>,
    app: &str,
    caller: Option<u32>,
) -> (outcome: AppOutcome)
    ensures
        accounts_for(outcome@, processes@, app@, caller),
{
    let chosen = select(processes, app, caller);
    let mut results: Vec<bool> = Vec::new();
    let mut i: usize = 0;
    while i < chosen.targets.len()
        invariant
            i <= chosen.targets.len(),
            results.len() == i,
        decreases chosen.targets.len() - i,
    {
        let sent = match find_process(system, chosen.targets[i]) {
            Some(process) => send_kill(process),
            None => false,
        };
        results.push(sent);
        i += 1;
    }
    let outcome = summarize(app, chosen, &results);
    assert(outcome@ == outcome_of(processes@, app@, caller, results@));
    outcome
}

/// Terminates the running instances of every application on the block
/// list, as far as they belong to the caller. Returns one outcome for each
/// name, in the order of the list; all of them go by one listing of the
/// processes, taken at the start.
pub fn block_applications(config: &Config) -> (outcomes: Vec<AppOutcome>)
    ensures
        outcomes.len() == entries(config.app_block_list).len(),
        forall|i: int|
            0 <= i < outcomes.len() ==> (#[trigger] outcomes[i]).name@ == entries(
                config.app_block_list,
            )[i],
        exists|processes: Seq<ProcessInfo>, caller: Option<u32>| #[trigger]
            all_account_for(outcomes@, processes, entries(config.app_block_list), caller),
{
    let mut outcomes: Vec<AppOutcome> = Vec::new();
    match &config.app_block_list {
        None => {
            assert(all_account_for(
                outcomes@,
                Seq::<ProcessInfo>::empty(),
                entries(config.app_block_list),
                None,
            ));
        },
        Some(apps) => {
            let mut system = load_system();
            refresh_system(&mut system);
            let processes = list_processes(&system);
            let caller = Some(effective_uid());
            let mut i: usize = 0;
            while i < apps.len()
                invariant
                    i <= apps.len(),
                    outcomes.len() == i,
                    forall|j: int|
                        0 <= j < i ==> accounts_for(
                            (#[trigger] outcomes[j])@,
                            processes@,
                            apps.deep_view()[j],
                            caller,
                        ),
                decreases apps.len() - i,
            {
                let outcome = block_one(&system, &processes, apps[i].as_str(), caller);
                outcomes.push(outcome);
                i += 1;
            }
            assert(entries(config.app_block_list) == apps.deep_view());
            assert(all_account_for(outcomes@, processes@, entries(config.app_block_list), caller));
            assert forall|j: int| 0 <= j < outcomes.len() implies (#[trigger] outcomes[j]).name@
                == apps.deep_view()[j] by {
                let results = choose|results: Seq<bool>|
                    outcomes[j]@ == #[trigger] outcome_of(
                        processes@,
                        apps.deep_view()[j],
                        caller,
                        results,
                    );
            }
        },
    }
    outcomes
}

} // verus!
