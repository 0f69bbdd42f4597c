//! What the steps of a session do to the files it keeps, and what follows
//! for whole runs: a session leaves the hosts file as it found it, a stop
//! without a session changes nothing, and a stop undoes a session that was
//! interrupted at any point.

use crate::hosts::TargetKind;
use crate::report::{row_closing, row_opening};
use crate::session::{following, steps_left, Outcome, Session, Step};
use crate::store::FilesView;
use vstd::prelude::*;

verus! {

/// The files of a session as plain values: the hosts file and its backup,
/// the marker (absent when `None`), and the log.
pub struct Disk {
    pub files: FilesView,
    pub marker: Option<Seq<char>>,
    pub log: Seq<char>,
}

/// What a run brings along: the mode and the lists of the request, the
/// task, the process id as the marker holds it, and the times it reads
/// from the clock at its start and at its end.
pub struct Setting {
    pub whitelist_mode: bool,
    pub block_list: Seq<Seq<char>>,
    pub whitelist: Seq<Seq<char>>,
    pub task: Option<Seq<char>>,
    pub pid: Seq<char>,
    pub started: Seq<char>,
    pub ended: Seq<char>,
}

/// The disk after a step was performed. Six steps write: blocking and
/// unblocking websites, writing and removing the marker, opening and
/// closing the log row. The others leave the disk alone.
pub open spec fn performed(step: Step, disk: Disk, setting: Setting) -> Disk {
    match step {
        Step::BlockWebsites => Disk {
            files: disk.files.blocked(setting.whitelist_mode, setting.block_list, setting.whitelist),
            ..disk
        },
        Step::WriteMarker => Disk { marker: Some(setting.pid), ..disk },
        Step::OpenLog => Disk { log: disk.log + row_opening(setting.task, setting.started), ..disk },
        Step::UnblockWebsites => Disk { files: disk.files.restored(), ..disk },
        Step::RemoveMarker => Disk { marker: None, ..disk },
        Step::CloseLog => Disk { log: disk.log + row_closing(setting.ended), ..disk },
        _ => disk,
    }
}

/// How many steps a session has before it, at most.
pub open spec fn distance(session: Session) -> nat {
    match session.current {
        None => 0,
        Some(step) => steps_left(step) + 1,
    }
}

/// The session and the disk after the next `count` steps were performed,
/// or all that were left if those are fewer.
pub open spec fn progressed(session: Session, disk: Disk, setting: Setting, count: nat) -> (
    Session,
    Disk,
)
    decreases count,
{
    match session.current {
        None => (session, disk),
        Some(step) => if count == 0 {
            (session, disk)
        } else {
            progressed(
                session.after(Outcome::Done),
                performed(step, disk, setting),
                setting,
                (count - 1) as nat,
            )
        },
    }
}

/// The disk after the session ran to its end with every step performed.
pub open spec fn completed(session: Session, disk: Disk, setting: Setting) -> Disk {
    progressed(session, disk, setting, distance(session)).1
}

/// After as many steps as a session has before it, the session is idle.
pub proof fn lemma_runs_end_idle(session: Session, disk: Disk, setting: Setting, count: nat)
    requires
        count >= distance(session),
    ensures
        progressed(session, disk, setting, count).0.current is None,
    decreases count,
{
    if session.current is Some && count > 0 {
        lemma_runs_end_idle(
            session.after(Outcome::Done),
            performed(session.current->0, disk, setting),
            setting,
            (count - 1) as nat,
        );
    }
}

/// A session that runs to its end leaves the hosts file exactly as it
/// found it and no backup behind; the marker is gone; and the log has grown
/// by one row, opened at the start and closed at the end. This holds where
/// the hosts file exists and no backup was left over.
pub proof fn lemma_session_leaves_files_as_found(disk: Disk, setting: Setting, notify: bool)
    requires
        disk.files.hosts is Some,
        disk.files.backup is None,
    ensures
        completed(Session::idle().started(notify), disk, setting) == (Disk {
            files: disk.files,
            marker: None,
            log: disk.log + row_opening(setting.task, setting.started) + row_closing(
                setting.ended,
            ),
        }),
{
    reveal_with_fuel(progressed, 15);
}

/// A stop request with no session active leaves every file as it is: the
/// hosts file, the backup, the marker and the log. This holds where no
/// backup and no marker exist and no fallback file is in place.
pub proof fn lemma_stop_without_session_changes_nothing(disk: Disk, setting: Setting)
    requires
        disk.files.backup is None,
        disk.marker is None,
        disk.files.kind == TargetKind::System || disk.files.hosts is None,
    ensures
        completed(Session::idle().stop_asked(disk.marker is Some), disk, setting) == disk,
{
    reveal_with_fuel(progressed, 7);
}

/// The disk after a stop request ran to its end on it.
pub open spec fn stopped(disk: Disk, setting: Setting) -> Disk {
    completed(Session::idle().stop_asked(disk.marker is Some), disk, setting)
}

/// A second stop after a first one changes nothing more. This holds for
/// the system file, and for a fallback file without backup; a fallback
/// file that the first stop restored is removed by the second.
pub proof fn lemma_stop_twice_is_stop_once(disk: Disk, first: Setting, second: Setting)
    requires
        disk.files.kind == TargetKind::System || disk.files.backup is None,
    ensures
        stopped(stopped(disk, first), second) == stopped(disk, first),
{
    reveal_with_fuel(progressed, 7);
}

/// Whether a session still has its own restore before it: it is starting,
/// active, or at the very beginning of stopping.
pub open spec fn before_own_restore(session: Session) -> bool {
    session.current matches Some(step) && steps_left(step) >= 4
}

/// However far a session got before it was interrupted, by a failure or
/// by the end of its process, a later stop brings the hosts file back to
/// what the session found, and leaves neither backup nor marker. This
/// holds where the hosts file existed and no backup was left over; for a
/// fallback file, where the session had blocked and not yet restored.
pub proof fn lemma_stop_undoes_interrupted_session(
    disk: Disk,
    setting: Setting,
    notify: bool,
    count: nat,
    later: Setting,
)
    requires
        disk.files.hosts is Some,
        disk.files.backup is None,
        disk.files.kind == TargetKind::System || (count >= 1 && before_own_restore(
            progressed(Session::idle().started(notify), disk, setting, count).0,
        )),
    ensures
        stopped(progressed(Session::idle().started(notify), disk, setting, count).1, later).files
            == disk.files,
        stopped(progressed(Session::idle().started(notify), disk, setting, count).1, later).marker
            is None,
{
    let start = Session::idle().started(notify);
    if count >= 14 {
        lemma_progress_stops_when_idle(start, disk, setting, 14, count);
    }
    let n: nat = if count >= 14 {
        14
    } else {
        count
    };
    assert(progressed(start, disk, setting, count) == progressed(start, disk, setting, n));
    let reached = progressed(start, disk, setting, n);
    let blocked = disk.files.blocked(setting.whitelist_mode, setting.block_list, setting.whitelist);
    assert(reached.1.files == disk.files || reached.1.files == blocked) by {
        reveal_with_fuel(progressed, 15);
    }
    assert(n >= 1 && before_own_restore(reached.0) ==> reached.1.files == blocked) by {
        reveal_with_fuel(progressed, 15);
    }
    lemma_stop_restores(reached.1, later);
}

/// What a stop does to the hosts file and the marker, whatever else the
/// disk holds.
pub proof fn lemma_stop_restores(disk: Disk, setting: Setting)
    ensures
        stopped(disk, setting).files == disk.files.restored(),
        stopped(disk, setting).marker is None,
{
    reveal_with_fuel(progressed, 7);
}

/// Asking an idle session for more steps changes nothing: once as many
/// steps were performed as the session had before it, further ones are
/// none.
pub proof fn lemma_progress_stops_when_idle(
    session: Session,
    disk: Disk,
    setting: Setting,
    enough: nat,
    more: nat,
)
    requires
        enough >= distance(session),
        more >= enough,
    ensures
        progressed(session, disk, setting, more) == progressed(session, disk, setting, enough),
    decreases enough,
{
    if session.current is Some {
        let next = session.after(Outcome::Done);
        assert(distance(next) < distance(session)) by {
            if let Some(step) = following(session.current->0, session.notify, session.open) {
            }
        }
        lemma_progress_stops_when_idle(
            next,
            performed(session.current->0, disk, setting),
            setting,
            (enough - 1) as nat,
            (more - 1) as nat,
        );
    }
}

} // verus!
