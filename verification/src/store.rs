//! The backup store: the hosts file and its one backup, as an image in
//! memory. A caller reads the two files into a `HostsFiles`, lets the session
//! work on it, and writes back what changed.

use crate::config::{entries, Config, StartArgs};
use crate::hosts::{
    fallback_header, lemma_entries_append, lemma_entries_idempotent, overlay, overlay_base,
    overlay_text, TargetKind,
};
use vstd::prelude::*;

verus! {

/// The hosts file of a session and the backup that belongs to it. `None`
/// stands for a file that does not exist.
#[derive(Debug, Clone, PartialEq, Eq)]
pub struct HostsFiles {
    pub kind: TargetKind,
    pub hosts: Option<String>,
    pub backup: Option<String>,
}

/// What `restore` did.
#[derive(Debug, Clone, Copy, PartialEq, Eq, Structural)]
pub enum RestoreOutcome {
    /// The hosts file has the content of the backup again; the backup is gone.
    Restored,
    /// There was no backup, and the fallback file was removed.
    RemovedFallback,
    /// There was no backup, and nothing was touched.
    NothingToRestore,
}

/// The two files as plain values.
pub struct FilesView {
    pub kind: TargetKind,
    pub hosts: Option<Seq<char>>,
    pub backup: Option<Seq<char>>,
}

impl View for HostsFiles {
    type V = FilesView;

    open spec fn view(&self) -> FilesView {
        FilesView {
            kind: self.kind,
            hosts: self.hosts.deep_view(),
            backup: self.backup.deep_view(),
        }
    }
}

impl FilesView {
    /// The content of the hosts file; a missing file reads as empty.
    pub open spec fn content(self) -> Seq<char> {
        match self.hosts {
            Some(text) => text,
            None => Seq::empty(),
        }
    }

    /// The files once a backup was asked for: an existing backup stays as it
    /// is, a missing one is written from the hosts file.
    pub open spec fn backed_up(self) -> FilesView {
        match self.backup {
            Some(_) => self,
            None => FilesView { backup: Some(self.content()), ..self },
        }
    }

    /// The files once a session has blocked: the backup is there, and the
    /// hosts file holds the overlay of what it held.
    pub open spec fn blocked(
        self,
        whitelist_mode: bool,
        block_list: Seq<Seq<char>>,
        whitelist: Seq<Seq<char>>,
    ) -> FilesView {
        FilesView {
            hosts: Some(
                overlay_text(self.content(), self.kind, whitelist_mode, block_list, whitelist),
            ),
            ..self.backed_up()
        }
    }

    /// The files once a restore has run.
    pub open spec fn restored(self) -> FilesView {
        match self.backup {
            Some(saved) => FilesView { hosts: Some(saved), backup: None, ..self },
            None => match self.kind {
                TargetKind::UserFallback => FilesView { hosts: None, ..self },
                TargetKind::System => self,
            },
        }
    }

    /// What a restore reports.
    pub open spec fn restore_outcome(self) -> RestoreOutcome {
        if self.backup is Some {
            RestoreOutcome::Restored
        } else if self.kind == TargetKind::UserFallback && self.hosts is Some {
            RestoreOutcome::RemovedFallback
        } else {
            RestoreOutcome::NothingToRestore
        }
    }
}

impl HostsFiles {
    /// Writes the backup from the hosts file unless a backup exists. Returns
    /// whether it wrote one.
    pub fn ensure_backup(&mut self) -> (created: bool)
        ensures
            final(self)@ == old(self)@.backed_up(),
            created == (old(self).backup is None),
    {
        if self.backup.is_some() {
            return false;
        }
        let saved = match &self.hosts {
            Some(text) => text.clone(),
            None => String::new(),
        };
        self.backup = Some(saved);
        true
    }

    /// Puts the backup back into the hosts file and drops the backup. With
    /// no backup, a fallback file is removed and a system file is left alone.
    pub fn restore(&mut self) -> (outcome: RestoreOutcome)
        ensures
            final(self)@ == old(self)@.restored(),
            outcome == old(self)@.restore_outcome(),
    {
        let saved = self.backup.take();
        match saved {
            Some(text) => {
                self.hosts = Some(text);
                RestoreOutcome::Restored
            },
            None => match self.kind {
                TargetKind::UserFallback => {
                    let removed = self.hosts.take();
                    if removed.is_some() {
                        RestoreOutcome::RemovedFallback
                    } else {
                        RestoreOutcome::NothingToRestore
                    }
                },
                TargetKind::System => RestoreOutcome::NothingToRestore,
            },
        }
    }
}

/// Blocks websites for a session: makes sure of the backup, then gives the
/// hosts file its overlay, in whitelist mode where the request asks for it.
/// Returns whether a backup was written.
pub fn block_websites(args: &StartArgs, config: &Config, files: &mut HostsFiles) -> (created: bool)
    ensures
        final(files)@ == old(files)@.blocked(
            args.whitelist,
            entries(config.block_list),
            entries(config.whitelist),
        ),
        created == (old(files).backup is None),
{
    let created = files.ensure_backup();
    let text = match &files.hosts {
        Some(initial) => overlay(initial.as_str(), files.kind, args.whitelist, config),
        None => overlay("", files.kind, args.whitelist, config),
    };
    proof {
        reveal_strlit("");
        assert(""@ =~= Seq::<char>::empty());
    }
    files.hosts = Some(text);
    created
}

/// Undoes what sessions did to the hosts file.
pub fn unblock_websites(files: &mut HostsFiles) -> (outcome: RestoreOutcome)
    ensures
        final(files)@ == old(files)@.restored(),
        outcome == old(files)@.restore_outcome(),
{
    files.restore()
}

/// Blocking and then restoring gives back exactly the hosts file that was
/// there, and leaves no backup, whatever mode and lists the session used.
/// This holds where no backup was left over from an earlier session.
pub proof fn lemma_block_then_restore_is_identity(
    files: FilesView,
    whitelist_mode: bool,
    block_list: Seq<Seq<char>>,
    whitelist: Seq<Seq<char>>,
)
    requires
        files.hosts is Some,
        files.backup is None,
    ensures
        files.blocked(whitelist_mode, block_list, whitelist).restored() == files,
{
}

/// Whatever the files were before, a restore after blocking brings back what
/// the backup holds: the content from before the first session that ran.
pub proof fn lemma_restore_returns_first_snapshot(
    files: FilesView,
    whitelist_mode: bool,
    block_list: Seq<Seq<char>>,
    whitelist: Seq<Seq<char>>,
)
    ensures
        files.blocked(whitelist_mode, block_list, whitelist).restored().hosts == Some(
            files.backed_up().backup->0,
        ),
        files.blocked(whitelist_mode, block_list, whitelist).restored().backup is None,
{
}

/// Once a session has blocked, a backup is there: nothing is written to the
/// hosts file without a snapshot to go back to.
pub proof fn lemma_blocking_leaves_a_backup(
    files: FilesView,
    whitelist_mode: bool,
    block_list: Seq<Seq<char>>,
    whitelist: Seq<Seq<char>>,
)
    ensures
        files.blocked(whitelist_mode, block_list, whitelist).backup is Some,
        files.backup is Some ==> files.blocked(whitelist_mode, block_list, whitelist).backup
            == files.backup,
{
}

/// Blocking twice in block mode leaves the files as blocking once does: no
/// line that is already there is added again.
pub proof fn lemma_block_twice_adds_nothing(
    files: FilesView,
    block_list: Seq<Seq<char>>,
    whitelist: Seq<Seq<char>>,
)
    ensures
        files.blocked(false, block_list, whitelist).blocked(false, block_list, whitelist)
            == files.blocked(false, block_list, whitelist),
{
    let once = files.blocked(false, block_list, whitelist);
    let base = overlay_base(files.content(), files.kind);
    reveal_strlit(
        "# FlowMode user-level hosts file\n# This file blocks websites without requiring admin privileges\n# Note: This only works if you configure your system to use this as an additional hosts source\n\n",
    );
    assert(fallback_header().len() > 0);
    lemma_entries_append(base, block_list);
    assert(overlay_base(once.content(), once.kind) == once.content());
    lemma_entries_idempotent(base, block_list);
}

/// A second call for a backup keeps what the first call saved, whatever
/// happened to the hosts file in between.
pub proof fn lemma_backup_written_once(files: FilesView, changed: Option<Seq<char>>)
    ensures
        (FilesView { hosts: changed, ..files.backed_up() }).backed_up().backup
            == files.backed_up().backup,
{
}

/// With no backup, and no fallback file in place, a restore changes nothing
/// and reports that there was nothing to restore.
pub proof fn lemma_restore_without_session_is_noop(files: FilesView)
    requires
        files.backup is None,
        files.kind == TargetKind::System || files.hosts is None,
    ensures
        files.restored() == files,
        files.restore_outcome() == RestoreOutcome::NothingToRestore,
{
}

/// A restore leaves nothing for a second restore to bring back: after one,
/// the backup is gone, and a second one finds nothing to restore from.
pub proof fn lemma_restore_consumes_backup(files: FilesView)
    ensures
        files.restored().backup is None,
        files.restored().restore_outcome() != RestoreOutcome::Restored,
{
}

} // verus!
