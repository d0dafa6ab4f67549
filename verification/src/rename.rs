//! Renaming the entries of a tree to names in form C.
//!
//! The walk and the file system are the caller's. It tells a `RenameRun` what it
//! met, one event at a time, and is told what to do next.
use crate::paths::{
    file_name, is_named, join, parent, path_buf_components, path_components, sibling,
};
use crate::text::{
    decode_strict, is_nfc, is_plain_bytes, is_plain_name, lemma_plain_decoded, nfc_form, nfc_rename,
};
use crate::walk::WalkPlan;
use std::path::{Path, PathBuf};
use vstd::prelude::*;
use vstd::utf8::{decode_utf8, encode_utf8, valid_utf8};

verus! {

/// What a run of renames has done so far.
#[derive(Debug, Clone, Copy, PartialEq, Eq, Structural)]
pub struct RenameStats {
    /// Entries that were looked at.
    pub scanned: usize,
    /// Entries that were renamed, or would have been in a dry run.
    pub renamed: usize,
    /// Entries whose name was in form C.
    pub skipped_already_nfc: usize,
    /// Entries whose new name belongs to another file.
    pub collisions: usize,
    /// What could not be read, and entries on which the file system failed.
    pub errors: usize,
}

/// The counters as numbers without a limit.
pub struct RenameTally {
    pub scanned: nat,
    pub renamed: nat,
    pub skipped_already_nfc: nat,
    pub collisions: nat,
    pub errors: nat,
}

impl View for RenameStats {
    type V = RenameTally;

    open spec fn view(&self) -> RenameTally {
        RenameTally {
            scanned: self.scanned as nat,
            renamed: self.renamed as nat,
            skipped_already_nfc: self.skipped_already_nfc as nat,
            collisions: self.collisions as nat,
            errors: self.errors as nat,
        }
    }
}

/// Every counter at zero.
pub open spec fn empty_tally() -> RenameTally {
    RenameTally { scanned: 0, renamed: 0, skipped_already_nfc: 0, collisions: 0, errors: 0 }
}

impl Default for RenameStats {
    fn default() -> (stats: Self)
        ensures
            stats@ == empty_tally(),
            stats.scanned == 0,
            stats.renamed == 0,
            stats.skipped_already_nfc == 0,
            stats.collisions == 0,
            stats.errors == 0,
    {
        RenameStats { scanned: 0, renamed: 0, skipped_already_nfc: 0, collisions: 0, errors: 0 }
    }
}

/// A rename that is to be made.
#[derive(Debug)]
pub struct Pending {
    /// The name in form C.
    pub new_name: String,
    /// The path of the entry with that name.
    pub target: PathBuf,
}

impl Pending {
    /// The new name is in form C and is the name of the target.
    pub open spec fn wf(&self) -> bool {
        &&& is_nfc(self.new_name@)
        &&& is_plain_name(self.new_name@)
        &&& path_buf_components(&self.target).len() > 0
        &&& path_buf_components(&self.target).last() == encode_utf8(self.new_name@)
    }

    /// This is the rename of the entry at this path.
    pub open spec fn renames(&self, path: Seq<Seq<u8>>) -> bool {
        &&& entry_name(path) matches Some(name) && self.new_name@ == nfc_form(name)
        &&& path_buf_components(&self.target) == sibling(path, self.new_name@)
    }
}

/// The name of the entry at this path, if there is one and it is Unicode.
pub open spec fn entry_name(path: Seq<Seq<u8>>) -> Option<Seq<char>> {
    if is_named(path) && valid_utf8(path.last()) {
        Some(decode_utf8(path.last()))
    } else {
        None
    }
}

/// The form C of the entry's name, if it has a name in Unicode, names an entry, and is
/// in form C itself.
pub open spec fn form_settles(path: Seq<Seq<u8>>) -> bool {
    entry_name(path) matches Some(name) ==> is_nfc(nfc_form(name)) && is_plain_name(nfc_form(name))
}

/// What is to become of a name.
#[derive(Debug)]
pub enum NamePlan {
    /// It is not Unicode.
    NotUnicode,
    /// It is in form C.
    AlreadyNfc,
    /// It is to be changed to this one.
    New(String),
}

/// Decides what is to become of an entry's name, given as bytes.
pub fn plan_name(bytes: Vec<u8>) -> (plan: NamePlan)
    ensures
        match plan {
            NamePlan::NotUnicode => !valid_utf8(bytes@),
            NamePlan::AlreadyNfc => valid_utf8(bytes@) && is_nfc(decode_utf8(bytes@)),
            NamePlan::New(name) => {
                &&& valid_utf8(bytes@)
                &&& !is_nfc(decode_utf8(bytes@))
                &&& name@ == nfc_form(decode_utf8(bytes@))
                &&& is_nfc(name@)
                &&& is_plain_bytes(bytes@) ==> is_plain_name(name@)
            },
        },
        plan is NotUnicode <==> !valid_utf8(bytes@),
        plan is New <==> valid_utf8(bytes@) && nfc_form(decode_utf8(bytes@)) != decode_utf8(
            bytes@,
        ),
{
    let ghost raw = bytes@;
    let name = match decode_strict(bytes) {
        Some(name) => name,
        None => return NamePlan::NotUnicode,
    };
    proof {
        lemma_plain_decoded(raw);
    }
    match nfc_rename(name.as_str()) {
        Some(new_name) => NamePlan::New(new_name),
        None => NamePlan::AlreadyNfc,
    }
}

/// What is to become of an entry.
#[derive(Debug)]
pub enum EntryPlan {
    /// The entry has no name that could be read as Unicode: it is left alone.
    Unnamed,
    /// The name is in form C.
    AlreadyNfc,
    /// The name is to be changed.
    Rename(Pending),
}

/// Decides by its path what is to become of an entry.
///
/// An entry with a name always has a parent to stay in.
pub fn plan_entry(path: &Path) -> (plan: EntryPlan)
    ensures
        match plan {
            EntryPlan::Unnamed => entry_name(path_components(path)) is None,
            EntryPlan::AlreadyNfc => {
                &&& entry_name(path_components(path)) matches Some(name)
                &&& is_nfc(name)
            },
            EntryPlan::Rename(pending) => {
                &&& entry_name(path_components(path)) matches Some(name)
                &&& !is_nfc(name)
                &&& pending.renames(path_components(path))
                &&& pending.wf()
            },
        },
        form_settles(path_components(path)),
        ({
            let components = path_components(path);
            let name = decode_utf8(components.last());
            let readable = components.len() > 0 && is_plain_bytes(components.last()) && valid_utf8(
                components.last(),
            );
            &&& plan is Unnamed <==> !readable
            &&& plan is AlreadyNfc <==> readable && nfc_form(name) == name
            &&& plan matches EntryPlan::Rename(pending) ==> {
                &&& pending.new_name@ == nfc_form(name)
                &&& path_buf_components(&pending.target) == components.drop_last().push(
                    encode_utf8(nfc_form(name)),
                )
            }
        }),
{
    let ghost components = path_components(path);
    let bytes = match file_name(path) {
        Some(bytes) => bytes,
        None => return EntryPlan::Unnamed,
    };
    proof {
        if valid_utf8(components.last()) {
            lemma_plain_decoded(components.last());
        }
    }
    let new_name = match plan_name(bytes) {
        NamePlan::New(name) => name,
        NamePlan::AlreadyNfc => return EntryPlan::AlreadyNfc,
        NamePlan::NotUnicode => return EntryPlan::Unnamed,
    };
    match parent(path) {
        Some(dir) => {
            let target = join(dir, new_name.as_str());
            EntryPlan::Rename(Pending { new_name, target })
        },
        None => {
            assert(is_plain_bytes(components.last()));
            assert(seq![0x2fu8][0] == 0x2f);
            EntryPlan::Unnamed
        },
    }
}

/// How a run goes about its work.
#[derive(Debug, Clone, Copy, PartialEq, Eq, Structural)]
pub struct RenamePolicy {
    /// Nothing is renamed; what would be is counted all the same.
    pub dry_run: bool,
    /// A failure on one entry ends the run. Otherwise it is counted as an error.
    pub stop_on_failure: bool,
    /// There is a line for each entry that something is to be said of: a rename, before
    /// it is made, a collision, a failure.
    pub announce: bool,
    /// Each rename is reported once it is made.
    pub report: bool,
}

impl RenamePolicy {
    /// How a whole tree is renamed: each rename is reported, and nothing else, and the
    /// first failure on an entry ends the run.
    pub fn tree() -> (policy: RenamePolicy)
        ensures
            policy == (RenamePolicy {
                dry_run: false,
                stop_on_failure: true,
                announce: false,
                report: true,
            }),
    {
        RenamePolicy { dry_run: false, stop_on_failure: true, announce: false, report: true }
    }

    /// How the `rename` command works: failures are counted, and each rename, collision
    /// and failure has its line, unless the command is to be quiet: then there is no
    /// line for any entry.
    pub fn command(dry_run: bool, quiet: bool) -> (policy: RenamePolicy)
        ensures
            policy == (RenamePolicy {
                dry_run,
                stop_on_failure: false,
                announce: !quiet,
                report: false,
            }),
    {
        RenamePolicy { dry_run, stop_on_failure: false, announce: !quiet, report: false }
    }
}

/// What tells one file from another.
#[derive(Debug, Clone, Copy, PartialEq, Eq, Structural)]
pub struct FileId {
    pub dev: u64,
    pub ino: u64,
}

/// What a run waits for.
#[derive(Debug, Clone, Copy, PartialEq, Eq, Structural)]
pub enum RenamePhase {
    /// The next entry.
    Walking,
    /// Whether there is something at the target.
    Checking,
    /// Which files the source and the target are.
    Comparing,
    /// The outcome of the rename.
    Renaming,
    /// Nothing: it has failed.
    Stopped,
}

/// What the caller tells a run.
#[derive(Debug, Clone, Copy)]
pub enum RenameEvent<'a> {
    /// A root or an entry could not be read.
    Unreadable,
    /// The walk met the directory in which it started.
    Root,
    /// There is an entry at this path.
    Found(&'a Path),
    /// There is nothing at the target.
    TargetMissing,
    /// There is something at the target.
    TargetExists,
    /// These are the files at the source and at the target.
    Compared {
        source: FileId,
        target: FileId,
    },
    /// The entry has been renamed.
    Renamed,
    /// The files could not be compared, or the entry could not be renamed.
    Failed,
}

/// An event, with its path as components.
pub enum RenameInput {
    Unreadable,
    Root,
    Found(Seq<Seq<u8>>),
    TargetMissing,
    TargetExists,
    Compared { source: FileId, target: FileId },
    Renamed,
    Failed,
}

impl<'a> View for RenameEvent<'a> {
    type V = RenameInput;

    open spec fn view(&self) -> RenameInput {
        match *self {
            RenameEvent::Unreadable => RenameInput::Unreadable,
            RenameEvent::Root => RenameInput::Root,
            RenameEvent::Found(path) => RenameInput::Found(path_components(path)),
            RenameEvent::TargetMissing => RenameInput::TargetMissing,
            RenameEvent::TargetExists => RenameInput::TargetExists,
            RenameEvent::Compared { source, target } => RenameInput::Compared { source, target },
            RenameEvent::Renamed => RenameInput::Renamed,
            RenameEvent::Failed => RenameInput::Failed,
        }
    }
}

/// What the caller is to do next.
#[derive(Debug, Clone, Copy, PartialEq, Eq, Structural)]
pub enum RenameAction {
    /// Go on to the next entry.
    Next,
    /// Tell whether there is something at the pending target.
    CheckTarget,
    /// Tell which files the entry and the pending target are.
    CompareFiles,
    /// Rename the entry to the pending target, and first say so if `announce` is set.
    Rename {
        announce: bool,
    },
    /// Say that the entry would be renamed, and go on to the next.
    Announce,
    /// Say that the entry has been renamed, and go on to the next.
    Report,
    /// Say that the pending target is another file, and go on to the next entry.
    ReportCollision,
    /// Say what failed, and go on to the next entry.
    ReportFailure,
    /// Give up, with the failure that was just met.
    Stop,
}

/// Where a run stands.
pub struct RenameState {
    pub policy: RenamePolicy,
    pub tally: RenameTally,
    pub phase: RenamePhase,
}

impl RenameState {
    /// A run that has met nothing.
    pub open spec fn fresh(policy: RenamePolicy) -> RenameState {
        RenameState { policy, tally: empty_tally(), phase: RenamePhase::Walking }
    }

    /// Entries that have been scanned but not settled: at most the current one.
    pub open spec fn in_progress(self) -> nat {
        if self.phase is Walking {
            0
        } else {
            1
        }
    }

    /// The counters fit together: no entry is settled twice.
    pub open spec fn wf(self) -> bool {
        self.tally.renamed + self.tally.skipped_already_nfc + self.tally.collisions
            + self.in_progress() <= self.tally.scanned
    }

    /// Whether this event can come now, and the counters have room for it.
    pub open spec fn accepts(self, input: RenameInput) -> bool {
        match input {
            RenameInput::Unreadable => self.phase is Walking && self.tally.errors < usize::MAX,
            RenameInput::Root => self.phase is Walking,
            RenameInput::Found(_) => self.phase is Walking && self.tally.scanned < usize::MAX,
            RenameInput::TargetMissing => self.phase is Checking,
            RenameInput::TargetExists => self.phase is Checking,
            RenameInput::Compared { .. } => self.phase is Comparing,
            RenameInput::Renamed => self.phase is Renaming,
            RenameInput::Failed => {
                &&& self.phase is Comparing || self.phase is Renaming
                &&& self.policy.stop_on_failure || self.tally.errors < usize::MAX
            },
        }
    }

    /// What is done where there is something to say, and then the next entry.
    pub open spec fn spoken(self, action: RenameAction) -> RenameAction {
        if self.policy.announce {
            action
        } else {
            RenameAction::Next
        }
    }

    /// The way is free: the entry is renamed, or, in a dry run, counted as if it had
    /// been.
    pub open spec fn go_ahead(self) -> (RenameState, RenameAction) {
        if self.policy.dry_run {
            (
                RenameState {
                    tally: RenameTally { renamed: self.tally.renamed + 1, ..self.tally },
                    phase: RenamePhase::Walking,
                    ..self
                },
                self.spoken(RenameAction::Announce),
            )
        } else {
            (
                RenameState { phase: RenamePhase::Renaming, ..self },
                RenameAction::Rename { announce: self.policy.announce },
            )
        }
    }

    /// Where the run stands after the event, and what is to be done next.
    pub open spec fn next(self, input: RenameInput) -> (RenameState, RenameAction) {
        match input {
            RenameInput::Unreadable => (
                RenameState {
                    tally: RenameTally { errors: self.tally.errors + 1, ..self.tally },
                    ..self
                },
                self.spoken(RenameAction::ReportFailure),
            ),
            RenameInput::Root => (self, RenameAction::Next),
            RenameInput::Found(path) => {
                let seen = RenameTally { scanned: self.tally.scanned + 1, ..self.tally };
                match entry_name(path) {
                    None => (RenameState { tally: seen, ..self }, RenameAction::Next),
                    Some(name) => if is_nfc(name) {
                        (
                            RenameState {
                                tally: RenameTally {
                                    skipped_already_nfc: seen.skipped_already_nfc + 1,
                                    ..seen
                                },
                                ..self
                            },
                            RenameAction::Next,
                        )
                    } else {
                        (
                            RenameState { tally: seen, phase: RenamePhase::Checking, ..self },
                            RenameAction::CheckTarget,
                        )
                    },
                }
            },
            RenameInput::TargetMissing => self.go_ahead(),
            RenameInput::TargetExists => (
                RenameState { phase: RenamePhase::Comparing, ..self },
                RenameAction::CompareFiles,
            ),
            RenameInput::Compared { source, target } => if source == target {
                self.go_ahead()
            } else {
                (
                    RenameState {
                        tally: RenameTally { collisions: self.tally.collisions + 1, ..self.tally },
                        phase: RenamePhase::Walking,
                        ..self
                    },
                    self.spoken(RenameAction::ReportCollision),
                )
            },
            RenameInput::Renamed => (
                RenameState {
                    tally: RenameTally { renamed: self.tally.renamed + 1, ..self.tally },
                    phase: RenamePhase::Walking,
                    ..self
                },
                if self.policy.report {
                    RenameAction::Report
                } else {
                    RenameAction::Next
                },
            ),
            RenameInput::Failed => if self.policy.stop_on_failure {
                (RenameState { phase: RenamePhase::Stopped, ..self }, RenameAction::Stop)
            } else {
                (
                    RenameState {
                        tally: RenameTally { errors: self.tally.errors + 1, ..self.tally },
                        phase: RenamePhase::Walking,
                        ..self
                    },
                    self.spoken(RenameAction::ReportFailure),
                )
            },
        }
    }
}

/// Why a run cannot begin.
#[derive(Debug, Clone, Copy, PartialEq, Eq, Structural)]
pub enum RenameRefusal {
    /// The root of the tree is not a directory.
    NotADirectory,
}

impl RenameRefusal {
    /// What is said of the refusal, where the root is written so.
    pub fn message(&self, root: &str) -> (text: String)
        ensures
            text@ == "not a directory: "@ + root@,
    {
        match self {
            RenameRefusal::NotADirectory => {
                let mut text = "not a directory: ".to_owned();
                text.append(root);
                text
            },
        }
    }
}

/// What the caller was doing when the file system failed, with the paths as they are
/// written.
#[derive(Debug)]
pub enum RenameTask {
    /// It looked at the entry or at what is at the target.
    Stat {
        path: String,
    },
    /// It renamed the entry.
    Rename {
        path: String,
        target: String,
    },
}

impl RenamePolicy {
    /// What is said, before the error itself, of a task that failed. A run over a whole
    /// tree says nothing where it only looked.
    pub open spec fn context_text(self, task: RenameTask) -> Option<Seq<char>> {
        match task {
            RenameTask::Stat { path } => if self.stop_on_failure {
                None
            } else {
                Some("stat "@ + path@)
            },
            RenameTask::Rename { path, target } => Some(
                "rename "@ + path@ + " -> "@ + target@,
            ),
        }
    }

    /// What is said, before the error itself, of a task that failed.
    pub fn context(&self, task: &RenameTask) -> (text: Option<String>)
        ensures
            match text {
                Some(said) => self.context_text(*task) == Some(said@),
                None => self.context_text(*task) is None,
            },
            task matches RenameTask::Stat { path } ==> (text is Some <==> !self.stop_on_failure),
            task matches RenameTask::Stat { path } ==> (text matches Some(said) ==> said@
                == "stat "@ + path@),
            task matches RenameTask::Rename { path, target } ==> (text matches Some(said) && said@
                == "rename "@ + path@ + " -> "@ + target@),
    {
        match task {
            RenameTask::Stat { path } => {
                if self.stop_on_failure {
                    None
                } else {
                    let mut said = "stat ".to_owned();
                    said.append(path.as_str());
                    Some(said)
                }
            },
            RenameTask::Rename { path, target } => {
                let mut said = "rename ".to_owned();
                said.append(path.as_str());
                said.append(" -> ");
                said.append(target.as_str());
                Some(said)
            },
        }
    }
}

/// A run of renames.
#[derive(Debug)]
pub struct RenameRun {
    /// How it goes about its work.
    pub policy: RenamePolicy,
    /// What it has done so far.
    pub stats: RenameStats,
    /// What it waits for.
    pub phase: RenamePhase,
    /// The rename that was planned last.
    pub pending: Option<Pending>,
}

impl RenameRun {
    /// Where the run stands.
    pub open spec fn state(&self) -> RenameState {
        RenameState { policy: self.policy, tally: self.stats@, phase: self.phase }
    }

    /// The counters fit together, and while an entry is being dealt with there is a
    /// rename pending.
    pub open spec fn wf(&self) -> bool {
        &&& self.state().wf()
        &&& self.phase is Checking || self.phase is Comparing || self.phase is Renaming
            ==> self.pending is Some
        &&& self.pending matches Some(pending) ==> pending.wf()
    }

    /// A run that has met nothing.
    pub fn start(policy: RenamePolicy) -> (run: RenameRun)
        ensures
            run.wf(),
            run.state() == RenameState::fresh(policy),
            run.pending is None,
            run.policy == policy,
            run.phase is Walking,
            run.stats.scanned == 0,
            run.stats.renamed == 0,
            run.stats.skipped_already_nfc == 0,
            run.stats.collisions == 0,
            run.stats.errors == 0,
    {
        RenameRun {
            policy,
            stats: RenameStats::default(),
            phase: RenamePhase::Walking,
            pending: None,
        }
    }

    /// A run over a whole tree, given whether its root is a directory.
    pub fn start_tree(is_dir: bool) -> (run: Result<RenameRun, RenameRefusal>)
        ensures
            match run {
                Ok(run) => {
                    &&& is_dir
                    &&& run.wf()
                    &&& run.state() == RenameState::fresh(run.policy)
                    &&& run.policy == (RenamePolicy {
                        dry_run: false,
                        stop_on_failure: true,
                        announce: false,
                        report: true,
                    })
                    &&& run.pending is None
                },
                Err(RenameRefusal::NotADirectory) => !is_dir,
            },
    {
        if is_dir {
            Ok(RenameRun::start(RenamePolicy::tree()))
        } else {
            Err(RenameRefusal::NotADirectory)
        }
    }

    /// Whether this event can come now, and the counters have room for it.
    pub fn accepts(&self, event: &RenameEvent<'_>) -> (yes: bool)
        ensures
            yes == self.state().accepts(event@),
            yes == (match *event {
                RenameEvent::Unreadable => self.phase is Walking && self.stats.errors
                    < usize::MAX,
                RenameEvent::Root => self.phase is Walking,
                RenameEvent::Found(_) => self.phase is Walking && self.stats.scanned
                    < usize::MAX,
                RenameEvent::TargetMissing | RenameEvent::TargetExists => self.phase is Checking,
                RenameEvent::Compared { .. } => self.phase is Comparing,
                RenameEvent::Renamed => self.phase is Renaming,
                RenameEvent::Failed => (self.phase is Comparing || self.phase is Renaming) && (
                self.policy.stop_on_failure || self.stats.errors < usize::MAX),
            }),
    {
        match event {
            RenameEvent::Unreadable => {
                self.phase == RenamePhase::Walking && self.stats.errors < usize::MAX
            },
            RenameEvent::Root => self.phase == RenamePhase::Walking,
            RenameEvent::Found(_) => {
                self.phase == RenamePhase::Walking && self.stats.scanned < usize::MAX
            },
            RenameEvent::TargetMissing => self.phase == RenamePhase::Checking,
            RenameEvent::TargetExists => self.phase == RenamePhase::Checking,
            RenameEvent::Compared { .. } => self.phase == RenamePhase::Comparing,
            RenameEvent::Renamed => self.phase == RenamePhase::Renaming,
            RenameEvent::Failed => {
                (self.phase == RenamePhase::Comparing || self.phase == RenamePhase::Renaming) && (
                self.policy.stop_on_failure || self.stats.errors < usize::MAX)
            },
        }
    }

    /// What is done where there is something to say.
    fn spoken(&self, action: RenameAction) -> (said: RenameAction)
        ensures
            said == self.state().spoken(action),
    {
        if self.policy.announce {
            action
        } else {
            RenameAction::Next
        }
    }

    /// Renames the pending entry, or, in a dry run, counts it as renamed.
    fn go_ahead(&mut self) -> (action: RenameAction)
        requires
            old(self).wf(),
            old(self).phase is Checking || old(self).phase is Comparing,
        ensures
            final(self).wf(),
            (final(self).state(), action) == old(self).state().go_ahead(),
            final(self).pending == old(self).pending,
    {
        if self.policy.dry_run {
            self.stats.renamed = self.stats.renamed + 1;
            self.phase = RenamePhase::Walking;
            self.spoken(RenameAction::Announce)
        } else {
            self.phase = RenamePhase::Renaming;
            RenameAction::Rename { announce: self.policy.announce }
        }
    }

    /// Takes an event, and says what is to be done next.
    pub fn step(&mut self, event: RenameEvent<'_>) -> (action: RenameAction)
        requires
            old(self).wf(),
            old(self).state().accepts(event@),
        ensures
            final(self).wf(),
            (final(self).state(), action) == old(self).state().next(event@),
            match event@ {
                RenameInput::Found(path) if action is CheckTarget => {
                    &&& final(self).pending matches Some(pending)
                    &&& pending.renames(path)
                },
                _ => final(self).pending == old(self).pending,
            },
            event@ matches RenameInput::Found(path) ==> form_settles(path),
            final(self).policy == old(self).policy,
            ({
                let due = event matches RenameEvent::Found(path) && {
                    &&& path_components(path).len() > 0
                    &&& is_plain_bytes(path_components(path).last())
                    &&& valid_utf8(path_components(path).last())
                    &&& nfc_form(decode_utf8(path_components(path).last())) != decode_utf8(
                        path_components(path).last(),
                    )
                };
                let in_form = event matches RenameEvent::Found(path) && {
                    &&& path_components(path).len() > 0
                    &&& is_plain_bytes(path_components(path).last())
                    &&& valid_utf8(path_components(path).last())
                    &&& nfc_form(decode_utf8(path_components(path).last())) == decode_utf8(
                        path_components(path).last(),
                    )
                };
                let clash = event matches RenameEvent::Compared { source, target } && (source.dev
                    != target.dev || source.ino != target.ino);
                let free = event is TargetMissing || (event is Compared && !clash);
                let dry = old(self).policy.dry_run;
                let stops = event is Failed && old(self).policy.stop_on_failure;
                let failed = event is Unreadable || (event is Failed && !stops);
                let made = event is Renamed || (free && dry);
                let one = |yes: bool|
                    if yes {
                        1int
                    } else {
                        0int
                    };
                let before = old(self).stats;
                &&& final(self).stats.scanned == before.scanned + one(event is Found)
                &&& final(self).stats.renamed == before.renamed + one(made)
                &&& final(self).stats.skipped_already_nfc == before.skipped_already_nfc + one(
                    in_form,
                )
                &&& final(self).stats.collisions == before.collisions + one(clash)
                &&& final(self).stats.errors == before.errors + one(failed)
                &&& final(self).phase is Checking <==> due
                &&& final(self).phase is Comparing <==> event is TargetExists
                &&& final(self).phase is Renaming <==> free && !dry
                &&& final(self).phase is Stopped <==> stops
                &&& action is CheckTarget <==> due
                &&& action is CompareFiles <==> event is TargetExists
                &&& action is Rename <==> free && !dry
                &&& action is Rename ==> action->announce == old(self).policy.announce
                &&& action is Announce <==> free && dry && old(self).policy.announce
                &&& action is Report <==> event is Renamed && old(self).policy.report
                &&& action is ReportCollision <==> clash && old(self).policy.announce
                &&& action is ReportFailure <==> failed && old(self).policy.announce
                &&& action is Stop <==> stops
            }),
            action is CheckTarget ==> (event matches RenameEvent::Found(path) && (
            final(self).pending matches Some(pending) && {
                &&& pending.new_name@ == nfc_form(decode_utf8(path_components(path).last()))
                &&& path_buf_components(&pending.target) == path_components(
                    path,
                ).drop_last().push(encode_utf8(pending.new_name@))
            })),
    {
        match event {
            RenameEvent::Unreadable => {
                self.stats.errors = self.stats.errors + 1;
                self.spoken(RenameAction::ReportFailure)
            },
            RenameEvent::Root => RenameAction::Next,
            RenameEvent::Found(path) => {
                self.stats.scanned = self.stats.scanned + 1;
                match plan_entry(path) {
                    EntryPlan::Unnamed => RenameAction::Next,
                    EntryPlan::AlreadyNfc => {
                        self.stats.skipped_already_nfc = self.stats.skipped_already_nfc + 1;
                        RenameAction::Next
                    },
                    EntryPlan::Rename(pending) => {
                        self.pending = Some(pending);
                        self.phase = RenamePhase::Checking;
                        RenameAction::CheckTarget
                    },
                }
            },
            RenameEvent::TargetMissing => self.go_ahead(),
            RenameEvent::TargetExists => {
                self.phase = RenamePhase::Comparing;
                RenameAction::CompareFiles
            },
            RenameEvent::Compared { source, target } => {
                if source == target {
                    self.go_ahead()
                } else {
                    self.stats.collisions = self.stats.collisions + 1;
                    self.phase = RenamePhase::Walking;
                    self.spoken(RenameAction::ReportCollision)
                }
            },
            RenameEvent::Renamed => {
                self.stats.renamed = self.stats.renamed + 1;
                self.phase = RenamePhase::Walking;
                if self.policy.report {
                    RenameAction::Report
                } else {
                    RenameAction::Next
                }
            },
            RenameEvent::Failed => {
                if self.policy.stop_on_failure {
                    self.phase = RenamePhase::Stopped;
                    RenameAction::Stop
                } else {
                    self.stats.errors = self.stats.errors + 1;
                    self.phase = RenamePhase::Walking;
                    self.spoken(RenameAction::ReportFailure)
                }
            },
        }
    }
}

/// What a walk that started at depth 0 met at this depth: the root itself, which is
/// never renamed, or an entry below it.
pub fn walk_event<'a>(depth: usize, path: &'a Path) -> (event: RenameEvent<'a>)
    ensures
        event@ == (if depth == 0 {
            RenameInput::Root
        } else {
            RenameInput::Found(path_components(path))
        }),
        event is Root <==> depth == 0,
        depth != 0 ==> event == RenameEvent::Found(path),
{
    if depth == 0 {
        RenameEvent::Root
    } else {
        RenameEvent::Found(path)
    }
}

/// How the `rename` command deals with one of its paths.
#[derive(Debug, Clone, Copy, PartialEq, Eq, Structural)]
pub enum RootPlan {
    /// It cannot be read: that is an error.
    Unreadable,
    /// It is no directory: it is an entry itself.
    Single,
    /// It is a directory: it is walked so.
    Walk(WalkPlan),
}

/// Decides how the `rename` command deals with one of its paths. `is_dir` is absent
/// if the path could not be read.
pub fn plan_root(is_dir: Option<bool>, recursive: bool) -> (plan: RootPlan)
    ensures
        plan == (match is_dir {
            None => RootPlan::Unreadable,
            Some(false) => RootPlan::Single,
            Some(true) => RootPlan::Walk(
                WalkPlan {
                    min_depth: 0,
                    max_depth: if recursive {
                        usize::MAX
                    } else {
                        1
                    },
                    contents_first: true,
                    sort_by_name: false,
                },
            ),
        }),
{
    match is_dir {
        None => RootPlan::Unreadable,
        Some(false) => RootPlan::Single,
        Some(true) => RootPlan::Walk(WalkPlan::command(recursive)),
    }
}

/// The status with which the `rename` command ends: 1 if anything went wrong.
pub fn exit_status(stats: &RenameStats) -> (status: i32)
    ensures
        status == (if stats@.errors > 0 || stats@.collisions > 0 {
            1int
        } else {
            0int
        }),
        status == 0 <==> stats.errors == 0 && stats.collisions == 0,
{
    if stats.errors > 0 || stats.collisions > 0 {
        1
    } else {
        0
    }
}

} // verus!
