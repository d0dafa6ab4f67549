//! What the desktop application does with a folder that is dropped on it: rename
//! what it holds, and then, if that is asked for, archive it.
use crate::archive::{ZipOptions, ZipStats};
use crate::paths::{
    default_output_for, is_named, nfc_folder_name, path_buf_components, path_buf_text,
    path_components, reads_folder_name, show, sibling, FolderError,
};
use crate::rename::{empty_tally, RenameStats};
use crate::text::{is_plain_bytes, lossy_text, nfc_form};
use std::path::{Path, PathBuf};
use vstd::prelude::*;
use vstd::utf8::encode_utf8;

verus! {

/// What was done with a folder.
#[derive(Debug)]
pub struct ProcessResult {
    /// Where the archive is, if one was made.
    pub output: Option<String>,
    pub files: usize,
    pub dirs: usize,
    pub skipped: usize,
    pub converted: usize,
    pub bytes: u64,
    pub renamed_on_disk: usize,
    pub rename_collisions: usize,
}

impl ProcessResult {
    /// The result tells of this archive, these counters of it, and these renames.
    pub open spec fn tells(
        &self,
        output: Option<String>,
        zip: ZipStats,
        rename: RenameStats,
    ) -> bool {
        &&& self.output == output
        &&& self.files == zip.files
        &&& self.dirs == zip.dirs
        &&& self.skipped == zip.skipped
        &&& self.converted == zip.converted
        &&& self.bytes == zip.bytes
        &&& self.renamed_on_disk == rename.renamed
        &&& self.rename_collisions == rename.collisions
    }

    /// What was done where an archive was made.
    pub fn zipped(output: String, zip: &ZipStats, rename: &RenameStats) -> (result: ProcessResult)
        ensures
            result.tells(Some(output), *zip, *rename),
            result == (ProcessResult {
                output: Some(output),
                files: zip.files,
                dirs: zip.dirs,
                skipped: zip.skipped,
                converted: zip.converted,
                bytes: zip.bytes,
                renamed_on_disk: rename.renamed,
                rename_collisions: rename.collisions,
            }),
    {
        ProcessResult {
            output: Some(output),
            files: zip.files,
            dirs: zip.dirs,
            skipped: zip.skipped,
            converted: zip.converted,
            bytes: zip.bytes,
            renamed_on_disk: rename.renamed,
            rename_collisions: rename.collisions,
        }
    }

    /// What was done where none was asked for: the counters of the archive are zero.
    pub fn renamed(rename: &RenameStats) -> (result: ProcessResult)
        ensures
            result.tells(None, no_zip_stats(), *rename),
            result == (ProcessResult {
                output: None,
                files: 0,
                dirs: 0,
                skipped: 0,
                converted: 0,
                bytes: 0,
                renamed_on_disk: rename.renamed,
                rename_collisions: rename.collisions,
            }),
    {
        ProcessResult {
            output: None,
            files: 0,
            dirs: 0,
            skipped: 0,
            converted: 0,
            bytes: 0,
            renamed_on_disk: rename.renamed,
            rename_collisions: rename.collisions,
        }
    }
}

/// The counters of an archive that was not made.
pub open spec fn no_zip_stats() -> ZipStats {
    ZipStats { files: 0, dirs: 0, skipped: 0, converted: 0, bytes: 0 }
}

/// Why a folder was not processed: the stage that failed, and what was said there.
#[derive(Debug)]
pub enum ProcessFailure {
    /// The path that was given leads nowhere.
    NotFound {
        path: String,
        error: String,
    },
    NotADirectory {
        folder: String,
    },
    Rename {
        error: String,
    },
    /// The folder has no name to give to an archive.
    Nameless,
    OutputExists {
        output: String,
    },
    Zip {
        error: String,
    },
}

impl ProcessFailure {
    /// What the application shows.
    pub open spec fn text(&self) -> Seq<char> {
        match *self {
            ProcessFailure::NotFound { path, error } => "folder not found: "@ + path@ + ": "@
                + error@,
            ProcessFailure::NotADirectory { folder } => "not a directory: "@ + folder@,
            ProcessFailure::Rename { error } => "rename: "@ + error@,
            ProcessFailure::Nameless => "folder has no name"@,
            ProcessFailure::OutputExists { output } => "output already exists: "@ + output@,
            ProcessFailure::Zip { error } => "zip: "@ + error@,
        }
    }

    /// What the application shows.
    pub fn message(&self) -> (message: String)
        ensures
            message@ == self.text(),
            message@ == (match *self {
                ProcessFailure::NotFound { path, error } => "folder not found: "@ + path@ + ": "@
                    + error@,
                ProcessFailure::NotADirectory { folder } => "not a directory: "@ + folder@,
                ProcessFailure::Rename { error } => "rename: "@ + error@,
                ProcessFailure::Nameless => "folder has no name"@,
                ProcessFailure::OutputExists { output } => "output already exists: "@ + output@,
                ProcessFailure::Zip { error } => "zip: "@ + error@,
            }),
    {
        match self {
            ProcessFailure::NotFound { path, error } => {
                let mut message = "folder not found: ".to_owned();
                message.append(path.as_str());
                message.append(": ");
                message.append(error.as_str());
                message
            },
            ProcessFailure::NotADirectory { folder } => {
                let mut message = "not a directory: ".to_owned();
                message.append(folder.as_str());
                message
            },
            ProcessFailure::Rename { error } => {
                let mut message = "rename: ".to_owned();
                message.append(error.as_str());
                message
            },
            ProcessFailure::Nameless => FolderError::NoName.message().to_owned(),
            ProcessFailure::OutputExists { output } => {
                let mut message = "output already exists: ".to_owned();
                message.append(output.as_str());
                message
            },
            ProcessFailure::Zip { error } => {
                let mut message = "zip: ".to_owned();
                message.append(error.as_str());
                message
            },
        }
    }
}

/// What the processing of a folder waits for.
#[derive(Debug, Clone, Copy, PartialEq, Eq, Structural)]
pub enum FolderStage {
    /// Where the folder is.
    Locating,
    /// That what it holds has been renamed.
    Renaming,
    /// Whether there is something where the archive is to go.
    CheckingOutput,
    /// That the archive has been made.
    Zipping,
    /// Nothing.
    Ended,
}

/// What the caller tells.
#[derive(Debug)]
pub enum FolderEvent<'a> {
    /// The path leads nowhere.
    NotFound {
        error: String,
    },
    /// The path leads here, to a folder or to something else.
    Located {
        folder: &'a PathBuf,
        is_dir: bool,
    },
    /// What the folder holds could not be renamed.
    RenameFailed {
        error: String,
    },
    /// What this folder holds has been renamed.
    Renamed {
        folder: &'a Path,
        stats: RenameStats,
    },
    /// Whether there is something where the archive is to go.
    OutputChecked {
        exists: bool,
    },
    /// The archive could not be made.
    ZipFailed {
        error: String,
    },
    /// The archive has been made.
    Zipped {
        added: ZipStats,
    },
}

/// What the caller is to do next.
#[derive(Debug)]
pub enum FolderAction {
    /// Rename what the folder holds.
    Rename,
    /// Tell whether there is something where the archive is to go.
    CheckOutput,
    /// Make the archive there.
    WriteZip {
        options: ZipOptions,
    },
    /// The folder is done.
    Finish(ProcessResult),
    /// Give up.
    Fail(ProcessFailure),
}

/// The processing of one folder.
#[derive(Debug)]
pub struct FolderJob {
    /// The path that was given.
    pub path: String,
    /// Whether an archive is asked for.
    pub make_zip: bool,
    /// What it waits for.
    pub stage: FolderStage,
    /// What was renamed.
    pub rename: RenameStats,
    /// Where the archive is to go, once that is known.
    pub output: Option<PathBuf>,
}

impl FolderJob {
    /// An archive is made only where one is asked for.
    pub open spec fn wf(&self) -> bool {
        self.stage is CheckingOutput || self.stage is Zipping ==> self.make_zip
            && self.output is Some
    }

    /// The processing of the folder at this path, of which nothing is known.
    pub fn start(path: String, make_zip: bool) -> (job: FolderJob)
        ensures
            job.wf(),
            job.path == path,
            job.make_zip == make_zip,
            job.stage is Locating,
            job.rename@ == empty_tally(),
            job.rename.scanned == 0,
            job.rename.renamed == 0,
            job.rename.skipped_already_nfc == 0,
            job.rename.collisions == 0,
            job.rename.errors == 0,
            job.output is None,
    {
        FolderJob {
            path,
            make_zip,
            stage: FolderStage::Locating,
            rename: RenameStats::default(),
            output: None,
        }
    }

    /// Whether this event can come now.
    pub open spec fn expects(&self, event: FolderEvent<'_>) -> bool {
        match event {
            FolderEvent::NotFound { .. } => self.stage is Locating,
            FolderEvent::Located { .. } => self.stage is Locating,
            FolderEvent::RenameFailed { .. } => self.stage is Renaming,
            FolderEvent::Renamed { .. } => self.stage is Renaming,
            FolderEvent::OutputChecked { .. } => self.stage is CheckingOutput,
            FolderEvent::ZipFailed { .. } => self.stage is Zipping,
            FolderEvent::Zipped { .. } => self.stage is Zipping,
        }
    }

    /// Whether this event can come now.
    pub fn accepts(&self, event: &FolderEvent<'_>) -> (yes: bool)
        ensures
            yes == self.expects(*event),
            yes == (match *event {
                FolderEvent::NotFound { .. } | FolderEvent::Located { .. } => self.stage
                    is Locating,
                FolderEvent::RenameFailed { .. } | FolderEvent::Renamed { .. } => self.stage
                    is Renaming,
                FolderEvent::OutputChecked { .. } => self.stage is CheckingOutput,
                FolderEvent::ZipFailed { .. } | FolderEvent::Zipped { .. } => self.stage
                    is Zipping,
            }),
    {
        match event {
            FolderEvent::NotFound { .. } => self.stage == FolderStage::Locating,
            FolderEvent::Located { .. } => self.stage == FolderStage::Locating,
            FolderEvent::RenameFailed { .. } => self.stage == FolderStage::Renaming,
            FolderEvent::Renamed { .. } => self.stage == FolderStage::Renaming,
            FolderEvent::OutputChecked { .. } => self.stage == FolderStage::CheckingOutput,
            FolderEvent::ZipFailed { .. } => self.stage == FolderStage::Zipping,
            FolderEvent::Zipped { .. } => self.stage == FolderStage::Zipping,
        }
    }

    /// What the event leads to: the stage after it, and the action.
    pub open spec fn leads_to(
        &self,
        event: FolderEvent<'_>,
        stage: FolderStage,
        action: FolderAction,
    ) -> bool {
        match event {
            FolderEvent::NotFound { error } => {
                &&& stage is Ended
                &&& action == FolderAction::Fail(
                    ProcessFailure::NotFound { path: self.path, error },
                )
            },
            FolderEvent::Located { folder, is_dir } => if is_dir {
                stage is Renaming && action is Rename
            } else {
                &&& stage is Ended
                &&& action matches FolderAction::Fail(failure)
                &&& failure matches ProcessFailure::NotADirectory { folder: text }
                &&& text@ == path_buf_text(folder)
            },
            FolderEvent::RenameFailed { error } => {
                &&& stage is Ended
                &&& action == FolderAction::Fail(ProcessFailure::Rename { error })
            },
            FolderEvent::Renamed { folder, stats } => if !self.make_zip {
                &&& stage is Ended
                &&& action matches FolderAction::Finish(result)
                &&& result.tells(None, no_zip_stats(), stats)
            } else if is_named(path_components(folder)) {
                stage is CheckingOutput && action is CheckOutput
            } else {
                &&& stage is Ended
                &&& action == FolderAction::Fail(ProcessFailure::Nameless)
            },
            FolderEvent::OutputChecked { exists } => if exists {
                &&& stage is Ended
                &&& action matches FolderAction::Fail(failure)
                &&& failure matches ProcessFailure::OutputExists { output: text }
                &&& text@ == path_buf_text(&self.output->0)
            } else {
                &&& stage is Zipping
                &&& action == (FolderAction::WriteZip {
                    options: ZipOptions { level: 6, include_mac_cruft: false, wrap: true },
                })
            },
            FolderEvent::ZipFailed { error } => {
                &&& stage is Ended
                &&& action == FolderAction::Fail(ProcessFailure::Zip { error })
            },
            FolderEvent::Zipped { added } => {
                &&& stage is Ended
                &&& action matches FolderAction::Finish(result)
                &&& result.output matches Some(text)
                &&& text@ == path_buf_text(&self.output->0)
                &&& result.tells(Some(text), added, self.rename)
            },
        }
    }

    /// Takes an event, and says what is to be done next.
    pub fn step(&mut self, event: FolderEvent<'_>) -> (action: FolderAction)
        requires
            old(self).wf(),
            old(self).expects(event),
        ensures
            final(self).wf(),
            old(self).leads_to(event, final(self).stage, action),
            final(self).path == old(self).path,
            final(self).make_zip == old(self).make_zip,
            match event {
                FolderEvent::Renamed { folder, stats } => {
                    &&& final(self).rename == stats
                    &&& action is CheckOutput ==> (final(self).output matches Some(path)
                        && path_buf_components(&path) == sibling(
                        path_components(folder),
                        nfc_folder_name(path_components(folder)) + ".zip"@,
                    ))
                    &&& old(self).make_zip ==> reads_folder_name(path_components(folder))
                    &&& !(action is CheckOutput) ==> final(self).output == old(self).output
                },
                _ => {
                    &&& final(self).rename == old(self).rename
                    &&& final(self).output == old(self).output
                },
            },
            action is WriteZip || action is CheckOutput ==> old(self).make_zip,
            action is Rename <==> (event matches FolderEvent::Located { is_dir, .. } && is_dir),
            action is CheckOutput <==> old(self).make_zip && (
            event matches FolderEvent::Renamed { folder, .. } && path_components(folder).len() > 0
                && is_plain_bytes(path_components(folder).last())),
            action is CheckOutput ==> (event matches FolderEvent::Renamed { folder, .. } && (
            final(self).output matches Some(path) && path_buf_components(&path)
                == path_components(folder).drop_last().push(
                encode_utf8(nfc_form(lossy_text(path_components(folder).last())) + ".zip"@),
            ))),
            action is WriteZip <==> (event matches FolderEvent::OutputChecked { exists }
                && !exists),
            action matches FolderAction::WriteZip { options } ==> options == (ZipOptions {
                level: 6,
                include_mac_cruft: false,
                wrap: true,
            }),
            action is Finish <==> event is Zipped || (event is Renamed && !old(self).make_zip),
            action matches FolderAction::Finish(result) ==> (match event {
                FolderEvent::Zipped { added } => {
                    &&& result.output matches Some(text) && text@ == path_buf_text(
                        &old(self).output->0,
                    )
                    &&& result.files == added.files
                    &&& result.dirs == added.dirs
                    &&& result.skipped == added.skipped
                    &&& result.converted == added.converted
                    &&& result.bytes == added.bytes
                    &&& result.renamed_on_disk == old(self).rename.renamed
                    &&& result.rename_collisions == old(self).rename.collisions
                },
                FolderEvent::Renamed { stats, .. } => result == (ProcessResult {
                    output: None,
                    files: 0,
                    dirs: 0,
                    skipped: 0,
                    converted: 0,
                    bytes: 0,
                    renamed_on_disk: stats.renamed,
                    rename_collisions: stats.collisions,
                }),
                _ => false,
            }),
            action matches FolderAction::Fail(failure) ==> (match event {
                FolderEvent::NotFound { error } => failure == (ProcessFailure::NotFound {
                    path: old(self).path,
                    error,
                }),
                FolderEvent::Located { folder, is_dir } => !is_dir && (
                failure matches ProcessFailure::NotADirectory { folder: text } && text@
                    == path_buf_text(folder)),
                FolderEvent::RenameFailed { error } => failure == (ProcessFailure::Rename {
                    error,
                }),
                FolderEvent::Renamed { .. } => failure is Nameless,
                FolderEvent::OutputChecked { exists } => exists && (
                failure matches ProcessFailure::OutputExists { output: text } && text@
                    == path_buf_text(&old(self).output->0)),
                FolderEvent::ZipFailed { error } => failure == (ProcessFailure::Zip { error }),
                FolderEvent::Zipped { .. } => false,
            }),
            final(self).stage is Renaming <==> action is Rename,
            final(self).stage is CheckingOutput <==> action is CheckOutput,
            final(self).stage is Zipping <==> action is WriteZip,
            final(self).stage is Ended <==> action is Finish || action is Fail,
    {
        match event {
            FolderEvent::NotFound { error } => {
                self.stage = FolderStage::Ended;
                FolderAction::Fail(ProcessFailure::NotFound { path: self.path.clone(), error })
            },
            FolderEvent::Located { folder, is_dir } => {
                if is_dir {
                    self.stage = FolderStage::Renaming;
                    FolderAction::Rename
                } else {
                    self.stage = FolderStage::Ended;
                    FolderAction::Fail(ProcessFailure::NotADirectory { folder: show(folder) })
                }
            },
            FolderEvent::RenameFailed { error } => {
                self.stage = FolderStage::Ended;
                FolderAction::Fail(ProcessFailure::Rename { error })
            },
            FolderEvent::Renamed { folder, stats } => {
                self.rename = stats;
                if !self.make_zip {
                    self.stage = FolderStage::Ended;
                    return FolderAction::Finish(ProcessResult::renamed(&stats));
                }
                match default_output_for(folder) {
                    Ok(output) => {
                        self.output = Some(output);
                        self.stage = FolderStage::CheckingOutput;
                        FolderAction::CheckOutput
                    },
                    Err(FolderError::NoName) => {
                        self.stage = FolderStage::Ended;
                        FolderAction::Fail(ProcessFailure::Nameless)
                    },
                }
            },
            FolderEvent::OutputChecked { exists } => {
                if exists {
                    let output = show(self.output.as_ref().unwrap());
                    self.stage = FolderStage::Ended;
                    FolderAction::Fail(ProcessFailure::OutputExists { output })
                } else {
                    self.stage = FolderStage::Zipping;
                    FolderAction::WriteZip { options: ZipOptions::default() }
                }
            },
            FolderEvent::ZipFailed { error } => {
                self.stage = FolderStage::Ended;
                FolderAction::Fail(ProcessFailure::Zip { error })
            },
            FolderEvent::Zipped { added } => {
                let output = show(self.output.as_ref().unwrap());
                self.stage = FolderStage::Ended;
                FolderAction::Finish(ProcessResult::zipped(output, &added, &self.rename))
            },
        }
    }
}

/// The stages come in order: a folder is archived only where that is asked for, after
/// what it holds has been renamed, and where nothing is in the archive's place.
pub proof fn law_archiving_comes_last(
    job: FolderJob,
    event: FolderEvent<'_>,
    stage: FolderStage,
    action: FolderAction,
)
    requires
        job.wf(),
        job.expects(event),
        job.leads_to(event, stage, action),
    ensures
        action is CheckOutput ==> job.make_zip && job.stage is Renaming && event is Renamed,
        action is WriteZip ==> {
            &&& job.make_zip
            &&& job.stage is CheckingOutput
            &&& event matches FolderEvent::OutputChecked { exists }
            &&& !exists
        },
        stage is CheckingOutput <==> action is CheckOutput,
        stage is Zipping <==> action is WriteZip,
        stage is Ended <==> action is Finish || action is Fail,
{
}

/// An archive that is asked for is made: once what the folder holds has been renamed,
/// whatever was counted there, the job goes on to the archive, unless the folder has no
/// name to give to one. Where none is asked for, the job is done.
pub proof fn law_archive_follows_the_renames(
    job: FolderJob,
    folder: &Path,
    stats: RenameStats,
    stage: FolderStage,
    action: FolderAction,
)
    requires
        job.leads_to(FolderEvent::Renamed { folder, stats }, stage, action),
    ensures
        job.make_zip && path_components(folder).len() > 0 && is_plain_bytes(
            path_components(folder).last(),
        ) <==> action is CheckOutput,
        action is CheckOutput <==> stage is CheckingOutput,
        !(action is CheckOutput) ==> stage is Ended,
        job.make_zip && !(action is CheckOutput) ==> action == FolderAction::Fail(
            ProcessFailure::Nameless,
        ),
        !job.make_zip <==> action is Finish,
{
}

/// What was counted while renaming does not decide how a job goes on: the same folder
/// leads to an archive after any renames or none.
pub proof fn law_counters_do_not_decide(
    job: FolderJob,
    folder: &Path,
    one: RenameStats,
    other: RenameStats,
    stage: FolderStage,
    action: FolderAction,
)
    requires
        job.make_zip,
    ensures
        job.leads_to(FolderEvent::Renamed { folder, stats: one }, stage, action) == job.leads_to(
            FolderEvent::Renamed { folder, stats: other },
            stage,
            action,
        ),
{
}

/// A job ends well in one of two ways. Where an archive is asked for, it is once that
/// has been made, and the result says where it is, what was counted for it, and what had
/// been renamed before; where none is, it is once the renames are done, and the result
/// speaks of no archive.
pub proof fn law_how_a_job_ends_well(
    job: FolderJob,
    event: FolderEvent<'_>,
    stage: FolderStage,
    result: ProcessResult,
)
    requires
        job.wf(),
        job.expects(event),
        job.leads_to(event, stage, FolderAction::Finish(result)),
    ensures
        stage is Ended,
        job.make_zip <==> event is Zipped,
        job.make_zip <==> result.output is Some,
        !job.make_zip <==> event is Renamed,
        event matches FolderEvent::Zipped { added } ==> {
            &&& job.stage is Zipping
            &&& result.output->0@ == path_buf_text(&job.output->0)
            &&& result.files == added.files
            &&& result.dirs == added.dirs
            &&& result.skipped == added.skipped
            &&& result.converted == added.converted
            &&& result.bytes == added.bytes
            &&& result.renamed_on_disk == job.rename.renamed
            &&& result.rename_collisions == job.rename.collisions
        },
        event matches FolderEvent::Renamed { stats, .. } ==> {
            &&& result.files == 0
            &&& result.dirs == 0
            &&& result.skipped == 0
            &&& result.converted == 0
            &&& result.bytes == 0
            &&& result.renamed_on_disk == stats.renamed
            &&& result.rename_collisions == stats.collisions
        },
{
}

/// A folder that is there is renamed, and anything else is refused by its path; what was
/// said where a stage failed is handed on, and an archive that stands in the way of the
/// new one is never replaced.
pub proof fn law_how_a_job_fails(
    job: FolderJob,
    event: FolderEvent<'_>,
    stage: FolderStage,
    action: FolderAction,
)
    requires
        job.leads_to(event, stage, action),
    ensures
        event matches FolderEvent::NotFound { error } ==> action == FolderAction::Fail(
            ProcessFailure::NotFound { path: job.path, error },
        ),
        event matches FolderEvent::Located { folder, is_dir } ==> {
            &&& is_dir <==> action is Rename
            &&& is_dir <==> stage is Renaming
            &&& !is_dir ==> (action matches FolderAction::Fail(failure) && (
            failure matches ProcessFailure::NotADirectory { folder: text } && text@
                == path_buf_text(folder)))
        },
        event matches FolderEvent::RenameFailed { error } ==> action == FolderAction::Fail(
            ProcessFailure::Rename { error },
        ),
        event matches FolderEvent::OutputChecked { exists } ==> {
            &&& !exists <==> action == (FolderAction::WriteZip {
                options: ZipOptions { level: 6, include_mac_cruft: false, wrap: true },
            })
            &&& !exists <==> stage is Zipping
            &&& exists ==> (action matches FolderAction::Fail(failure) && (
            failure matches ProcessFailure::OutputExists { output: text } && text@
                == path_buf_text(&job.output->0)))
        },
        event matches FolderEvent::ZipFailed { error } ==> action == FolderAction::Fail(
            ProcessFailure::Zip { error },
        ),
        event matches FolderEvent::Zipped { .. } ==> action is Finish,
        action is Fail ==> stage is Ended,
{
}

/// What a job waits for decides what can come; and from where it deals with an archive
/// on, it is one that is asked for and that has its place.
pub proof fn law_folder_events_come_in_turn(job: FolderJob, event: FolderEvent<'_>)
    ensures
        event is NotFound || event is Located ==> (job.expects(event) <==> job.stage is Locating),
        event is RenameFailed || event is Renamed ==> (job.expects(event) <==> job.stage
            is Renaming),
        event is OutputChecked ==> (job.expects(event) <==> job.stage is CheckingOutput),
        event is ZipFailed || event is Zipped ==> (job.expects(event) <==> job.stage is Zipping),
        job.wf() <==> ((job.stage is CheckingOutput || job.stage is Zipping) ==> job.make_zip
            && job.output is Some),
{
}

} // verus!
