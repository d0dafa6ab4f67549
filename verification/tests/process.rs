use hangul_conv::process::{
    FolderAction, FolderEvent, FolderJob, FolderStage, ProcessFailure, ProcessResult,
};
use hangul_conv::{RenameStats, ZipOptions, ZipStats};
use std::path::{Path, PathBuf};

fn send(job: &mut FolderJob, event: FolderEvent<'_>) -> FolderAction {
    assert!(job.accepts(&event));
    job.step(event)
}

fn failure(action: FolderAction) -> String {
    match action {
        FolderAction::Fail(failure) => failure.message(),
        other => panic!("{:?}", other),
    }
}

fn locate(job: &mut FolderJob) -> FolderAction {
    send(job, FolderEvent::Located { folder: &PathBuf::from("/x/y"), is_dir: true })
}

fn renames() -> RenameStats {
    RenameStats { scanned: 9, renamed: 4, skipped_already_nfc: 3, collisions: 2, errors: 0 }
}

#[test]
fn renaming_alone() {
    let mut job = FolderJob::start("y".to_string(), false);
    assert!(matches!(locate(&mut job), FolderAction::Rename));
    let event = FolderEvent::Renamed { folder: Path::new("/x/y"), stats: renames() };
    match send(&mut job, event) {
        FolderAction::Finish(result) => {
            assert_eq!(result.output, None);
            assert_eq!((result.files, result.dirs, result.skipped), (0, 0, 0));
            assert_eq!((result.converted, result.bytes), (0, 0));
            assert_eq!((result.renamed_on_disk, result.rename_collisions), (4, 2));
        }
        other => panic!("{:?}", other),
    }
    assert_eq!(job.stage, FolderStage::Ended);
}

#[test]
fn renaming_and_archiving() {
    let mut job = FolderJob::start("y".to_string(), true);
    locate(&mut job);
    let event = FolderEvent::Renamed { folder: Path::new("/x/e\u{301}"), stats: renames() };
    assert!(matches!(send(&mut job, event), FolderAction::CheckOutput));
    assert_eq!(job.output.as_deref(), Some(Path::new("/x/\u{e9}.zip")));
    let event = FolderEvent::OutputChecked { exists: false };
    match send(&mut job, event) {
        FolderAction::WriteZip { options } => assert_eq!(options, ZipOptions::default()),
        other => panic!("{:?}", other),
    }
    let stats = ZipStats { files: 5, dirs: 4, skipped: 3, converted: 2, bytes: 1 };
    match send(&mut job, FolderEvent::Zipped { added: stats }) {
        FolderAction::Finish(result) => {
            assert_eq!(result.output.as_deref(), Some("/x/\u{e9}.zip"));
            assert_eq!((result.files, result.dirs, result.skipped), (5, 4, 3));
            assert_eq!((result.converted, result.bytes), (2, 1));
            assert_eq!((result.renamed_on_disk, result.rename_collisions), (4, 2));
        }
        other => panic!("{:?}", other),
    }
}

#[test]
fn each_stage_can_fail() {
    let mut job = FolderJob::start("y".to_string(), true);
    let event = FolderEvent::NotFound { error: "gone".to_string() };
    assert_eq!(failure(send(&mut job, event)), "folder not found: y: gone");

    let mut job = FolderJob::start("y".to_string(), true);
    let elsewhere = PathBuf::from("/x/z");
    let event = FolderEvent::Located { folder: &elsewhere, is_dir: false };
    assert_eq!(failure(send(&mut job, event)), "not a directory: /x/z");

    let mut job = FolderJob::start("y".to_string(), true);
    locate(&mut job);
    let event = FolderEvent::RenameFailed { error: "no".to_string() };
    assert_eq!(failure(send(&mut job, event)), "rename: no");

    let mut job = FolderJob::start("/".to_string(), true);
    locate(&mut job);
    let event = FolderEvent::Renamed { folder: Path::new("/"), stats: renames() };
    assert_eq!(failure(send(&mut job, event)), "folder has no name");

    let mut job = FolderJob::start("y".to_string(), true);
    locate(&mut job);
    send(&mut job, FolderEvent::Renamed { folder: Path::new("/x/y"), stats: renames() });
    let event = FolderEvent::OutputChecked { exists: true };
    assert_eq!(failure(send(&mut job, event)), "output already exists: /x/y.zip");

    let mut job = FolderJob::start("y".to_string(), true);
    locate(&mut job);
    send(&mut job, FolderEvent::Renamed { folder: Path::new("/x/y"), stats: renames() });
    send(&mut job, FolderEvent::OutputChecked { exists: false });
    let event = FolderEvent::ZipFailed { error: "full".to_string() };
    assert_eq!(failure(send(&mut job, event)), "zip: full");
}

#[test]
fn folder_events_are_taken_in_turn() {
    let job = FolderJob::start("y".to_string(), true);
    let folder = PathBuf::from("/x/y");
    assert!(job.accepts(&FolderEvent::Located { folder: &folder, is_dir: true }));
    assert!(!job.accepts(&FolderEvent::Zipped { added: ZipStats::default() }));
    assert!(!job.accepts(&FolderEvent::OutputChecked { exists: false }));
}

#[test]
fn results_and_failures() {
    let zip = ZipStats { files: 1, dirs: 2, skipped: 3, converted: 4, bytes: 5 };
    let result = ProcessResult::zipped("o".to_string(), &zip, &renames());
    assert_eq!(result.output, Some("o".to_string()));
    assert_eq!(result.converted, 4);
    assert_eq!(ProcessResult::renamed(&renames()).files, 0);
    assert_eq!(ProcessFailure::Nameless.message(), "folder has no name");
}
