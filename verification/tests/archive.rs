use hangul_conv::archive::{
    any_cruft, check_paths, entry_options, is_mac_cruft, join_parts, name_parts, Compression,
    EntryKind, ZipAction, ZipEvent, ZipOptions, ZipPhase, ZipRefusal, ZipRun, ZipStats, ZipTask,
};
use hangul_conv::paths::FolderError;
use hangul_conv::rename::{plan_entry, EntryPlan};
use std::path::Path;

fn run<'a>(folder: &'a str, options: &ZipOptions) -> ZipRun<'a> {
    ZipRun::start(Path::new(folder), options).unwrap()
}

fn find(run: &mut ZipRun<'_>, path: &str, kind: EntryKind) -> ZipAction {
    let event = ZipEvent::Found { path: Path::new(path), kind };
    assert!(run.accepts(&event));
    run.step(event)
}

fn file(run: &mut ZipRun<'_>, path: &str) -> (String, bool) {
    match find(run, path, EntryKind::File) {
        ZipAction::AddFile { name, converted } => (name, converted),
        other => panic!("{:?}", other),
    }
}

fn directory(run: &mut ZipRun<'_>, path: &str) -> (String, bool) {
    match find(run, path, EntryKind::Directory) {
        ZipAction::AddDirectory { name, converted } => (name, converted),
        other => panic!("{:?}", other),
    }
}

fn done(run: &mut ZipRun<'_>, event: ZipEvent<'_>) {
    assert!(run.accepts(&event));
    assert!(matches!(run.step(event), ZipAction::Next));
}

#[test]
fn default_options() {
    let options = ZipOptions::default();
    assert_eq!(options, ZipOptions { level: 6, include_mac_cruft: false, wrap: true });
    assert_eq!(ZipOptions::from_flags(6, false, false), options);
    assert_eq!(
        ZipOptions::from_flags(9, true, true),
        ZipOptions { level: 9, include_mac_cruft: true, wrap: false }
    );
}

#[test]
fn level_zero_stores() {
    let stored = entry_options(&ZipOptions::from_flags(0, false, false));
    assert_eq!(stored.compression, Compression::Stored);
    assert_eq!(stored.level, None);
    assert_eq!(stored.unix_permissions, 0o644);
    let deflated = entry_options(&ZipOptions::from_flags(9, false, false));
    assert_eq!(deflated.compression, Compression::Deflated);
    assert_eq!(deflated.level, Some(9));
    assert_eq!(deflated.unix_permissions, 0o644);
}

#[test]
fn nothing_is_overwritten() {
    assert_eq!(check_paths(true, false), Ok(()));
    assert_eq!(check_paths(true, true), Err(ZipRefusal::OutputExists));
    assert_eq!(check_paths(false, false), Err(ZipRefusal::NotADirectory));
    assert_eq!(check_paths(false, true), Err(ZipRefusal::NotADirectory));
}

#[test]
fn leftovers_are_found_anywhere_in_a_path() {
    for path in [".DS_Store", "a/.DS_Store", "__MACOSX/a/b", "a/._b", "Thumbs.db", "._a/b/c"] {
        assert!(is_mac_cruft(Path::new(path)), "{}", path);
    }
    for path in ["", "a", "a/b.txt", "DS_Store", "x.DS_Store", "a/b._c"] {
        assert!(!is_mac_cruft(Path::new(path)), "{}", path);
    }
}

#[test]
fn names_are_in_form_c_and_wrapped() {
    let mut run = run("/x/\u{1112}\u{1161}\u{11ab}", &ZipOptions::default());
    assert_eq!(run.prefix.as_deref(), Some("\u{d55c}"));
    assert_eq!(
        file(&mut run, "/x/\u{1112}\u{1161}\u{11ab}/e\u{301}/a.txt"),
        ("\u{d55c}/\u{e9}/a.txt".to_string(), false)
    );
    done(&mut run, ZipEvent::FileAdded { bytes: 0 });
    assert_eq!(
        file(&mut run, "/x/\u{1112}\u{1161}\u{11ab}/a/e\u{301}"),
        ("\u{d55c}/a/\u{e9}".to_string(), true)
    );
}

#[test]
fn names_without_a_wrap() {
    let mut run = run("/x/y", &ZipOptions::from_flags(6, false, true));
    assert_eq!(run.prefix, None);
    assert_eq!(directory(&mut run, "/x/y/e\u{301}"), ("\u{e9}/".to_string(), true));
    done(&mut run, ZipEvent::DirectoryAdded);
    assert_eq!(file(&mut run, "/x/y/e\u{301}/b"), ("\u{e9}/b".to_string(), false));
}

#[test]
fn a_folder_without_a_name_cannot_wrap() {
    let options = ZipOptions::default();
    assert_eq!(ZipRun::start(Path::new("/"), &options).unwrap_err(), FolderError::NoName);
    let options = ZipOptions::from_flags(6, false, true);
    let mut run = ZipRun::start(Path::new("/"), &options).unwrap();
    assert_eq!(file(&mut run, "/a/b"), ("a/b".to_string(), false));
}

#[test]
fn leftovers_are_left_out_unless_asked_for() {
    let mut plain = run("d", &ZipOptions::default());
    assert!(matches!(find(&mut plain, "d/.DS_Store", EntryKind::File), ZipAction::Next));
    assert!(matches!(find(&mut plain, "d/__MACOSX", EntryKind::Directory), ZipAction::Next));
    assert!(matches!(find(&mut plain, "d/__MACOSX/a", EntryKind::File), ZipAction::Next));
    assert_eq!(plain.stats.skipped, 3);

    let mut all = run("d", &ZipOptions::from_flags(6, true, false));
    assert_eq!(file(&mut all, "d/.DS_Store"), ("d/.DS_Store".to_string(), false));
    assert_eq!(all.stats.skipped, 0);
}

#[test]
fn a_folder_inside_a_leftover_is_no_leftover() {
    let mut run = run("/__MACOSX/d", &ZipOptions::default());
    assert_eq!(file(&mut run, "/__MACOSX/d/a"), ("d/a".to_string(), false));
}

#[test]
fn special_files_are_left_out() {
    let mut run = run("d", &ZipOptions::from_flags(6, true, false));
    assert!(matches!(find(&mut run, "d/link", EntryKind::Other), ZipAction::Next));
    assert_eq!(run.stats, ZipStats { skipped: 1, ..ZipStats::default() });
}

#[test]
fn an_entry_elsewhere_stops_the_run() {
    let mut run = run("/x/y", &ZipOptions::default());
    assert!(matches!(find(&mut run, "/x/z/a", EntryKind::File), ZipAction::Stop));
    assert!(matches!(find(&mut run, "/x/yy", EntryKind::File), ZipAction::Stop));
    assert!(matches!(find(&mut run, "x/y/a", EntryKind::File), ZipAction::Stop));
}

#[test]
fn the_folder_itself_as_an_entry() {
    let mut wrapped = run("/x/y", &ZipOptions::default());
    assert_eq!(directory(&mut wrapped, "/x/y/"), ("y/".to_string(), false));
    let mut bare = run("/x/y", &ZipOptions::from_flags(6, false, true));
    assert_eq!(directory(&mut bare, "/x/./y"), ("/".to_string(), false));
}

#[test]
fn counters_tell_what_was_added() {
    let mut run = run("d", &ZipOptions::default());
    directory(&mut run, "d/e\u{301}");
    assert_eq!(run.phase, ZipPhase::AddingDirectory { converted: true });
    done(&mut run, ZipEvent::DirectoryAdded);
    file(&mut run, "d/e\u{301}/a");
    done(&mut run, ZipEvent::FileAdded { bytes: 10 });
    file(&mut run, "d/e\u{301}/e\u{301}");
    done(&mut run, ZipEvent::FileAdded { bytes: 5 });
    find(&mut run, "d/._x", EntryKind::File);
    assert_eq!(
        run.stats,
        ZipStats { files: 2, dirs: 1, skipped: 1, converted: 2, bytes: 15 }
    );
}

#[test]
fn archive_events_are_taken_in_turn() {
    let mut run = run("d", &ZipOptions::default());
    assert!(!run.accepts(&ZipEvent::DirectoryAdded));
    assert!(!run.accepts(&ZipEvent::FileAdded { bytes: 0 }));
    file(&mut run, "d/a");
    assert!(!run.accepts(&ZipEvent::DirectoryAdded));
    assert!(!run.accepts(&ZipEvent::Found { path: Path::new("d/b"), kind: EntryKind::File }));
    run.stats.bytes = u64::MAX - 1;
    assert!(run.accepts(&ZipEvent::FileAdded { bytes: 1 }));
    assert!(!run.accepts(&ZipEvent::FileAdded { bytes: 2 }));
}

#[test]
fn parts_are_joined_by_slashes() {
    let parts = |names: &[&str]| names.iter().map(|name| name.to_string()).collect::<Vec<_>>();
    assert_eq!(join_parts(&parts(&[])), "");
    assert_eq!(join_parts(&parts(&["a"])), "a");
    assert_eq!(join_parts(&parts(&["a", "b", "c"])), "a/b/c");
}

#[test]
fn what_renaming_leaves_alone_is_not_marked() {
    for name in ["a", "\u{e9}", "e\u{301}", "\u{d55c}", "\u{1112}\u{1161}\u{11ab}"] {
        let path = format!("d/{}", name);
        let due = matches!(plan_entry(Path::new(&path)), EntryPlan::Rename(_));
        let mut run = run("d", &ZipOptions::default());
        assert_eq!(file(&mut run, &path).1, due, "{}", name);
    }
}

#[test]
fn a_joined_path_is_a_leftover_if_a_half_is() {
    let halves = ["", "a", "a/b", "__MACOSX", "a/._b", "./a", "./.DS_Store"];
    for above in halves {
        for below in halves {
            let (above, below) = (Path::new(above), Path::new(below));
            assert_eq!(
                is_mac_cruft(&above.join(below)),
                is_mac_cruft(above) || is_mac_cruft(below),
                "{:?} {:?}",
                above,
                below
            );
        }
    }
}

#[test]
fn components_that_are_not_unicode() {
    assert!(!any_cruft(&vec![b"a".to_vec(), b"\xff".to_vec()]));
    assert!(any_cruft(&vec![b"\xff".to_vec(), b"._\xff".to_vec()]));
    assert!(!any_cruft(&vec![]));
    let (parts, converted) = name_parts(&None, &vec![b"e\xcc\x81".to_vec(), b"\xff".to_vec()]);
    assert_eq!(parts, ["\u{e9}", "\u{fffd}"]);
    assert!(!converted);
    let (parts, converted) = name_parts(&Some("d".to_string()), &vec![b"e\xcc\x81".to_vec()]);
    assert_eq!(parts, ["d", "\u{e9}"]);
    assert!(converted);
}

#[test]
fn a_refused_archive_says_why() {
    assert_eq!(ZipRefusal::NotADirectory.message("/x/y", "/x/y.zip"), "not a directory: /x/y");
    assert_eq!(
        ZipRefusal::OutputExists.message("/x/y", "/x/y.zip"),
        "output already exists: /x/y.zip"
    );
}

#[test]
fn what_a_failed_archive_says() {
    let text = |text: &str| text.to_string();
    assert_eq!(ZipTask::Create { output: text("o.zip") }.context(), "create o.zip");
    assert_eq!(ZipTask::Walk.context(), "walk error");
    assert_eq!(ZipTask::Locate.context(), "strip_prefix failed");
    assert_eq!(ZipTask::AddDirectory { name: text("y/d/") }.context(), "add dir y/d/");
    assert_eq!(ZipTask::StartFile { name: text("y/f") }.context(), "start_file y/f");
    assert_eq!(ZipTask::Open { path: text("/x/y/f") }.context(), "open /x/y/f");
    assert_eq!(ZipTask::Copy { path: text("/x/y/f") }.context(), "copy /x/y/f");
    assert_eq!(ZipTask::Finish.context(), "finalize zip");
}

#[test]
fn wrapping_changes_no_counter() {
    let add_all = |options: &ZipOptions| {
        let mut run = run("d", options);
        find(&mut run, "d/.DS_Store", EntryKind::File);
        let (directory_name, _) = directory(&mut run, "d/e\u{301}");
        done(&mut run, ZipEvent::DirectoryAdded);
        let (file_name, _) = file(&mut run, "d/e\u{301}/a");
        done(&mut run, ZipEvent::FileAdded { bytes: 7 });
        (directory_name, file_name, run.stats)
    };
    let (wrapped_directory, wrapped_file, wrapped) = add_all(&ZipOptions::default());
    let (bare_directory, bare_file, bare) = add_all(&ZipOptions::from_flags(0, false, true));
    assert_eq!(wrapped, ZipStats { files: 1, dirs: 1, skipped: 1, converted: 1, bytes: 7 });
    assert_eq!(bare, wrapped);
    assert_eq!((wrapped_directory.as_str(), wrapped_file.as_str()), ("d/\u{e9}/", "d/\u{e9}/a"));
    assert_eq!((bare_directory.as_str(), bare_file.as_str()), ("\u{e9}/", "\u{e9}/a"));
}

#[test]
fn a_renamed_tree_is_not_marked() {
    let mut archive = run("d", &ZipOptions::default());
    let target = match plan_entry(Path::new("d/e\u{301}")) {
        EntryPlan::Rename(pending) => pending.target,
        other => panic!("{:?}", other),
    };
    let inside = match plan_entry(&target.join("o\u{308}")) {
        EntryPlan::Rename(pending) => pending.target,
        other => panic!("{:?}", other),
    };
    let entry = directory(&mut archive, target.to_str().unwrap());
    assert_eq!(entry, ("d/\u{e9}/".to_string(), false));
    done(&mut archive, ZipEvent::DirectoryAdded);
    let entry = file(&mut archive, inside.to_str().unwrap());
    assert_eq!(entry, ("d/\u{e9}/\u{f6}".to_string(), false));
    done(&mut archive, ZipEvent::FileAdded { bytes: 1 });
    assert_eq!(archive.stats.converted, 0);
}
