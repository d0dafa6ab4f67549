use hangul_conv::rename::{
    exit_status, plan_entry, plan_root, walk_event, EntryPlan, FileId, RenameAction, RenameEvent,
    RenamePhase, RenamePolicy, RenameRefusal, RenameRun, RenameStats, RenameTask, RootPlan,
};
use hangul_conv::walk::WalkPlan;
use std::path::Path;

const NFD: &str = "/top/\u{1112}\u{1161}\u{11ab}.txt";
const NFC: &str = "/top/\u{d55c}.txt";

fn tree() -> RenameRun {
    RenameRun::start_tree(true).unwrap()
}

fn send(run: &mut RenameRun, event: RenameEvent<'_>) -> RenameAction {
    assert!(run.accepts(&event));
    run.step(event)
}

fn stats(
    scanned: usize,
    renamed: usize,
    skipped_already_nfc: usize,
    collisions: usize,
    errors: usize,
) -> RenameStats {
    RenameStats { scanned, renamed, skipped_already_nfc, collisions, errors }
}

#[test]
fn a_tree_needs_a_directory() {
    assert_eq!(RenameRun::start_tree(false).unwrap_err(), RenameRefusal::NotADirectory);
    assert_eq!(tree().stats, RenameStats::default());
    assert_eq!(RenameStats::default(), stats(0, 0, 0, 0, 0));
}

#[test]
fn entries_are_planned_by_their_names() {
    match plan_entry(Path::new(NFD)) {
        EntryPlan::Rename(pending) => {
            assert_eq!(pending.new_name, "\u{d55c}.txt");
            assert_eq!(pending.target, Path::new(NFC));
        }
        other => panic!("{:?}", other),
    }
    assert!(matches!(plan_entry(Path::new(NFC)), EntryPlan::AlreadyNfc));
    assert!(matches!(plan_entry(Path::new("/")), EntryPlan::Unnamed));
    assert!(matches!(plan_entry(Path::new("a/..")), EntryPlan::Unnamed));
    assert!(matches!(plan_entry(Path::new("")), EntryPlan::Unnamed));
}

#[test]
fn only_the_last_component_is_renamed() {
    match plan_entry(Path::new("\u{1112}\u{1161}/e\u{301}")) {
        EntryPlan::Rename(pending) => {
            assert_eq!(pending.target, Path::new("\u{1112}\u{1161}/\u{e9}"))
        }
        other => panic!("{:?}", other),
    }
    match plan_entry(Path::new("e\u{301}")) {
        EntryPlan::Rename(pending) => assert_eq!(pending.target, Path::new("\u{e9}")),
        other => panic!("{:?}", other),
    }
}

#[test]
fn an_entry_is_renamed_where_nothing_is_in_the_way() {
    let mut run = tree();
    assert_eq!(send(&mut run, RenameEvent::Found(Path::new(NFD))), RenameAction::CheckTarget);
    assert_eq!(run.pending.as_ref().unwrap().target, Path::new(NFC));
    assert_eq!(
        send(&mut run, RenameEvent::TargetMissing),
        RenameAction::Rename { announce: false }
    );
    assert_eq!(send(&mut run, RenameEvent::Renamed), RenameAction::Report);
    assert_eq!(run.pending.as_ref().unwrap().new_name, "\u{d55c}.txt");
    assert_eq!(run.stats, stats(1, 1, 0, 0, 0));
}

#[test]
fn the_same_file_under_another_spelling_is_renamed() {
    let mut run = tree();
    let id = FileId { dev: 3, ino: 7 };
    send(&mut run, RenameEvent::Found(Path::new(NFD)));
    assert_eq!(send(&mut run, RenameEvent::TargetExists), RenameAction::CompareFiles);
    assert_eq!(
        send(&mut run, RenameEvent::Compared { source: id, target: id }),
        RenameAction::Rename { announce: false }
    );
    assert_eq!(run.phase, RenamePhase::Renaming);
}

fn collide(policy: RenamePolicy, target: FileId) -> RenameAction {
    let mut run = RenameRun::start(policy);
    let source = FileId { dev: 3, ino: 7 };
    send(&mut run, RenameEvent::Found(Path::new(NFD)));
    send(&mut run, RenameEvent::TargetExists);
    let action = send(&mut run, RenameEvent::Compared { source, target });
    assert_eq!(run.stats, stats(1, 0, 0, 1, 0));
    assert_eq!(run.phase, RenamePhase::Walking);
    action
}

#[test]
fn another_file_at_the_target_is_a_collision() {
    for target in [FileId { dev: 3, ino: 8 }, FileId { dev: 4, ino: 7 }] {
        for dry_run in [false, true] {
            let policy = RenamePolicy::command(dry_run, false);
            assert_eq!(collide(policy, target), RenameAction::ReportCollision);
        }
    }
}

#[test]
fn a_quiet_command_has_no_line_for_a_collision() {
    let target = FileId { dev: 3, ino: 8 };
    for dry_run in [false, true] {
        assert_eq!(collide(RenamePolicy::command(dry_run, true), target), RenameAction::Next);
    }
}

#[test]
fn a_tree_says_nothing_of_a_collision() {
    assert_eq!(collide(RenamePolicy::tree(), FileId { dev: 3, ino: 8 }), RenameAction::Next);
}

#[test]
fn a_quiet_command_has_no_line_for_a_failure() {
    for (quiet, said) in [(true, RenameAction::Next), (false, RenameAction::ReportFailure)] {
        let mut run = RenameRun::start(RenamePolicy::command(false, quiet));
        assert_eq!(send(&mut run, RenameEvent::Unreadable), said);
        send(&mut run, RenameEvent::Found(Path::new(NFD)));
        send(&mut run, RenameEvent::TargetMissing);
        assert_eq!(send(&mut run, RenameEvent::Failed), said);
        assert_eq!(run.stats, stats(1, 0, 0, 0, 2));
    }
}

#[test]
fn a_second_run_renames_nothing() {
    let mut run = tree();
    send(&mut run, RenameEvent::Found(Path::new(NFD)));
    let target = run.pending.as_ref().unwrap().target.clone();
    let mut again = tree();
    assert_eq!(send(&mut again, RenameEvent::Found(&target)), RenameAction::Next);
    assert_eq!(again.stats, stats(1, 0, 1, 0, 0));
}

#[test]
fn a_second_run_over_a_tree_passes_over_all() {
    let first = ["r/e\u{301}/e\u{301}", "r/e\u{301}/b", "r/e\u{301}", "r/c"];
    let mut run = tree();
    for name in first {
        if send(&mut run, RenameEvent::Found(Path::new(name))) == RenameAction::CheckTarget {
            send(&mut run, RenameEvent::TargetMissing);
            send(&mut run, RenameEvent::Renamed);
        }
    }
    assert_eq!(run.stats, stats(4, 2, 2, 0, 0));

    let second = ["r/\u{e9}/\u{e9}", "r/\u{e9}/b", "r/\u{e9}", "r/c"];
    let mut again = tree();
    for name in second {
        assert_eq!(send(&mut again, RenameEvent::Found(Path::new(name))), RenameAction::Next);
    }
    assert_eq!(again.stats, stats(4, 0, 4, 0, 0));
}

#[test]
fn entries_without_a_name_are_scanned_and_left() {
    let mut run = tree();
    assert_eq!(send(&mut run, RenameEvent::Found(Path::new("a/.."))), RenameAction::Next);
    assert_eq!(run.stats, stats(1, 0, 0, 0, 0));
}

#[test]
fn the_root_of_a_walk_is_left_alone() {
    let mut run = tree();
    let event = walk_event(0, Path::new(NFD));
    assert_eq!(send(&mut run, event), RenameAction::Next);
    assert_eq!(run.stats, RenameStats::default());
    let event = walk_event(1, Path::new(NFD));
    assert_eq!(send(&mut run, event), RenameAction::CheckTarget);
}

#[test]
fn a_tree_stops_at_the_first_failure() {
    let mut run = tree();
    assert_eq!(send(&mut run, RenameEvent::Unreadable), RenameAction::Next);
    send(&mut run, RenameEvent::Found(Path::new(NFD)));
    send(&mut run, RenameEvent::TargetMissing);
    assert_eq!(send(&mut run, RenameEvent::Failed), RenameAction::Stop);
    assert_eq!(run.phase, RenamePhase::Stopped);
    assert_eq!(run.stats, stats(1, 0, 0, 0, 1));
    assert!(!run.accepts(&RenameEvent::Found(Path::new(NFD))));
}

#[test]
fn the_command_counts_failures_and_goes_on() {
    let mut run = RenameRun::start(RenamePolicy::command(false, false));
    send(&mut run, RenameEvent::Found(Path::new(NFD)));
    send(&mut run, RenameEvent::TargetExists);
    assert_eq!(send(&mut run, RenameEvent::Failed), RenameAction::ReportFailure);
    send(&mut run, RenameEvent::Found(Path::new(NFD)));
    assert_eq!(
        send(&mut run, RenameEvent::TargetMissing),
        RenameAction::Rename { announce: true }
    );
    assert_eq!(send(&mut run, RenameEvent::Renamed), RenameAction::Next);
    assert_eq!(run.stats, stats(2, 1, 0, 0, 1));
}

#[test]
fn a_dry_run_only_announces() {
    let mut run = RenameRun::start(RenamePolicy::command(true, false));
    send(&mut run, RenameEvent::Found(Path::new(NFD)));
    assert_eq!(send(&mut run, RenameEvent::TargetMissing), RenameAction::Announce);
    assert_eq!(run.stats, stats(1, 1, 0, 0, 0));

    let mut quiet = RenameRun::start(RenamePolicy::command(true, true));
    let id = FileId { dev: 1, ino: 1 };
    send(&mut quiet, RenameEvent::Found(Path::new(NFD)));
    send(&mut quiet, RenameEvent::TargetExists);
    assert_eq!(
        send(&mut quiet, RenameEvent::Compared { source: id, target: id }),
        RenameAction::Next
    );
    assert_eq!(quiet.stats, run.stats);
}

#[test]
fn events_are_taken_in_turn() {
    let run = tree();
    assert!(run.accepts(&RenameEvent::Root));
    assert!(!run.accepts(&RenameEvent::TargetMissing));
    assert!(!run.accepts(&RenameEvent::TargetExists));
    assert!(!run.accepts(&RenameEvent::Renamed));
    assert!(!run.accepts(&RenameEvent::Failed));
    let mut full = tree();
    full.stats.scanned = usize::MAX;
    assert!(!full.accepts(&RenameEvent::Found(Path::new(NFD))));
    full.stats.errors = usize::MAX;
    assert!(!full.accepts(&RenameEvent::Unreadable));
}

#[test]
fn every_entry_is_accounted_for() {
    let mut run = RenameRun::start(RenamePolicy::command(false, true));
    for name in ["a", NFC, "..", NFD, "b"] {
        if send(&mut run, RenameEvent::Found(Path::new(name))) == RenameAction::CheckTarget {
            send(&mut run, RenameEvent::TargetMissing);
            send(&mut run, RenameEvent::Renamed);
        }
    }
    assert_eq!(run.stats, stats(5, 1, 3, 0, 0));
}

#[test]
fn roots_are_planned_by_what_they_are() {
    assert_eq!(plan_root(None, true), RootPlan::Unreadable);
    assert_eq!(plan_root(Some(false), true), RootPlan::Single);
    assert_eq!(plan_root(Some(true), true), RootPlan::Walk(WalkPlan::command(true)));
    assert_eq!(plan_root(Some(true), false), RootPlan::Walk(WalkPlan::command(false)));
}

#[test]
fn the_exit_status_tells_of_trouble() {
    assert_eq!(exit_status(&stats(9, 5, 4, 0, 0)), 0);
    assert_eq!(exit_status(&stats(9, 5, 3, 1, 0)), 1);
    assert_eq!(exit_status(&stats(9, 5, 4, 0, 2)), 1);
}

#[test]
fn a_refused_tree_is_named() {
    assert_eq!(RenameRefusal::NotADirectory.message("/x/y"), "not a directory: /x/y");
}

#[test]
fn what_a_failed_rename_says() {
    let task = RenameTask::Rename { path: "/x/a".to_string(), target: "/x/b".to_string() };
    let said = Some("rename /x/a -> /x/b".to_string());
    assert_eq!(RenamePolicy::tree().context(&task), said);
    assert_eq!(RenamePolicy::command(false, true).context(&task), said);
}

#[test]
fn a_tree_run_does_not_say_what_it_looked_at() {
    let task = RenameTask::Stat { path: "/x/a".to_string() };
    assert_eq!(RenamePolicy::tree().context(&task), None);
    let said = Some("stat /x/a".to_string());
    assert_eq!(RenamePolicy::command(true, false).context(&task), said);
}

#[test]
fn entries_of_a_directory_keep_apart() {
    let names = ["/top/e\u{301}", "/top/e\u{300}", "/top/e", "/top/E\u{301}"];
    let ends: Vec<_> = names
        .iter()
        .map(|name| match plan_entry(Path::new(name)) {
            EntryPlan::Rename(pending) => pending.target,
            _ => Path::new(name).to_path_buf(),
        })
        .collect();
    assert_eq!(ends[0], Path::new("/top/\u{e9}"));
    for i in 0..ends.len() {
        for j in 0..i {
            assert_ne!(ends[i], ends[j]);
        }
    }
}

#[test]
fn how_trees_are_walked() {
    let tree = WalkPlan::tree();
    assert_eq!((tree.min_depth, tree.max_depth), (1, usize::MAX));
    assert_eq!((tree.contents_first, tree.sort_by_name), (true, false));
    let flat = WalkPlan::command(false);
    assert_eq!((flat.min_depth, flat.max_depth), (0, 1));
    assert_eq!((flat.contents_first, flat.sort_by_name), (true, false));
    let deep = WalkPlan::command(true);
    assert_eq!(deep, WalkPlan { max_depth: usize::MAX, ..flat });
    let archive = WalkPlan::archive();
    assert_eq!((archive.min_depth, archive.max_depth), (1, usize::MAX));
    assert_eq!((archive.contents_first, archive.sort_by_name), (false, true));
}
