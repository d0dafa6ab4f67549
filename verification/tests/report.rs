use hangul_conv::report::{
    collision_line, decimal_text, entry_line, entry_report, failure_line, folder_not_found_line,
    rename_line, rename_summary, stat_line, walk_error_line, zip_summary,
};
use hangul_conv::{RenameStats, ZipStats};

#[test]
fn numbers_in_decimal() {
    for n in [0, 1, 9, 10, 42, 100, 1234567890, u64::MAX] {
        assert_eq!(decimal_text(n), n.to_string());
    }
}

#[test]
fn the_summary_of_renames() {
    let stats = RenameStats {
        scanned: 12,
        renamed: 5,
        skipped_already_nfc: 4,
        collisions: 2,
        errors: 1,
    };
    assert_eq!(
        rename_summary(&stats, false),
        "\nscanned: 12, renamed: 5, already NFC: 4, collisions: 2, errors: 1"
    );
    assert_eq!(
        rename_summary(&stats, true),
        "\nscanned: 12, renamed: 5, already NFC: 4, collisions: 2, errors: 1  (dry-run)"
    );
}

#[test]
fn the_summary_of_an_archive() {
    let stats = ZipStats { files: 3, dirs: 2, skipped: 1, converted: 4, bytes: 1000 };
    assert_eq!(
        zip_summary("/a/b.zip", &stats),
        "\nwrote /a/b.zip \u{2014} files: 3, dirs: 2, skipped: 1, uncompressed: 1000 bytes"
    );
}

#[test]
fn lines_for_single_entries() {
    assert_eq!(rename_line("/a/x", "y"), "/a/x  ->  y");
    assert_eq!(collision_line("/a/x", "/a/y"), "collision: /a/x -> /a/y (target exists)");
    assert_eq!(entry_line("a/b", false, true), "* F  a/b");
    assert_eq!(entry_line("a/", true, false), "  D  a/");
}

#[test]
fn a_quiet_archive_has_no_line_for_an_entry() {
    assert_eq!(entry_report(true, "a/b", false, true), None);
    assert_eq!(entry_report(false, "a/b", false, true), Some("* F  a/b".to_string()));
}

#[test]
fn lines_for_what_went_wrong() {
    assert_eq!(stat_line("/a", "gone"), "stat /a: gone");
    assert_eq!(walk_error_line("loop"), "walk error: loop");
    assert_eq!(failure_line("/a", "denied"), "error for /a: denied");
    assert_eq!(folder_not_found_line("/a"), "folder not found: /a");
}
