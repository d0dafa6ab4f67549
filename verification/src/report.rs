//! The lines that the commands print.
use crate::archive::ZipStats;
use crate::rename::RenameStats;
use vstd::prelude::*;

verus! {

/// The digit of a number below ten.
pub open spec fn digit(d: nat) -> char {
    (48 + d) as char
}

/// A number in decimal, without leading zeros.
pub open spec fn decimal(n: nat) -> Seq<char>
    decreases n,
{
    if n < 10 {
        seq![digit(n)]
    } else {
        decimal(n / 10).push(digit(n % 10))
    }
}

fn digit_text(d: u64) -> (text: &'static str)
    requires
        d < 10,
    ensures
        text@ == seq![digit(d as nat)],
{
    proof {
        reveal_strlit("0");
        reveal_strlit("1");
        reveal_strlit("2");
        reveal_strlit("3");
        reveal_strlit("4");
        reveal_strlit("5");
        reveal_strlit("6");
        reveal_strlit("7");
        reveal_strlit("8");
        reveal_strlit("9");
    }
    match d {
        0 => "0",
        1 => "1",
        2 => "2",
        3 => "3",
        4 => "4",
        5 => "5",
        6 => "6",
        7 => "7",
        8 => "8",
        _ => "9",
    }
}

/// A number in decimal.
pub fn decimal_text(n: u64) -> (text: String)
    ensures
        text@ == decimal(n as nat),
    decreases n,
{
    if n < 10 {
        digit_text(n).to_owned()
    } else {
        let mut text = decimal_text(n / 10);
        text.append(digit_text(n % 10));
        assert(text@ =~= decimal(n as nat));
        text
    }
}

fn append_number(text: &mut String, label: &str, n: u64)
    ensures
        final(text)@ == old(text)@ + label@ + decimal(n as nat),
{
    text.append(label);
    let number = decimal_text(n);
    text.append(number.as_str());
}

/// What the `rename` command says in the end.
pub fn rename_summary(stats: &RenameStats, dry_run: bool) -> (line: String)
    ensures
        line@ == "\nscanned: "@ + decimal(stats@.scanned) + ", renamed: "@ + decimal(
            stats@.renamed,
        ) + ", already NFC: "@ + decimal(stats@.skipped_already_nfc) + ", collisions: "@ + decimal(
            stats@.collisions,
        ) + ", errors: "@ + decimal(stats@.errors) + (if dry_run {
            "  (dry-run)"@
        } else {
            ""@
        }),
{
    let mut line = String::new();
    append_number(&mut line, "\nscanned: ", stats.scanned as u64);
    assert(line@ =~= "\nscanned: "@ + decimal(stats@.scanned));
    append_number(&mut line, ", renamed: ", stats.renamed as u64);
    append_number(&mut line, ", already NFC: ", stats.skipped_already_nfc as u64);
    append_number(&mut line, ", collisions: ", stats.collisions as u64);
    append_number(&mut line, ", errors: ", stats.errors as u64);
    line.append(
        if dry_run {
            "  (dry-run)"
        } else {
            ""
        },
    );
    line
}

/// What is said of a rename.
pub fn rename_line(path: &str, new_name: &str) -> (line: String)
    ensures
        line@ == path@ + "  ->  "@ + new_name@,
{
    let mut line = path.to_owned();
    line.append("  ->  ");
    line.append(new_name);
    line
}

/// What is said of a collision.
pub fn collision_line(path: &str, target: &str) -> (line: String)
    ensures
        line@ == "collision: "@ + path@ + " -> "@ + target@ + " (target exists)"@,
{
    let mut line = "collision: ".to_owned();
    line.append(path);
    line.append(" -> ");
    line.append(target);
    line.append(" (target exists)");
    line
}

/// The line of an entry of an archive: a star marks one whose own name was converted,
/// and a letter tells directories from files.
pub open spec fn entry_text(name: Seq<char>, is_dir: bool, converted: bool) -> Seq<char> {
    (if converted {
        "*"@
    } else {
        " "@
    }) + " "@ + (if is_dir {
        "D"@
    } else {
        "F"@
    }) + "  "@ + name
}

/// The line of an entry of an archive.
pub fn entry_line(name: &str, is_dir: bool, converted: bool) -> (line: String)
    ensures
        line@ == entry_text(name@, is_dir, converted),
        line@ == (if converted {
            "* "@
        } else {
            "  "@
        }) + (if is_dir {
            "D  "@
        } else {
            "F  "@
        }) + name@,
{
    proof {
        reveal_strlit("*");
        reveal_strlit(" ");
        reveal_strlit("  ");
        reveal_strlit("* ");
        reveal_strlit("D");
        reveal_strlit("F");
        reveal_strlit("D  ");
        reveal_strlit("F  ");
    }
    let mut line = (if converted {
        "*"
    } else {
        " "
    }).to_owned();
    line.append(" ");
    line.append(
        if is_dir {
            "D"
        } else {
            "F"
        },
    );
    line.append("  ");
    line.append(name);
    line
}

/// What the `zip` command says of an entry that was added: nothing if it is to be quiet.
pub fn entry_report(quiet: bool, name: &str, is_dir: bool, converted: bool) -> (line: Option<
    String,
>)
    ensures
        match line {
            Some(text) => !quiet && text@ == entry_text(name@, is_dir, converted),
            None => quiet,
        },
        line is Some <==> !quiet,
        line matches Some(text) ==> text@ == (if converted {
            "* "@
        } else {
            "  "@
        }) + (if is_dir {
            "D  "@
        } else {
            "F  "@
        }) + name@,
{
    if quiet {
        None
    } else {
        Some(entry_line(name, is_dir, converted))
    }
}

/// What is said of a path that could not be read.
pub fn stat_line(path: &str, error: &str) -> (line: String)
    ensures
        line@ == "stat "@ + path@ + ": "@ + error@,
{
    let mut line = "stat ".to_owned();
    line.append(path);
    line.append(": ");
    line.append(error);
    line
}

/// What is said where a walk could not go on.
pub fn walk_error_line(error: &str) -> (line: String)
    ensures
        line@ == "walk error: "@ + error@,
{
    let mut line = "walk error: ".to_owned();
    line.append(error);
    line
}

/// What is said of an entry on which the file system failed.
pub fn failure_line(path: &str, error: &str) -> (line: String)
    ensures
        line@ == "error for "@ + path@ + ": "@ + error@,
{
    let mut line = "error for ".to_owned();
    line.append(path);
    line.append(": ");
    line.append(error);
    line
}

/// What the `zip` command says where there is no folder.
pub fn folder_not_found_line(path: &str) -> (line: String)
    ensures
        line@ == "folder not found: "@ + path@,
{
    let mut line = "folder not found: ".to_owned();
    line.append(path);
    line
}

/// What the `zip` command says in the end.
pub fn zip_summary(output: &str, stats: &ZipStats) -> (line: String)
    ensures
        line@ == "\nwrote "@ + output@ + " \u{2014} files: "@ + decimal(stats@.files)
            + ", dirs: "@ + decimal(stats@.dirs) + ", skipped: "@ + decimal(stats@.skipped)
            + ", uncompressed: "@ + decimal(stats@.bytes) + " bytes"@,
{
    let mut line = "\nwrote ".to_owned();
    line.append(output);
    append_number(&mut line, " \u{2014} files: ", stats.files as u64);
    append_number(&mut line, ", dirs: ", stats.dirs as u64);
    append_number(&mut line, ", skipped: ", stats.skipped as u64);
    append_number(&mut line, ", uncompressed: ", stats.bytes);
    line.append(" bytes");
    line
}

/// What a text of digits says, read from the left.
pub open spec fn number_of(digits: Seq<char>) -> nat
    decreases digits.len(),
{
    if digits.len() == 0 {
        0
    } else {
        10 * number_of(digits.drop_last()) + (digits.last() as nat - '0' as nat) as nat
    }
}

/// A number in decimal says that number. It is made of the ten digits, and starts with
/// a zero only where it is nothing but that.
pub proof fn law_decimal_says_the_number(n: nat)
    ensures
        number_of(decimal(n)) == n,
        forall|i: int| 0 <= i < decimal(n).len() ==> '0' <= #[trigger] decimal(n)[i] <= '9',
        decimal(n).len() > 0,
        decimal(n)[0] == '0' ==> n == 0 && decimal(n).len() == 1,
        decimal(n).last() as nat == '0' as nat + n % 10,
        n >= 10 ==> decimal(n).drop_last() == decimal(n / 10),
        n < 10 ==> decimal(n).len() == 1,
    decreases n,
{
    let text = decimal(n);
    if n < 10 {
        assert(text.drop_last() =~= Seq::<char>::empty());
        assert(number_of(text.drop_last()) == 0);
    } else {
        law_decimal_says_the_number(n / 10);
        assert(text.drop_last() =~= decimal(n / 10));
    }
}

/// The line of an entry tells three things apart: whether it is marked, whether it is a
/// directory, and its name.
pub proof fn law_entry_line_tells_all(
    name: Seq<char>,
    is_dir: bool,
    converted: bool,
)
    ensures
        ({
            let line = entry_text(name, is_dir, converted);
            &&& line.len() == name.len() + 5
            &&& line[0] == if converted {
                '*'
            } else {
                ' '
            }
            &&& line[1] == ' '
            &&& line[2] == if is_dir {
                'D'
            } else {
                'F'
            }
            &&& line[3] == ' '
            &&& line[4] == ' '
            &&& line.skip(5) == name
        }),
{
    reveal_strlit("*");
    reveal_strlit(" ");
    reveal_strlit("  ");
    reveal_strlit("D");
    reveal_strlit("F");
    assert(entry_text(name, is_dir, converted).skip(5) =~= name);
}

} // verus!
