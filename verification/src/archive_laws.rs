//! What holds of every archive.
use crate::archive::{
    all_plain, all_plain_names, archive_parts, is_converted, is_cruft, is_cruft_text, joined,
    law_slash_follows_each_part_but_the_last, part_text, reads_unicode, slash_joined, text_view,
    text_views, EntryKind, ZipAction, ZipEvent, ZipInput, ZipOptions, ZipOutcome, ZipPhase, ZipRun,
    ZipState, ZipTally,
};
use crate::paths::path_components;
use crate::rename::entry_name;
use crate::text::{is_nfc, is_plain_bytes, is_plain_name, lossy_text, nfc_form};
use std::path::Path;
use vstd::prelude::*;
use vstd::utf8::{
    decode_utf8, encode_utf8, encode_utf8_decode_utf8, encode_utf8_valid_utf8,
    is_ascii_chars_encode_utf8, valid_utf8,
};

verus! {

/// Where a run stands after these events.
pub open spec fn after(state: ZipState, inputs: Seq<ZipInput>) -> ZipState
    decreases inputs.len(),
{
    if inputs.len() == 0 {
        state
    } else {
        after(state, inputs.drop_last()).next(inputs.last()).0
    }
}

/// Each of these events could come when it came.
pub open spec fn all_accepted(state: ZipState, inputs: Seq<ZipInput>) -> bool
    decreases inputs.len(),
{
    inputs.len() == 0 || {
        &&& all_accepted(state, inputs.drop_last())
        &&& after(state, inputs.drop_last()).accepts(inputs.last())
    }
}

/// How many of the events are of this sort.
pub open spec fn count(inputs: Seq<ZipInput>, sort: spec_fn(ZipInput) -> bool) -> nat
    decreases inputs.len(),
{
    if inputs.len() == 0 {
        0
    } else {
        count(inputs.drop_last(), sort) + if sort(inputs.last()) {
            1nat
        } else {
            0nat
        }
    }
}

/// The bytes of all files that were added.
pub open spec fn total_bytes(inputs: Seq<ZipInput>) -> nat
    decreases inputs.len(),
{
    if inputs.len() == 0 {
        0
    } else {
        total_bytes(inputs.drop_last()) + match inputs.last() {
            ZipInput::FileAdded { bytes } => bytes as nat,
            _ => 0nat,
        }
    }
}

/// The entries of the folder that the walk met.
pub open spec fn met(start: ZipState, inputs: Seq<ZipInput>) -> nat {
    count(
        inputs,
        |input: ZipInput|
            input matches ZipInput::Found { path, .. } && start.folder.is_prefix_of(path),
    )
}

/// Those of them that are left out.
pub open spec fn left_out(start: ZipState, inputs: Seq<ZipInput>) -> nat {
    count(
        inputs,
        |input: ZipInput|
            {
                &&& input matches ZipInput::Found { path, kind }
                &&& start.folder.is_prefix_of(path)
                &&& start.skips(path.skip(start.folder.len() as int), kind)
            },
    )
}

/// Those that are not left out, and whose own name is not in form C.
pub open spec fn renamed(start: ZipState, inputs: Seq<ZipInput>) -> nat {
    count(
        inputs,
        |input: ZipInput|
            {
                &&& input matches ZipInput::Found { path, kind }
                &&& start.folder.is_prefix_of(path)
                &&& !start.skips(path.skip(start.folder.len() as int), kind)
                &&& is_converted(path.skip(start.folder.len() as int))
            },
    )
}

/// The counters of a run say what it met, and every entry of the folder is accounted
/// for, once: it was added as a file or as a directory, or left out, or it is the one
/// being added.
pub proof fn law_every_entry_is_accounted_for(
    folder: Seq<Seq<u8>>,
    options: ZipOptions,
    inputs: Seq<ZipInput>,
)
    requires
        all_accepted(ZipState::fresh(folder, options), inputs),
    ensures
        ({
            let start = ZipState::fresh(folder, options);
            let state = after(start, inputs);
            &&& state.folder == folder
            &&& state.options == options
            &&& state.prefix == start.prefix
            &&& state.tally.files == count(inputs, |input: ZipInput| input is FileAdded)
            &&& state.tally.dirs == count(inputs, |input: ZipInput| input is DirectoryAdded)
            &&& state.tally.skipped == left_out(start, inputs)
            &&& state.tally.bytes == total_bytes(inputs)
            &&& state.tally.converted + state.converting() == renamed(start, inputs)
            &&& met(start, inputs) == state.tally.files + state.tally.dirs + state.tally.skipped
                + if state.phase is Walking {
                0nat
            } else {
                1nat
            }
            &&& state.tally.converted <= state.tally.files + state.tally.dirs
        }),
    decreases inputs.len(),
{
    if inputs.len() > 0 {
        law_every_entry_is_accounted_for(folder, options, inputs.drop_last());
    }
}

/// Neither the folder that everything is wrapped in nor the compression level changes
/// what is added: of two archives of one folder that treat leftovers alike, one can be
/// made of the same events as the other, and has the same counters.
pub proof fn law_wrapping_changes_no_counter(
    folder: Seq<Seq<u8>>,
    one: ZipOptions,
    other: ZipOptions,
    inputs: Seq<ZipInput>,
)
    requires
        one.include_mac_cruft == other.include_mac_cruft,
        all_accepted(ZipState::fresh(folder, one), inputs),
    ensures
        all_accepted(ZipState::fresh(folder, other), inputs),
        after(ZipState::fresh(folder, one), inputs).tally == after(
            ZipState::fresh(folder, other),
            inputs,
        ).tally,
        after(ZipState::fresh(folder, one), inputs).phase == after(
            ZipState::fresh(folder, other),
            inputs,
        ).phase,
    decreases inputs.len(),
{
    if inputs.len() > 0 {
        let before = inputs.drop_last();
        law_wrapping_changes_no_counter(folder, one, other, before);
        law_every_entry_is_accounted_for(folder, one, before);
        law_every_entry_is_accounted_for(folder, other, before);
    }
}

/// Every name that the walk met in the folder is Unicode in form C.
pub open spec fn all_in_form(folder: Seq<Seq<u8>>, inputs: Seq<ZipInput>) -> bool {
    forall|k: int|
        0 <= k < inputs.len() ==> match #[trigger] inputs[k] {
            ZipInput::Found { path, .. } => folder.is_prefix_of(path) && folder.len() < path.len()
                ==> {
                &&& reads_unicode(path.skip(folder.len() as int))
                &&& entry_name(path) matches Some(name)
                &&& is_nfc(name)
            },
            _ => true,
        }
}

/// Where every name is in form C already, no entry of the archive is marked as
/// converted.
pub proof fn law_names_in_form_are_not_marked(
    folder: Seq<Seq<u8>>,
    options: ZipOptions,
    inputs: Seq<ZipInput>,
)
    requires
        all_accepted(ZipState::fresh(folder, options), inputs),
        all_in_form(folder, inputs),
    ensures
        after(ZipState::fresh(folder, options), inputs).tally.converted == 0,
        after(ZipState::fresh(folder, options), inputs).converting() == 0,
    decreases inputs.len(),
{
    if inputs.len() > 0 {
        let before = inputs.drop_last();
        assert(forall|k: int| 0 <= k < before.len() ==> inputs[k] == #[trigger] before[k]);
        law_names_in_form_are_not_marked(folder, options, before);
        law_every_entry_is_accounted_for(folder, options, before);
        assert(inputs.last() == inputs[inputs.len() - 1]);
        if let ZipInput::Found { path, .. } = inputs.last() {
            let rel = path.skip(folder.len() as int);
            if folder.is_prefix_of(path) && rel.len() > 0 {
                assert(rel[rel.len() - 1] == path.last());
            }
        }
    }
}

/// A path is a leftover exactly if one of its two halves is: whatever lies below a
/// leftover is one, and so is a leftover wherever it lies.
pub proof fn law_cruft_by_halves(above: Seq<Seq<u8>>, below: Seq<Seq<u8>>)
    ensures
        is_cruft(above + below) == (is_cruft(above) || is_cruft(below)),
{
    let all = above + below;
    if is_cruft(above) {
        let i = choose|i: int|
            0 <= i < above.len() && is_cruft_text(lossy_text(#[trigger] above[i]));
        assert(all[i] == above[i]);
    }
    if is_cruft(below) {
        let i = choose|i: int|
            0 <= i < below.len() && is_cruft_text(lossy_text(#[trigger] below[i]));
        assert(all[above.len() + i] == below[i]);
    }
    if is_cruft(all) {
        let i = choose|i: int| 0 <= i < all.len() && is_cruft_text(lossy_text(#[trigger] all[i]));
        if i < above.len() {
            assert(above[i] == all[i]);
        } else {
            assert(below[i - above.len()] == all[i]);
        }
    }
}

/// The components of a relative path joined to another: a `.` at its start goes, unless
/// it comes first.
pub open spec fn joined_path(above: Seq<Seq<u8>>, below: Seq<Seq<u8>>) -> Seq<Seq<u8>> {
    if above.len() > 0 && below.len() > 0 && below[0] == seq![0x2eu8] {
        above + below.drop_first()
    } else {
        above + below
    }
}

/// A path that was joined of two is a leftover exactly if one of the two is.
pub proof fn law_joined_path_is_cruft_if_a_half_is(above: Seq<Seq<u8>>, below: Seq<Seq<u8>>)
    requires
        reads_unicode(below),
    ensures
        is_cruft(joined_path(above, below)) == (is_cruft(above) || is_cruft(below)),
{
    if above.len() > 0 && below.len() > 0 && below[0] == seq![0x2eu8] {
        let rest = below.drop_first();
        law_cruft_by_halves(above, rest);
        law_cruft_by_halves(seq![below[0]], rest);
        assert(seq![below[0]] + rest =~= below);
        assert(!is_cruft_text(lossy_text(below[0]))) by {
            is_ascii_chars_encode_utf8(seq!['.']);
            assert(encode_utf8(seq!['.']) =~= below[0]);
            encode_utf8_valid_utf8(seq!['.']);
            encode_utf8_decode_utf8(seq!['.']);
            reveal_strlit(".DS_Store");
            reveal_strlit("__MACOSX");
            reveal_strlit("Thumbs.db");
            reveal_strlit("._");
            assert(lossy_text(below[0]).len() == 1);
            assert(".DS_Store"@.len() == 9);
            assert("__MACOSX"@.len() == 8);
            assert("Thumbs.db"@.len() == 9);
            assert("._"@.len() == 2);
        }
        assert(!is_cruft(seq![below[0]]));
    } else {
        law_cruft_by_halves(above, below);
    }
}

/// Leftovers are left out unless they are asked for, and then nothing is left out
/// but links and special files.
pub proof fn law_cruft_is_left_out_by_default(state: ZipState, path: Seq<Seq<u8>>, kind: EntryKind)
    requires
        state.folder.is_prefix_of(path),
        !(kind is Other),
    ensures
        ({
            let rel = path.skip(state.folder.len() as int);
            let (then, outcome) = state.next(ZipInput::Found { path, kind });
            if is_cruft(rel) && !state.options.include_mac_cruft {
                &&& outcome is Next
                &&& then.tally == ZipTally { skipped: state.tally.skipped + 1, ..state.tally }
            } else {
                &&& outcome is AddDirectory || outcome is AddFile
                &&& then.tally == state.tally
            }
        }),
{
}

/// Where everything is wrapped, every entry below the folder lies in the one folder
/// of the archive: its name is that folder, a slash, and the name that it would have
/// unwrapped.
pub proof fn law_wrapping_puts_all_into_one_folder(prefix: Seq<char>, rel: Seq<Seq<u8>>)
    requires
        rel.len() > 0,
    ensures
        slash_joined(archive_parts(Some(prefix), rel)) == prefix.push('/') + slash_joined(
            archive_parts(None, rel),
        ),
{
    let below = archive_parts(None, rel);
    lemma_joined_after(prefix, below, below.len());
}

proof fn lemma_joined_after(first: Seq<char>, rest: Seq<Seq<char>>, n: nat)
    requires
        0 < n <= rest.len(),
    ensures
        joined(seq![first] + rest, n + 1) == first.push('/') + joined(rest, n),
    decreases n,
{
    let all = seq![first] + rest;
    assert(all[n as int] == rest[n - 1]);
    if n == 1 {
        assert(joined(all, 1) == first);
    } else {
        lemma_joined_after(first, rest, (n - 1) as nat);
        assert(joined(all, n + 1) =~= first.push('/') + joined(rest, n));
    }
}

/// An entry is marked as converted exactly if its own name in the archive, the last
/// part, is not the name that it has on disk.
pub proof fn law_mark_means_another_basename(
    state: ZipState,
    path: Seq<Seq<u8>>,
    kind: EntryKind,
)
    requires
        state.folder.is_prefix_of(path),
        state.folder.len() < path.len(),
    ensures
        ({
            let parts = archive_parts(state.prefix, path.skip(state.folder.len() as int));
            match state.next(ZipInput::Found { path, kind }).1 {
                ZipOutcome::AddDirectory { converted, .. } => converted == (parts.last()
                    != lossy_text(path.last())),
                ZipOutcome::AddFile { converted, .. } => converted == (parts.last() != lossy_text(
                    path.last(),
                )),
                _ => true,
            }
        }),
{
    let rel = path.skip(state.folder.len() as int);
    let parts = archive_parts(state.prefix, rel);
    assert(rel.last() == path.last());
    assert(parts.last() == part_text(rel.last()));
}

/// What renaming is done with, archiving leaves as it is: an entry whose name is
/// Unicode is marked as converted exactly if renaming would change it.
pub proof fn law_mark_means_a_rename_is_due(
    state: ZipState,
    path: Seq<Seq<u8>>,
    kind: EntryKind,
    name: Seq<char>,
)
    requires
        state.folder.is_prefix_of(path),
        state.folder.len() < path.len(),
        reads_unicode(path.skip(state.folder.len() as int)),
        entry_name(path) == Some(name),
    ensures
        match state.next(ZipInput::Found { path, kind }).1 {
            ZipOutcome::AddDirectory { converted, .. } => converted == !is_nfc(name),
            ZipOutcome::AddFile { converted, .. } => converted == !is_nfc(name),
            _ => true,
        },
{
    let rel = path.skip(state.folder.len() as int);
    assert(rel[rel.len() - 1] == path.last());
}

/// The name of a directory in an archive ends in a slash, and that of a file does
/// not, so that the one is never taken for the other.
pub proof fn law_slash_marks_directories(
    state: ZipState,
    path: Seq<Seq<u8>>,
    kind: EntryKind,
)
    requires
        state.folder.is_prefix_of(path),
        state.folder.len() < path.len(),
        all_plain_names(archive_parts(state.prefix, path.skip(state.folder.len() as int))),
    ensures
        match state.next(ZipInput::Found { path, kind }).1 {
            ZipOutcome::AddDirectory { name, .. } => {
                &&& kind is Directory
                &&& name.len() > 1
                &&& name.last() == '/'
            },
            ZipOutcome::AddFile { name, .. } => {
                &&& kind is File
                &&& name.len() > 0
                &&& name.last() != '/'
            },
            _ => true,
        },
{
    let parts = archive_parts(state.prefix, path.skip(state.folder.len() as int));
    let last = parts[parts.len() - 1];
    let name = slash_joined(parts);
    assert(last[last.len() - 1] == name.last());
    assert(last.contains(last[last.len() - 1]));
}

/// The name of an entry tells its parts: two entries of one name have the same
/// parts.
pub proof fn law_name_tells_its_parts(a: Seq<Seq<char>>, b: Seq<Seq<char>>)
    requires
        a.len() > 0,
        b.len() > 0,
        all_plain_names(a),
        all_plain_names(b),
        slash_joined(a) == slash_joined(b),
    ensures
        a == b,
{
    lemma_parts_from_name(a, a.len(), b, b.len());
    assert(a =~= b);
}

proof fn lemma_parts_from_name(a: Seq<Seq<char>>, m: nat, b: Seq<Seq<char>>, n: nat)
    requires
        0 < m <= a.len(),
        0 < n <= b.len(),
        all_plain_names(a),
        all_plain_names(b),
        joined(a, m) == joined(b, n),
    ensures
        m == n,
        forall|i: int| 0 <= i < m ==> a[i] == b[i],
    decreases m,
{
    let name = joined(a, m);
    let x = a[m - 1];
    let y = b[n - 1];
    if m > 1 {
        assert(name[name.len() - x.len() - 1] == '/');
    }
    if n > 1 {
        assert(name[name.len() - y.len() - 1] == '/');
    }
    assert(forall|k: int| 0 <= k < x.len() ==> x[k] == name[name.len() - x.len() + k]);
    assert(forall|k: int| 0 <= k < y.len() ==> y[k] == name[name.len() - y.len() + k]);
    assert(x.len() == y.len()) by {
        if x.len() < y.len() {
            assert(m > 1);
            let k = y.len() - x.len() - 1;
            assert(y[k] == '/');
        } else if y.len() < x.len() {
            assert(n > 1);
            let k = x.len() - y.len() - 1;
            assert(x[k] == '/');
        }
    }
    assert(x =~= y);
    if m > 1 {
        assert(n > 1) by {
            assert(name.len() > x.len());
        }
        let p = joined(a, (m - 1) as nat);
        let q = joined(b, (n - 1) as nat);
        assert(p =~= name.subrange(0, name.len() - x.len() - 1));
        assert(q =~= name.subrange(0, name.len() - y.len() - 1));
        lemma_parts_from_name(a, (m - 1) as nat, b, (n - 1) as nat);
    } else {
        assert(n == 1) by {
            assert(name.len() == x.len());
        }
    }
}

/// Which names are leftovers: whatever starts with a dot and an underscore, however it
/// goes on, and three whole names. No other name is one.
pub proof fn law_which_names_are_leftovers(name: Seq<char>, rest: Seq<char>)
    ensures
        is_cruft_text(seq!['.', '_'] + rest),
        is_cruft_text(seq!['.', 'D', 'S', '_', 'S', 't', 'o', 'r', 'e']),
        is_cruft_text(seq!['_', '_', 'M', 'A', 'C', 'O', 'S', 'X']),
        is_cruft_text(seq!['T', 'h', 'u', 'm', 'b', 's', '.', 'd', 'b']),
        is_cruft_text(name) ==> {
            ||| name == seq!['.', 'D', 'S', '_', 'S', 't', 'o', 'r', 'e']
            ||| name == seq!['_', '_', 'M', 'A', 'C', 'O', 'S', 'X']
            ||| name == seq!['T', 'h', 'u', 'm', 'b', 's', '.', 'd', 'b']
            ||| name.len() >= 2 && name[0] == '.' && name[1] == '_'
        },
{
    reveal_strlit(".DS_Store");
    reveal_strlit("__MACOSX");
    reveal_strlit("Thumbs.db");
    reveal_strlit("._");
    assert(".DS_Store"@ =~= seq!['.', 'D', 'S', '_', 'S', 't', 'o', 'r', 'e']);
    assert("__MACOSX"@ =~= seq!['_', '_', 'M', 'A', 'C', 'O', 'S', 'X']);
    assert("Thumbs.db"@ =~= seq!['T', 'h', 'u', 'm', 'b', 's', '.', 'd', 'b']);
    let double = seq!['.', '_'] + rest;
    assert("._"@ =~= double.subrange(0, 2));
    if "._"@.is_prefix_of(name) {
        assert(name.subrange(0, 2)[0] == name[0]);
        assert(name.subrange(0, 2)[1] == name[1]);
    }
}

/// What lies in a leftover, or is one, is left out unless leftovers are asked for,
/// however deep it lies and whatever it is: it is counted as such, and nothing else
/// changes.
pub proof fn law_leftovers_are_left_out_wherever_they_lie(
    state: ZipState,
    above: Seq<Seq<u8>>,
    component: Seq<u8>,
    below: Seq<Seq<u8>>,
    kind: EntryKind,
)
    requires
        !state.options.include_mac_cruft,
        ({
            let name = lossy_text(component);
            ||| name.len() >= 2 && name[0] == '.' && name[1] == '_'
            ||| name == seq!['.', 'D', 'S', '_', 'S', 't', 'o', 'r', 'e']
            ||| name == seq!['_', '_', 'M', 'A', 'C', 'O', 'S', 'X']
            ||| name == seq!['T', 'h', 'u', 'm', 'b', 's', '.', 'd', 'b']
        }),
    ensures
        ({
            let path = state.folder + above.push(component) + below;
            let (then, outcome) = state.next(ZipInput::Found { path, kind });
            &&& outcome is Next
            &&& then == (ZipState {
                tally: ZipTally { skipped: state.tally.skipped + 1, ..state.tally },
                ..state
            })
        }),
        is_cruft(above.push(component) + below),
{
    let rel = above.push(component) + below;
    let path = state.folder + above.push(component) + below;
    let name = lossy_text(component);
    if name.len() >= 2 && name[0] == '.' && name[1] == '_' {
        assert(name =~= seq!['.', '_'] + name.skip(2));
    }
    law_which_names_are_leftovers(name, name.skip(2));
    assert(rel[above.len() as int] == component);
    assert(path.skip(state.folder.len() as int) =~= rel);
    assert(state.folder =~= path.subrange(0, state.folder.len() as int));
}

/// Nothing else is left out but links and special files: a file or a directory that is
/// no leftover and lies in none is added, and so is every one where leftovers are asked
/// for. Its name is made of the form C of each component of its path below the folder,
/// in order, after the folder that everything is wrapped in, if there is one; and it is
/// marked exactly if the form C of its own name is another.
pub proof fn law_what_is_added_and_how_it_is_called(
    state: ZipState,
    rel: Seq<Seq<u8>>,
    kind: EntryKind,
)
    requires
        state.options.include_mac_cruft || forall|i: int|
            0 <= i < rel.len() ==> {
                let name = lossy_text(#[trigger] rel[i]);
                &&& !(name.len() >= 2 && name[0] == '.' && name[1] == '_')
                &&& name != seq!['.', 'D', 'S', '_', 'S', 't', 'o', 'r', 'e']
                &&& name != seq!['_', '_', 'M', 'A', 'C', 'O', 'S', 'X']
                &&& name != seq!['T', 'h', 'u', 'm', 'b', 's', '.', 'd', 'b']
            },
    ensures
        ({
            let path = state.folder + rel;
            let (then, outcome) = state.next(ZipInput::Found { path, kind });
            let forms = Seq::new(rel.len(), |i: int| nfc_form(lossy_text(rel[i])));
            let parts = match state.prefix {
                Some(folder) => seq![folder] + forms,
                None => forms,
            };
            let converted = rel.len() > 0 && nfc_form(lossy_text(rel.last())) != lossy_text(
                rel.last(),
            );
            let ended = parts.map_values(|part: Seq<char>| part.push('/')).flatten();
            match kind {
                EntryKind::Other => {
                    &&& outcome is Next
                    &&& then == (ZipState {
                        tally: ZipTally { skipped: state.tally.skipped + 1, ..state.tally },
                        ..state
                    })
                },
                EntryKind::Directory => {
                    &&& outcome matches ZipOutcome::AddDirectory { name, converted: marked }
                    &&& parts.len() > 0 ==> name == ended
                    &&& parts.len() == 0 ==> name == seq!['/']
                    &&& marked == converted
                    &&& then == (ZipState {
                        phase: ZipPhase::AddingDirectory { converted },
                        ..state
                    })
                },
                EntryKind::File => {
                    &&& outcome matches ZipOutcome::AddFile { name, converted: marked }
                    &&& parts.len() > 0 ==> name.push('/') == ended
                    &&& parts.len() == 0 ==> name.len() == 0
                    &&& marked == converted
                    &&& then == (ZipState { phase: ZipPhase::AddingFile { converted }, ..state })
                },
            }
        }),
{
    let path = state.folder + rel;
    let forms = Seq::new(rel.len(), |i: int| nfc_form(lossy_text(rel[i])));
    let parts = match state.prefix {
        Some(folder) => seq![folder] + forms,
        None => forms,
    };
    assert(path.skip(state.folder.len() as int) =~= rel);
    assert(state.folder =~= path.subrange(0, state.folder.len() as int));
    assert(archive_parts(state.prefix, rel) =~= parts);
    law_slash_follows_each_part_but_the_last(parts);
    if is_cruft(rel) {
        let i = choose|i: int| 0 <= i < rel.len() && is_cruft_text(lossy_text(#[trigger] rel[i]));
        law_which_names_are_leftovers(lossy_text(rel[i]), seq![]);
    }
    if parts.len() == 0 {
        assert(slash_joined(parts).push('/') =~= seq!['/']);
    }
}

/// An entry that does not lie in the folder ends the run, and changes nothing.
pub proof fn law_an_entry_elsewhere_ends_the_run(
    state: ZipState,
    path: Seq<Seq<u8>>,
    kind: EntryKind,
)
    requires
        path.len() < state.folder.len() || exists|i: int|
            0 <= i < state.folder.len() && #[trigger] path[i] != state.folder[i],
    ensures
        state.next(ZipInput::Found { path, kind }) == (state, ZipOutcome::Stop),
{
    if state.folder.is_prefix_of(path) {
        let i = choose|i: int| 0 <= i < state.folder.len() && #[trigger] path[i] != state.folder[i];
        assert(path.subrange(0, state.folder.len() as int)[i] == path[i]);
    }
}

/// Each part of a name, after the folder that everything is wrapped in, is the form C
/// of the component in its place, whole: of what the component encodes where it is
/// Unicode, and of how it is read where it is not.
pub proof fn law_parts_are_the_forms_of_the_components(
    prefix: Option<Seq<char>>,
    rel: Seq<Seq<u8>>,
    i: int,
)
    requires
        0 <= i < rel.len(),
    ensures
        ({
            let parts = archive_parts(prefix, rel);
            let first: int = if prefix is Some {
                1
            } else {
                0
            };
            &&& parts.len() == first + rel.len()
            &&& prefix is Some ==> parts[0] == prefix->0
            &&& parts[first + i] == nfc_form(lossy_text(rel[i]))
            &&& reads_unicode(rel) && valid_utf8(rel[i]) ==> parts[first + i] == nfc_form(
                decode_utf8(rel[i]),
            )
        }),
        part_text(rel[i]) == nfc_form(lossy_text(rel[i])),
{
}

/// Entries whose paths differ in form C keep different names.
pub proof fn law_different_forms_keep_different_names(
    state: ZipState,
    one: Seq<Seq<u8>>,
    other: Seq<Seq<u8>>,
)
    requires
        state.prefix matches Some(folder) ==> is_plain_name(folder),
        one.len() > 0,
        other.len() > 0,
        forall|i: int|
            0 <= i < one.len() ==> is_plain_name(nfc_form(lossy_text(#[trigger] one[i]))),
        forall|i: int|
            0 <= i < other.len() ==> is_plain_name(nfc_form(lossy_text(#[trigger] other[i]))),
        one.len() != other.len() || exists|i: int|
            0 <= i < one.len() && nfc_form(lossy_text(#[trigger] one[i])) != nfc_form(
                lossy_text(other[i]),
            ),
    ensures
        state.name_of(one) != state.name_of(other),
{
    let a = archive_parts(state.prefix, one);
    let b = archive_parts(state.prefix, other);
    let first: int = if state.prefix is Some {
        1
    } else {
        0
    };
    assert forall|k: int| 0 <= k < a.len() implies is_plain_name(#[trigger] a[k]) by {
        if k >= first {
            assert(a[k] == nfc_form(lossy_text(one[k - first])));
        }
    }
    assert forall|k: int| 0 <= k < b.len() implies is_plain_name(#[trigger] b[k]) by {
        if k >= first {
            assert(b[k] == nfc_form(lossy_text(other[k - first])));
        }
    }
    if state.name_of(one) == state.name_of(other) {
        law_name_tells_its_parts(a, b);
        assert(one.len() == other.len());
        let i = choose|i: int|
            0 <= i < one.len() && nfc_form(lossy_text(#[trigger] one[i])) != nfc_form(
                lossy_text(other[i]),
            );
        assert(a[first + i] == nfc_form(lossy_text(one[i])));
        assert(b[first + i] == nfc_form(lossy_text(other[i])));
    }
}

/// Everything that is wrapped lies in a folder called as the source is, in form C, in
/// whatever directory the source lies: from the start of a run to its end, each name
/// that is handed out for an entry below the source is that folder, a slash, and the
/// name that the entry has in an archive that is not wrapped.
pub proof fn law_every_name_starts_with_the_folder(
    dir: Seq<Seq<u8>>,
    folder: Seq<u8>,
    options: ZipOptions,
    inputs: Seq<ZipInput>,
    rel: Seq<Seq<u8>>,
    kind: EntryKind,
)
    requires
        all_accepted(ZipState::fresh(dir.push(folder), options), inputs),
        rel.len() > 0,
    ensures
        ({
            let source = dir.push(folder);
            let bare = ZipOptions { wrap: false, ..options };
            let state = after(ZipState::fresh(source, options), inputs);
            let unwrapped = after(ZipState::fresh(source, bare), inputs);
            let found = ZipInput::Found { path: source + rel, kind };
            let top = if options.wrap {
                nfc_form(lossy_text(folder)).push('/')
            } else {
                seq![]
            };
            &&& ZipState::fresh(source, options).prefix == if options.wrap {
                Some(nfc_form(lossy_text(folder)))
            } else {
                None
            }
            &&& state.prefix == ZipState::fresh(source, options).prefix
            &&& state.folder == source
            &&& state.options == options
            &&& match (state.next(found).1, unwrapped.next(found).1) {
                (
                    ZipOutcome::AddDirectory { name, converted },
                    ZipOutcome::AddDirectory { name: below, converted: marked },
                ) => name == top + below && converted == marked,
                (
                    ZipOutcome::AddFile { name, converted },
                    ZipOutcome::AddFile { name: below, converted: marked },
                ) => name == top + below && converted == marked,
                (one, other) => one == other && !(one is AddDirectory) && !(one is AddFile),
            }
        }),
{
    let source = dir.push(folder);
    let bare = ZipOptions { wrap: false, ..options };
    law_every_entry_is_accounted_for(source, options, inputs);
    law_wrapping_changes_no_counter(source, options, bare, inputs);
    law_every_entry_is_accounted_for(source, bare, inputs);
    assert(source.last() == folder);
    let path = source + rel;
    assert(path.skip(source.len() as int) =~= rel);
    assert(source =~= path.subrange(0, source.len() as int));
    let below = slash_joined(archive_parts(None, rel));
    if options.wrap {
        let name = nfc_form(lossy_text(folder));
        law_wrapping_puts_all_into_one_folder(name, rel);
        assert((name.push('/') + below).push('/') =~= name.push('/') + below.push('/'));
    } else {
        assert(Seq::<char>::empty() + below =~= below);
        assert(Seq::<char>::empty() + below.push('/') =~= below.push('/'));
    }
}

/// An entry that has been added is counted once, by what it is, with its bytes if it is
/// a file, and as converted exactly if it was marked; nothing else is counted.
pub proof fn law_what_was_added_is_counted(state: ZipState, bytes: u64)
    ensures
        state.next(ZipInput::DirectoryAdded) == (
            ZipState {
                tally: ZipTally {
                    dirs: state.tally.dirs + 1,
                    converted: state.tally.converted + if state.phase == (
                    ZipPhase::AddingDirectory { converted: true }) || state.phase == (
                    ZipPhase::AddingFile { converted: true }) {
                        1nat
                    } else {
                        0nat
                    },
                    ..state.tally
                },
                phase: ZipPhase::Walking,
                ..state
            },
            ZipOutcome::Next,
        ),
        state.next(ZipInput::FileAdded { bytes }) == (
            ZipState {
                tally: ZipTally {
                    files: state.tally.files + 1,
                    converted: state.tally.converted + if state.phase == (
                    ZipPhase::AddingDirectory { converted: true }) || state.phase == (
                    ZipPhase::AddingFile { converted: true }) {
                        1nat
                    } else {
                        0nat
                    },
                    bytes: state.tally.bytes + bytes as nat,
                    ..state.tally
                },
                phase: ZipPhase::Walking,
                ..state
            },
            ZipOutcome::Next,
        ),
{
}

/// What a run waits for decides what can come, and nothing else does but the room of
/// the counters: while it walks, any entry at all can.
pub proof fn law_archive_events_come_in_turn(
    state: ZipState,
    path: Seq<Seq<u8>>,
    kind: EntryKind,
    bytes: u64,
)
    ensures
        state.accepts(ZipInput::Found { path, kind }) <==> state.phase is Walking
            && state.tally.skipped < usize::MAX,
        state.accepts(ZipInput::DirectoryAdded) <==> {
            &&& state.phase is AddingDirectory
            &&& state.tally.dirs < usize::MAX
            &&& state.tally.converted < usize::MAX
        },
        state.accepts(ZipInput::FileAdded { bytes }) <==> {
            &&& state.phase is AddingFile
            &&& state.tally.files < usize::MAX
            &&& state.tally.converted < usize::MAX
            &&& state.tally.bytes + bytes <= u64::MAX
        },
{
}

/// Where a run stands is what its fields say, number for number and letter for letter;
/// an event is told of the path that it has, and an action of its name.
pub proof fn law_state_is_what_the_run_holds(
    run: ZipRun<'_>,
    folder: Seq<Seq<u8>>,
    options: ZipOptions,
    path: &Path,
    kind: EntryKind,
    bytes: u64,
    name: String,
    converted: bool,
    texts: Seq<String>,
)
    ensures
        run.state().folder == path_components(run.folder),
        run.state().options == run.options,
        run.state().prefix == match run.prefix {
            Some(text) => Some(text@),
            None => None,
        },
        run.state().phase == run.phase,
        run.state().tally.files == run.stats.files,
        run.state().tally.dirs == run.stats.dirs,
        run.state().tally.skipped == run.stats.skipped,
        run.state().tally.converted == run.stats.converted,
        run.state().tally.bytes == run.stats.bytes,
        run.wf() <==> (run.prefix matches Some(text) ==> nfc_form(text@) == text@ && is_plain_name(
            text@,
        )),
        ZipState::fresh(folder, options).folder == folder,
        ZipState::fresh(folder, options).options == options,
        ZipState::fresh(folder, options).phase is Walking,
        ZipState::fresh(folder, options).tally == (ZipTally {
            files: 0,
            dirs: 0,
            skipped: 0,
            converted: 0,
            bytes: 0,
        }),
        (ZipEvent::Found { path, kind })@ == (ZipInput::Found {
            path: path_components(path),
            kind,
        }),
        ZipEvent::DirectoryAdded@ is DirectoryAdded,
        (ZipEvent::FileAdded { bytes })@ == (ZipInput::FileAdded { bytes }),
        ZipAction::Next@ is Next,
        ZipAction::Stop@ is Stop,
        (ZipAction::AddDirectory { name, converted })@ == (ZipOutcome::AddDirectory {
            name: name@,
            converted,
        }),
        (ZipAction::AddFile { name, converted })@ == (ZipOutcome::AddFile {
            name: name@,
            converted,
        }),
        text_view(Some(name)) == Some(name@),
        text_view(None) is None,
        text_views(texts).len() == texts.len(),
        forall|i: int| 0 <= i < texts.len() ==> #[trigger] text_views(texts)[i] == texts[i]@,
{
}

/// A path goes down through directory entries alone if each component names one, and
/// what is read of a component that is Unicode is what it encodes.
pub proof fn law_component_by_component(rel: Seq<Seq<u8>>, parts: Seq<Seq<char>>)
    ensures
        all_plain(rel) <==> forall|i: int| 0 <= i < rel.len() ==> is_plain_bytes(#[trigger] rel[i]),
        all_plain_names(parts) <==> forall|i: int|
            0 <= i < parts.len() ==> is_plain_name(#[trigger] parts[i]),
        reads_unicode(rel) <==> forall|i: int|
            0 <= i < rel.len() && valid_utf8(#[trigger] rel[i]) ==> lossy_text(rel[i])
                == decode_utf8(rel[i]),
        is_converted(rel) <==> rel.len() > 0 && nfc_form(lossy_text(rel.last())) != lossy_text(
            rel.last(),
        ),
{
}

} // verus!
