//! What a run of renames makes of a whole tree, and what a second run or an archive
//! finds there.
use crate::archive::{reads_unicode, ZipInput, ZipOptions, ZipState};
use crate::archive_laws;
use crate::paths::{path_buf_components, sibling};
use crate::rename::{
    entry_name, form_settles, Pending, RenameAction, RenameInput, RenamePolicy, RenameState,
};
use crate::rename_laws::{
    after, all_accepted, clashes, contents_first, failures, found, in_form,
    law_counters_tell_the_events, law_every_entry_is_accounted_for, moved_by, unnamed,
};
use crate::text::{is_nfc, lemma_plain_encoded, nfc_form};
use vstd::prelude::*;
use vstd::utf8::{
    decode_utf8, decode_utf8_encode_utf8, encode_utf8, encode_utf8_decode_utf8,
    encode_utf8_valid_utf8,
};

verus! {

/// The form C of the name of the entry at this path.
pub open spec fn form_of(path: Seq<Seq<u8>>) -> Seq<char> {
    nfc_form(entry_name(path)->0)
}

/// Where the entry at this path goes, or stays if its name is in form C.
pub open spec fn settled(path: Seq<Seq<u8>>) -> Seq<Seq<u8>> {
    sibling(path, form_of(path))
}

/// Where each visited entry goes.
pub open spec fn targets(visits: Seq<Seq<Seq<u8>>>) -> Seq<Seq<Seq<u8>>> {
    visits.map_values(|path: Seq<Seq<u8>>| settled(path))
}

/// An entry that is renamed goes where `settled` says, and one whose name is in form C
/// stays there.
pub proof fn law_entries_go_where_they_settle(path: Seq<Seq<u8>>, pending: Pending)
    requires
        entry_name(path) is Some,
    ensures
        pending.renames(path) ==> path_buf_components(&pending.target) == settled(path),
        is_nfc(entry_name(path)->0) ==> settled(path) == path,
{
    decode_utf8_encode_utf8(path.last());
    if is_nfc(entry_name(path)->0) {
        assert(settled(path) =~= path);
    }
}

/// The path with its components from the `m`th on in form C.
pub open spec fn in_form_from(path: Seq<Seq<u8>>, m: int) -> Seq<Seq<u8>> {
    Seq::new(
        path.len(),
        |i: int|
            if i < m {
                path[i]
            } else {
                encode_utf8(nfc_form(decode_utf8(path[i])))
            },
    )
}

/// A walk of a whole tree: it visits what a directory holds before the directory, all
/// of it below the root, and with an entry every directory that the entry lies in
/// below the root. All names are Unicode, and no two entries of a directory have names
/// of the same form C.
pub open spec fn walks_tree(root: Seq<Seq<u8>>, visits: Seq<Seq<Seq<u8>>>) -> bool {
    &&& contents_first(visits)
    &&& forall|i: int|
        #![trigger visits[i]]
        0 <= i < visits.len() ==> {
            &&& root.is_prefix_of(visits[i])
            &&& root.len() < visits[i].len()
            &&& entry_name(visits[i]) is Some
            &&& form_settles(visits[i])
        }
    &&& forall|i: int, l: int|
        0 <= i < visits.len() && root.len() < l <= visits[i].len() ==> visits.contains(
            #[trigger] visits[i].take(l),
        )
    &&& forall|i: int, j: int|
        #![trigger visits[i], visits[j]]
        0 <= i < visits.len() && 0 <= j < visits.len() && i != j && visits[i].drop_last()
            == visits[j].drop_last() ==> form_of(visits[i]) != form_of(visits[j])
}

/// Two visited paths that are the same up to component `m`, and of which the second,
/// put in form C from there on, starts with the first, are the same as far as the first
/// goes.
proof fn lemma_same_as_far(
    root: Seq<Seq<u8>>,
    visits: Seq<Seq<Seq<u8>>>,
    a: int,
    b: int,
    m: int,
    t: int,
)
    requires
        walks_tree(root, visits),
        0 <= a < visits.len(),
        0 <= b < visits.len(),
        root.len() <= m <= t <= visits[a].len() <= visits[b].len(),
        forall|i: int|
            0 <= i < visits[a].len() ==> #[trigger] visits[a][i] == in_form_from(visits[b], m)[i],
    ensures
        visits[a].take(t) == visits[b].take(t),
    decreases t - m,
{
    let v = visits[a];
    let p = visits[b];
    if t == m {
        assert(v.take(t) =~= p.take(t));
    } else {
        lemma_same_as_far(root, visits, a, b, m, t - 1);
        let x = v.take(t);
        let y = p.take(t);
        assert(visits.contains(visits[a].take(t)));
        assert(visits.contains(visits[b].take(t)));
        let i = choose|i: int| 0 <= i < visits.len() && visits[i] == x;
        let j = choose|j: int| 0 <= j < visits.len() && visits[j] == y;
        assert(visits[i].drop_last() =~= v.take(t - 1));
        assert(visits[j].drop_last() =~= p.take(t - 1));
        assert(x.last() == v[t - 1]);
        assert(y.last() == p[t - 1]);
        encode_utf8_decode_utf8(form_of(y));
        assert(decode_utf8(x.last()) == form_of(y));
        assert(form_of(x) == form_of(y));
        assert(i == j);
    }
}

/// How much of the path of a visited entry is still as it was once the first `n` visits
/// have been dealt with: up to component `m`. The directories on the path that have
/// been visited are those that are longer.
proof fn lemma_level(root: Seq<Seq<u8>>, visits: Seq<Seq<Seq<u8>>>, turn: int, n: nat) -> (m: int)
    requires
        walks_tree(root, visits),
        0 <= turn < visits.len(),
        n <= visits.len(),
    ensures
        root.len() <= m <= visits[turn].len(),
        forall|l: int, k: int|
            #![trigger visits[turn].take(l), visits[k]]
            root.len() < l <= visits[turn].len() && 0 <= k < visits.len() && visits[k]
                == visits[turn].take(l) ==> (k < n <==> l > m),
        moved_by(visits[turn], visits, targets(visits), n) == in_form_from(visits[turn], m),
    decreases n,
{
    let p = visits[turn];
    if n == 0 {
        assert(in_form_from(p, p.len() as int) =~= p);
        p.len() as int
    } else {
        let before = lemma_level(root, visits, turn, (n - 1) as nat);
        let k0 = n - 1;
        let v = visits[k0];
        let cur = in_form_from(p, before);
        if v.is_prefix_of(cur) {
            assert forall|i: int| 0 <= i < v.len() implies #[trigger] v[i] == cur[i] by {
                assert(v == cur.subrange(0, v.len() as int));
                assert(cur.subrange(0, v.len() as int)[i] == cur[i]);
            }
            if v.len() > before {
                lemma_same_as_far(root, visits, k0, turn, before, v.len() as int);
                assert(v.take(v.len() as int) =~= v);
                assert(visits[k0] == visits[turn].take(v.len() as int));
                assert(false);
            }
            assert(v =~= p.take(v.len() as int));
            if v.len() < before {
                assert(visits.contains(visits[turn].take(before)));
                let k1 = choose|k1: int| 0 <= k1 < visits.len() && visits[k1] == p.take(before);
                assert(visits[k1] == visits[turn].take(before));
                assert(k1 >= k0);
                assert(v =~= visits[k1].subrange(0, v.len() as int));
                assert(visits[k0].is_prefix_of(visits[k1]));
                assert(false);
            }
            assert(v.len() == before);
            let now = before - 1;
            assert(targets(visits)[k0] == settled(v));
            assert(v.last() == p[before - 1]);
            assert(settled(v) + cur.skip(before) =~= in_form_from(p, now));
            assert forall|l: int, k: int|
                #![trigger visits[turn].take(l), visits[k]]
                root.len() < l <= p.len() && 0 <= k < visits.len() && visits[k]
                    == visits[turn].take(l) implies (k < n <==> l > now) by {
                assert(visits[k].len() == l);
                if k > k0 && l == before {
                    assert(visits[k] == v);
                    assert(v =~= v.subrange(0, v.len() as int));
                    assert(visits[k0].is_prefix_of(visits[k]));
                }
            }
            now
        } else {
            assert forall|l: int, k: int|
                #![trigger visits[turn].take(l), visits[k]]
                root.len() < l <= p.len() && 0 <= k < visits.len() && visits[k]
                    == visits[turn].take(l) implies (k < n <==> l > before) by {
                if k == k0 {
                    assert(l <= before);
                    assert(v =~= cur.subrange(0, v.len() as int));
                    assert(v.is_prefix_of(cur));
                }
            }
            before
        }
    }
}

/// A run that renames every entry of a tree that is due leaves the whole tree in form C:
/// each entry ends where it was, with every component below the root in form C.
pub proof fn law_whole_tree_ends_in_form(
    root: Seq<Seq<u8>>,
    visits: Seq<Seq<Seq<u8>>>,
    turn: int,
)
    requires
        walks_tree(root, visits),
        0 <= turn < visits.len(),
    ensures
        ({
            let path = visits[turn];
            let end = moved_by(path, visits, targets(visits), visits.len());
            &&& end == in_form_from(path, root.len() as int)
            &&& end.take(root.len() as int) == root
            &&& entry_name(end) == Some(form_of(path))
            &&& is_nfc(form_of(path))
            &&& forall|i: int|
                root.len() <= i < end.len() ==> is_nfc(decode_utf8(#[trigger] end[i]))
        }),
{
    let path = visits[turn];
    let r = root.len() as int;
    let m = lemma_level(root, visits, turn, visits.len());
    if m > r {
        assert(visits.contains(visits[turn].take(r + 1)));
        let k = choose|k: int| 0 <= k < visits.len() && visits[k] == path.take(r + 1);
        assert(visits[k] == visits[turn].take(r + 1));
        assert(false);
    }
    let end = in_form_from(path, r);
    assert(root =~= path.subrange(0, r));
    assert forall|i: int| 0 <= i < r implies end.take(r)[i] == root[i] by {
        assert(path.subrange(0, r)[i] == path[i]);
    }
    assert(end.take(r) =~= root);
    assert forall|i: int| r <= i < end.len() implies is_nfc(decode_utf8(#[trigger] end[i])) by {
        assert(visits.contains(visits[turn].take(i + 1)));
        let k = choose|k: int| 0 <= k < visits.len() && visits[k] == path.take(i + 1);
        assert(visits[k].last() == path[i]);
        encode_utf8_decode_utf8(form_of(visits[k]));
        assert(decode_utf8(end[i]) == form_of(visits[k]));
    }
    encode_utf8_decode_utf8(form_of(path));
    encode_utf8_valid_utf8(form_of(path));
    lemma_plain_encoded(form_of(path));
    assert(end.last() == encode_utf8(form_of(path)));
}

/// Where a run that renames every entry of a tree that is due leaves one of them.
pub open spec fn ends_at(visits: Seq<Seq<Seq<u8>>>, path: Seq<Seq<u8>>) -> bool {
    exists|turn: int|
        0 <= turn < visits.len() && path == moved_by(
            #[trigger] visits[turn],
            visits,
            targets(visits),
            visits.len(),
        )
}

/// The name of what such a run leaves at this path is in form C.
proof fn lemma_ends_in_form(
    root: Seq<Seq<u8>>,
    visits: Seq<Seq<Seq<u8>>>,
    path: Seq<Seq<u8>>,
)
    requires
        walks_tree(root, visits),
        ends_at(visits, path),
    ensures
        entry_name(path) matches Some(name) && is_nfc(name),
{
    let turn = choose|turn: int|
        0 <= turn < visits.len() && path == moved_by(
            #[trigger] visits[turn],
            visits,
            targets(visits),
            visits.len(),
        );
    law_whole_tree_ends_in_form(root, visits, turn);
}

/// Two visited paths that are the same in form C are the same.
proof fn lemma_same_in_form(
    root: Seq<Seq<u8>>,
    visits: Seq<Seq<Seq<u8>>>,
    a: int,
    b: int,
    t: int,
)
    requires
        walks_tree(root, visits),
        0 <= a < visits.len(),
        0 <= b < visits.len(),
        in_form_from(visits[a], root.len() as int) == in_form_from(
            visits[b],
            root.len() as int,
        ),
        root.len() <= t <= visits[a].len(),
    ensures
        visits[a].len() == visits[b].len(),
        visits[a].take(t) == visits[b].take(t),
    decreases t,
{
    let r = root.len() as int;
    let v = visits[a];
    let p = visits[b];
    let form = in_form_from(v, r);
    assert(form.len() == v.len());
    assert(in_form_from(p, r).len() == p.len());
    assert forall|i: int| 0 <= i < r implies v[i] == p[i] by {
        assert(form[i] == v[i]);
        assert(in_form_from(p, r)[i] == p[i]);
    }
    if t == r {
        assert(v.take(t) =~= p.take(t));
    } else {
        lemma_same_in_form(root, visits, a, b, t - 1);
        let x = v.take(t);
        let y = p.take(t);
        assert(visits.contains(visits[a].take(t)));
        assert(visits.contains(visits[b].take(t)));
        let i = choose|i: int| 0 <= i < visits.len() && visits[i] == x;
        let j = choose|j: int| 0 <= j < visits.len() && visits[j] == y;
        assert(visits[i].drop_last() =~= v.take(t - 1));
        assert(visits[j].drop_last() =~= p.take(t - 1));
        assert(form[t - 1] == encode_utf8(form_of(x)));
        assert(in_form_from(p, r)[t - 1] == encode_utf8(form_of(y)));
        encode_utf8_decode_utf8(form_of(x));
        encode_utf8_decode_utf8(form_of(y));
        assert(i == j);
    }
}

/// No entry is lost: a run that renames every entry of a tree that is due leaves no two
/// of them at one path.
pub proof fn law_no_two_entries_end_at_one_path(
    root: Seq<Seq<u8>>,
    visits: Seq<Seq<Seq<u8>>>,
    one: int,
    other: int,
)
    requires
        walks_tree(root, visits),
        0 <= one < other < visits.len(),
    ensures
        moved_by(visits[one], visits, targets(visits), visits.len()) != moved_by(
            visits[other],
            visits,
            targets(visits),
            visits.len(),
        ),
{
    law_whole_tree_ends_in_form(root, visits, one);
    law_whole_tree_ends_in_form(root, visits, other);
    let r = root.len() as int;
    let v = visits[one];
    let p = visits[other];
    if in_form_from(v, r) == in_form_from(p, r) {
        lemma_same_in_form(root, visits, one, other, v.len() as int);
        assert(v.take(v.len() as int) =~= v);
        assert(p.take(p.len() as int) =~= p);
        assert(v =~= p.subrange(0, v.len() as int));
        assert(visits[one].is_prefix_of(visits[other]));
        assert(false);
    }
}

/// The paths of the entries that the walk met, in order.
pub open spec fn found_paths(inputs: Seq<RenameInput>) -> Seq<Seq<Seq<u8>>>
    decreases inputs.len(),
{
    if inputs.len() == 0 {
        seq![]
    } else {
        match inputs.last() {
            RenameInput::Found(path) => found_paths(inputs.drop_last()).push(path),
            _ => found_paths(inputs.drop_last()),
        }
    }
}

/// What is to be done after the `k`th event.
pub open spec fn action_after(
    state: RenameState,
    inputs: Seq<RenameInput>,
    k: int,
) -> RenameAction {
    after(state, inputs.take(k)).next(inputs[k]).1
}

/// Every name that the walk met is in form C.
pub open spec fn all_in_form(inputs: Seq<RenameInput>) -> bool {
    forall|i: int|
        #![trigger found_paths(inputs)[i]]
        0 <= i < found_paths(inputs).len() ==> (entry_name(found_paths(inputs)[i]) matches Some(
            name,
        ) && is_nfc(name))
}

proof fn lemma_found_paths(inputs: Seq<RenameInput>)
    ensures
        found(inputs) == found_paths(inputs).len(),
        (forall|i: int|
            #![trigger found_paths(inputs)[i]]
            0 <= i < found_paths(inputs).len() ==> entry_name(found_paths(inputs)[i]) is Some)
            ==> unnamed(inputs) == 0,
    decreases inputs.len(),
{
    if inputs.len() > 0 {
        let before = inputs.drop_last();
        lemma_found_paths(before);
        let all = found_paths(inputs);
        let some = found_paths(before);
        assert(forall|i: int| 0 <= i < some.len() ==> all[i] == #[trigger] some[i]);
        if inputs.last() is Found {
            assert(all[all.len() - 1] == inputs.last()->Found_0);
        }
    }
}

/// A run over entries whose names are all in form C passes over every one of them: it
/// renames nothing, meets no collision, and asks for nothing but the next entry.
pub proof fn law_run_over_names_in_form_is_idle(policy: RenamePolicy, inputs: Seq<RenameInput>)
    requires
        all_accepted(RenameState::fresh(policy), inputs),
        all_in_form(inputs),
    ensures
        ({
            let state = after(RenameState::fresh(policy), inputs);
            &&& state.phase is Walking
            &&& state.tally.renamed == 0
            &&& state.tally.collisions == 0
            &&& state.tally.scanned == found(inputs)
            &&& state.tally.skipped_already_nfc == state.tally.scanned
            &&& forall|k: int|
                0 <= k < inputs.len() ==> {
                    let action = #[trigger] action_after(RenameState::fresh(policy), inputs, k);
                    action is Next || action is ReportFailure
                }
        }),
    decreases inputs.len(),
{
    let start = RenameState::fresh(policy);
    if inputs.len() > 0 {
        let before = inputs.drop_last();
        let all = found_paths(inputs);
        let some = found_paths(before);
        assert(forall|i: int| 0 <= i < some.len() ==> all[i] == #[trigger] some[i]);
        if inputs.last() is Found {
            assert(all[all.len() - 1] == inputs.last()->Found_0);
        }
        law_run_over_names_in_form_is_idle(policy, before);
        assert forall|k: int| 0 <= k < inputs.len() implies {
            let action = #[trigger] action_after(start, inputs, k);
            action is Next || action is ReportFailure
        } by {
            if k < before.len() {
                assert(inputs.take(k) =~= before.take(k));
                assert(inputs[k] == before[k]);
                assert(action_after(start, before, k) == action_after(start, inputs, k));
            } else {
                assert(inputs.take(k) =~= before);
            }
        }
    }
}

/// Renaming a tree again changes nothing. Where a first run met every entry of a tree,
/// no failure and no collision, it renamed all that was due; a second run that meets the
/// entries where the first left them scans as many, finds every name in form C, renames
/// nothing, meets no collision, and asks for nothing but the next entry.
pub proof fn law_second_run_renames_nothing(
    root: Seq<Seq<u8>>,
    visits: Seq<Seq<Seq<u8>>>,
    policy: RenamePolicy,
    first: Seq<RenameInput>,
    second: Seq<RenameInput>,
)
    requires
        walks_tree(root, visits),
        !policy.dry_run,
        all_accepted(RenameState::fresh(policy), first),
        found_paths(first) == visits,
        failures(first) == 0,
        clashes(first) == 0,
        after(RenameState::fresh(policy), first).phase is Walking,
        all_accepted(RenameState::fresh(policy), second),
        found_paths(second).len() == visits.len(),
        forall|i: int|
            #![trigger found_paths(second)[i]]
            0 <= i < found_paths(second).len() ==> ends_at(visits, found_paths(second)[i]),
    ensures
        ({
            let one = after(RenameState::fresh(policy), first).tally;
            let two = after(RenameState::fresh(policy), second).tally;
            &&& one.scanned == visits.len()
            &&& one.renamed == visits.len() - in_form(first)
            &&& two.scanned == one.scanned
            &&& two.skipped_already_nfc == two.scanned
            &&& two.renamed == 0
            &&& two.collisions == 0
            &&& forall|k: int|
                0 <= k < second.len() ==> {
                    let action = #[trigger] action_after(RenameState::fresh(policy), second, k);
                    action is Next || action is ReportFailure
                }
        }),
{
    lemma_found_paths(first);
    lemma_found_paths(second);
    law_counters_tell_the_events(policy, first);
    law_every_entry_is_accounted_for(policy, first);
    assert forall|i: int|
        #![trigger found_paths(second)[i]]
        0 <= i < found_paths(second).len() implies (entry_name(found_paths(second)[i]) matches Some(
        name,
    ) && is_nfc(name)) by {
        lemma_ends_in_form(root, visits, found_paths(second)[i]);
    }
    law_run_over_names_in_form_is_idle(policy, second);
}

/// Renaming leaves nothing for archiving to convert: where every entry that the archive
/// meets is one that a run has left there that renamed all that was due, none is marked
/// as converted.
pub proof fn law_archive_of_a_renamed_tree_marks_nothing(
    root: Seq<Seq<u8>>,
    visits: Seq<Seq<Seq<u8>>>,
    options: ZipOptions,
    inputs: Seq<ZipInput>,
)
    requires
        walks_tree(root, visits),
        archive_laws::all_accepted(ZipState::fresh(root, options), inputs),
        forall|k: int|
            0 <= k < inputs.len() ==> match #[trigger] inputs[k] {
                ZipInput::Found { path, .. } => {
                    &&& ends_at(visits, path)
                    &&& reads_unicode(path.skip(root.len() as int))
                },
                _ => true,
            },
    ensures
        archive_laws::after(ZipState::fresh(root, options), inputs).tally.converted == 0,
{
    assert forall|k: int| 0 <= k < inputs.len() implies match #[trigger] inputs[k] {
        ZipInput::Found { path, .. } => root.is_prefix_of(path) && root.len() < path.len() ==> {
            &&& reads_unicode(path.skip(root.len() as int))
            &&& entry_name(path) matches Some(name)
            &&& is_nfc(name)
        },
        _ => true,
    } by {
        if let ZipInput::Found { path, .. } = inputs[k] {
            lemma_ends_in_form(root, visits, path);
        }
    }
    archive_laws::law_names_in_form_are_not_marked(root, options, inputs);
}

} // verus!
