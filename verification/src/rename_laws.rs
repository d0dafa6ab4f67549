//! What holds of every run of renames.
use crate::paths::{path_buf_components, path_components, sibling};
use crate::rename::{
    entry_name, form_settles, FileId, Pending, RenameAction, RenameEvent, RenameInput,
    RenamePolicy, RenameRun, RenameState, RenameTally,
};
use crate::text::{is_nfc, is_plain_bytes, is_plain_name, lemma_plain_encoded, nfc_form};
use std::path::Path;
use vstd::prelude::*;
use vstd::utf8::{
    decode_utf8, encode_utf8, encode_utf8_decode_utf8, encode_utf8_valid_utf8, valid_utf8,
};

verus! {

/// Where a run stands after these events.
pub open spec fn after(state: RenameState, inputs: Seq<RenameInput>) -> RenameState
    decreases inputs.len(),
{
    if inputs.len() == 0 {
        state
    } else {
        after(state, inputs.drop_last()).next(inputs.last()).0
    }
}

/// Each of these events could come when it came.
pub open spec fn all_accepted(state: RenameState, inputs: Seq<RenameInput>) -> bool
    decreases inputs.len(),
{
    inputs.len() == 0 || {
        &&& all_accepted(state, inputs.drop_last())
        &&& after(state, inputs.drop_last()).accepts(inputs.last())
    }
}

/// How many of the events are of this sort.
pub open spec fn count(inputs: Seq<RenameInput>, sort: spec_fn(RenameInput) -> bool) -> nat
    decreases inputs.len(),
{
    if inputs.len() == 0 {
        0
    } else {
        count(inputs.drop_last(), sort) + if sort(inputs.last()) {
            1nat
        } else {
            0nat
        }
    }
}

/// Entries that the walk met.
pub open spec fn found(inputs: Seq<RenameInput>) -> nat {
    count(inputs, |input: RenameInput| input is Found)
}

/// Entries among them without a name that could be read as Unicode.
pub open spec fn unnamed(inputs: Seq<RenameInput>) -> nat {
    count(
        inputs,
        |input: RenameInput|
            input matches RenameInput::Found(path) && entry_name(path) is None,
    )
}

/// Entries among them with a name in form C.
pub open spec fn in_form(inputs: Seq<RenameInput>) -> nat {
    count(
        inputs,
        |input: RenameInput|
            {
                &&& input matches RenameInput::Found(path)
                &&& entry_name(path) matches Some(name)
                &&& is_nfc(name)
            },
    )
}

/// Entries that stood in the way of another file.
pub open spec fn clashes(inputs: Seq<RenameInput>) -> nat {
    count(
        inputs,
        |input: RenameInput|
            input matches RenameInput::Compared { source, target } && source != target,
    )
}

/// Renames that were made.
pub open spec fn renames(inputs: Seq<RenameInput>) -> nat {
    count(inputs, |input: RenameInput| input is Renamed)
}

/// Failures on an entry.
pub open spec fn failures(inputs: Seq<RenameInput>) -> nat {
    count(inputs, |input: RenameInput| input is Failed)
}

/// Roots and entries that could not be read.
pub open spec fn unreadable(inputs: Seq<RenameInput>) -> nat {
    count(inputs, |input: RenameInput| input is Unreadable)
}

/// The counters of a run say what it met: each is the number of the events that it
/// stands for.
pub proof fn law_counters_tell_the_events(policy: RenamePolicy, inputs: Seq<RenameInput>)
    requires
        all_accepted(RenameState::fresh(policy), inputs),
    ensures
        ({
            let state = after(RenameState::fresh(policy), inputs);
            &&& state.policy == policy
            &&& state.tally.scanned == found(inputs)
            &&& state.tally.skipped_already_nfc == in_form(inputs)
            &&& state.tally.collisions == clashes(inputs)
            &&& state.tally.errors == unreadable(inputs) + if policy.stop_on_failure {
                0
            } else {
                failures(inputs)
            }
            &&& !policy.dry_run ==> state.tally.renamed == renames(inputs)
        }),
    decreases inputs.len(),
{
    if inputs.len() > 0 {
        law_counters_tell_the_events(policy, inputs.drop_last());
    }
}

/// Every entry that was scanned is accounted for, once: it was renamed, or its name
/// was in form C, or it collided, or it had no name in Unicode, or the file system
/// failed on it, or it is the one being dealt with.
pub proof fn law_every_entry_is_accounted_for(policy: RenamePolicy, inputs: Seq<RenameInput>)
    requires
        all_accepted(RenameState::fresh(policy), inputs),
    ensures
        ({
            let state = after(RenameState::fresh(policy), inputs);
            &&& state.wf()
            &&& state.tally.scanned == state.tally.renamed + state.tally.skipped_already_nfc
                + state.tally.collisions + unnamed(inputs) + failures(inputs) + (if state.phase
                is Walking || state.phase is Stopped {
                0nat
            } else {
                1nat
            })
        }),
    decreases inputs.len(),
{
    if inputs.len() > 0 {
        law_every_entry_is_accounted_for(policy, inputs.drop_last());
    }
}

/// Nothing is overwritten: an entry is renamed only where nothing is at the target,
/// or where the target is the entry itself.
pub proof fn law_another_file_is_never_overwritten(state: RenameState, input: RenameInput)
    requires
        state.accepts(input),
        state.next(input).1 is Rename,
    ensures
        input is TargetMissing || (input matches RenameInput::Compared { source, target }
            && source == target),
{
}

/// The same file under two spellings of its name is no collision, and another file
/// always is one: it is counted, the entry keeps its name, and the run goes on. There
/// is a line for it exactly where entries have lines at all.
pub proof fn law_collision_means_another_file(state: RenameState, input: RenameInput)
    requires
        state.accepts(input),
        input is Compared,
    ensures
        input->source != input->target && state.policy.announce <==> state.next(
            input,
        ).1 is ReportCollision,
        input->source != input->target <==> state.next(input).0.tally.collisions
            == state.tally.collisions + 1,
        input->source != input->target ==> {
            &&& state.next(input).0.phase is Walking
            &&& state.next(input).0.tally.renamed == state.tally.renamed
        },
{
}

/// A dry run renames nothing.
pub proof fn law_dry_run_renames_nothing(policy: RenamePolicy, inputs: Seq<RenameInput>)
    requires
        policy.dry_run,
        all_accepted(RenameState::fresh(policy), inputs),
    ensures
        !(after(RenameState::fresh(policy), inputs).phase is Renaming),
        forall|input: RenameInput|
            after(RenameState::fresh(policy), inputs).accepts(input) ==> !(
                #[trigger] after(RenameState::fresh(policy), inputs).next(input).1 is Rename),
    decreases inputs.len(),
{
    law_counters_tell_the_events(policy, inputs);
    if inputs.len() > 0 {
        law_dry_run_renames_nothing(policy, inputs.drop_last());
        law_counters_tell_the_events(policy, inputs.drop_last());
    }
}

/// A quiet run says nothing of any entry: not of a rename, a collision or a failure.
pub proof fn law_quiet_run_says_nothing(state: RenameState, input: RenameInput)
    requires
        !state.policy.announce,
        !state.policy.report,
        state.accepts(input),
    ensures
        ({
            let action = state.next(input).1;
            &&& !(action is Announce)
            &&& !(action is Report)
            &&& !(action is ReportCollision)
            &&& !(action is ReportFailure)
            &&& action != (RenameAction::Rename { announce: true })
        }),
{
}

/// A dry run counts the renames that the run itself would make, and announces them
/// alike: from the same state, whatever lets one go ahead lets the other.
pub proof fn law_dry_run_foretells(state: RenameState, dry: RenameState, input: RenameInput)
    requires
        dry == (RenameState {
            policy: RenamePolicy { dry_run: true, ..state.policy },
            ..state
        }),
        !state.policy.dry_run,
        state.accepts(input),
    ensures
        dry.accepts(input),
        state.next(input).1 is Rename ==> {
            let done = state.next(input).0.next(RenameInput::Renamed).0;
            &&& done.tally == dry.next(input).0.tally
            &&& done.phase == dry.next(input).0.phase
            &&& dry.next(input).1 == if state.next(input).1->announce {
                RenameAction::Announce
            } else {
                RenameAction::Next
            }
        },
        !(state.next(input).1 is Rename) ==> {
            &&& state.next(input).1 == dry.next(input).1
            &&& state.next(input).0.tally == dry.next(input).0.tally
            &&& state.next(input).0.phase == dry.next(input).0.phase
        },
{
}

/// The root of a walk is left alone: meeting it changes nothing and asks for
/// nothing.
pub proof fn law_root_is_left_alone(state: RenameState)
    ensures
        state.next(RenameInput::Root) == (state, RenameAction::Next),
{
}

/// Renaming is done once: an entry that was given its new name, met again, is in
/// form C and is passed over.
pub proof fn law_renaming_settles(path: Seq<Seq<u8>>, pending: Pending, state: RenameState)
    requires
        pending.wf(),
        pending.renames(path),
        state.phase is Walking,
    ensures
        entry_name(path_buf_components(&pending.target)) == Some(pending.new_name@),
        ({
            let again = RenameInput::Found(path_buf_components(&pending.target));
            let (then, action) = state.next(again);
            &&& action is Next
            &&& then.phase is Walking
            &&& then.tally.skipped_already_nfc == state.tally.skipped_already_nfc + 1
            &&& then.tally.renamed == state.tally.renamed
        }),
{
    lemma_plain_encoded(pending.new_name@);
    encode_utf8_valid_utf8(pending.new_name@);
    encode_utf8_decode_utf8(pending.new_name@);
}

/// A rename stays in its directory: the target has the parent of the entry, and lies
/// in every directory that the entry lies in.
pub proof fn law_rename_stays_in_its_directory(
    path: Seq<Seq<u8>>,
    new_name: Seq<char>,
    dir: Seq<Seq<u8>>,
)
    requires
        path.len() > 0,
        dir.is_prefix_of(path),
        dir.len() < path.len(),
    ensures
        sibling(path, new_name).drop_last() == path.drop_last(),
        dir.is_prefix_of(sibling(path, new_name)),
{
    let target = sibling(path, new_name);
    assert(target.drop_last() =~= path.drop_last());
    assert(dir =~= target.subrange(0, dir.len() as int)) by {
        assert(dir == path.subrange(0, dir.len() as int));
        assert forall|i: int| 0 <= i < dir.len() implies dir[i] == target[i] by {
            assert(path.subrange(0, dir.len() as int)[i] == path[i]);
        }
    }
}

/// Where the entry at `path` is once what was at `from` is at `to`: it moves along if
/// it is that entry or lies below it.
pub open spec fn moved(path: Seq<Seq<u8>>, from: Seq<Seq<u8>>, to: Seq<Seq<u8>>) -> Seq<Seq<u8>> {
    if from.is_prefix_of(path) {
        to + path.skip(from.len() as int)
    } else {
        path
    }
}

/// Where the entry at `path` is once the first `n` visited entries have been renamed.
pub open spec fn moved_by(
    path: Seq<Seq<u8>>,
    visits: Seq<Seq<Seq<u8>>>,
    targets: Seq<Seq<Seq<u8>>>,
    n: nat,
) -> Seq<Seq<u8>>
    decreases n,
{
    if n == 0 {
        path
    } else {
        let k = (n - 1) as nat;
        moved(moved_by(path, visits, targets, k), visits[k as int], targets[k as int])
    }
}

/// The order of a walk that visits what a directory holds before the directory: no
/// entry comes after one that it lies below.
pub open spec fn contents_first(visits: Seq<Seq<Seq<u8>>>) -> bool {
    forall|i: int, j: int|
        0 <= i < j < visits.len() ==> !(#[trigger] visits[i]).is_prefix_of(#[trigger] visits[j])
}

/// A walk that visits contents first is not disturbed by renames: when an entry's
/// turn comes it is still at the path under which the walk knows it, whatever was
/// renamed before.
pub proof fn law_contents_first_keeps_paths_valid(
    visits: Seq<Seq<Seq<u8>>>,
    targets: Seq<Seq<Seq<u8>>>,
    turn: nat,
)
    requires
        contents_first(visits),
        turn < visits.len(),
    ensures
        moved_by(visits[turn as int], visits, targets, turn) == visits[turn as int],
{
    lemma_not_moved(visits, targets, turn, turn);
}

proof fn lemma_not_moved(
    visits: Seq<Seq<Seq<u8>>>,
    targets: Seq<Seq<Seq<u8>>>,
    turn: nat,
    n: nat,
)
    requires
        contents_first(visits),
        n <= turn < visits.len(),
    ensures
        moved_by(visits[turn as int], visits, targets, n) == visits[turn as int],
    decreases n,
{
    if n > 0 {
        lemma_not_moved(visits, targets, turn, (n - 1) as nat);
        assert(!visits[n - 1].is_prefix_of(visits[turn as int]));
    }
}

/// What is to become of an entry rests on its own name alone, in whatever directory it
/// lies and however deep. A name of a directory entry that is Unicode and that
/// normalizing changes is due: the run asks what is at its target. One that normalizing
/// leaves as it is is counted as such, and one that is not Unicode, or no name, is
/// passed over; both keep their names.
pub proof fn law_entry_is_dealt_with_by_its_name(
    state: RenameState,
    dir: Seq<Seq<u8>>,
    name: Seq<u8>,
)
    requires
        state.phase is Walking,
    ensures
        ({
            let (then, action) = state.next(RenameInput::Found(dir.push(name)));
            let seen = RenameTally { scanned: state.tally.scanned + 1, ..state.tally };
            let readable = is_plain_bytes(name) && valid_utf8(name);
            &&& then.policy == state.policy
            &&& readable && nfc_form(decode_utf8(name)) != decode_utf8(name) ==> {
                &&& action is CheckTarget
                &&& then.phase is Checking
                &&& then.tally == seen
            }
            &&& readable && nfc_form(decode_utf8(name)) == decode_utf8(name) ==> {
                &&& action is Next
                &&& then.phase is Walking
                &&& then.tally == RenameTally {
                    skipped_already_nfc: state.tally.skipped_already_nfc + 1,
                    ..seen
                }
            }
            &&& !readable ==> {
                &&& action is Next
                &&& then.phase is Walking
                &&& then.tally == seen
            }
        }),
        entry_name(dir.push(name)) == if is_plain_bytes(name) && valid_utf8(name) {
            Some(decode_utf8(name))
        } else {
            None
        },
        entry_name(Seq::<Seq<u8>>::empty()) is None,
{
    assert(dir.push(name).last() == name);
}

/// Where an entry lies makes no difference to what is done with it: two entries of one
/// name are answered alike.
pub proof fn law_depth_makes_no_difference(
    state: RenameState,
    one: Seq<Seq<u8>>,
    other: Seq<Seq<u8>>,
)
    requires
        one.len() > 0,
        other.len() > 0,
        one.last() == other.last(),
    ensures
        state.accepts(RenameInput::Found(one)) == state.accepts(RenameInput::Found(other)),
        state.next(RenameInput::Found(one)) == state.next(RenameInput::Found(other)),
        entry_name(one) == entry_name(other),
{
}

/// The rename of an entry gives it the form C of its own name, in the directory that it
/// lies in.
pub proof fn law_rename_gives_form_c_in_place(
    pending: Pending,
    dir: Seq<Seq<u8>>,
    name: Seq<u8>,
)
    requires
        pending.renames(dir.push(name)),
    ensures
        is_plain_bytes(name),
        valid_utf8(name),
        pending.new_name@ == nfc_form(decode_utf8(name)),
        path_buf_components(&pending.target) == dir.push(
            encode_utf8(nfc_form(decode_utf8(name))),
        ),
{
    assert(dir.push(name).last() == name);
    assert(dir.push(name).drop_last() =~= dir);
}

/// An entry that is due is renamed where nothing stands in its way: where nothing is at
/// the target, or the target is the entry itself, as it is where the file system takes
/// both spellings for one name. It is then counted once as scanned and once as renamed,
/// and nothing else is counted.
pub proof fn law_due_entry_is_renamed(
    state: RenameState,
    dir: Seq<Seq<u8>>,
    name: Seq<u8>,
    file: FileId,
)
    requires
        state.phase is Walking,
        state.tally.scanned < usize::MAX,
        !state.policy.dry_run,
        is_plain_bytes(name),
        valid_utf8(name),
        nfc_form(decode_utf8(name)) != decode_utf8(name),
    ensures
        ({
            let found = RenameInput::Found(dir.push(name));
            let same = RenameInput::Compared { source: file, target: file };
            let checking = state.next(found).0;
            let comparing = checking.next(RenameInput::TargetExists).0;
            let free = checking.next(RenameInput::TargetMissing);
            let own = comparing.next(same);
            let done = free.0.next(RenameInput::Renamed).0;
            &&& state.accepts(found)
            &&& checking.accepts(RenameInput::TargetMissing)
            &&& checking.accepts(RenameInput::TargetExists)
            &&& checking.next(RenameInput::TargetExists).1 is CompareFiles
            &&& comparing.accepts(same)
            &&& own == free
            &&& free.1 == (RenameAction::Rename { announce: state.policy.announce })
            &&& free.0.accepts(RenameInput::Renamed)
            &&& done.policy == state.policy
            &&& done.phase is Walking
            &&& done.tally == RenameTally {
                scanned: state.tally.scanned + 1,
                renamed: state.tally.renamed + 1,
                ..state.tally
            }
        }),
{
    assert(dir.push(name).last() == name);
}

/// Each counter counts one thing: what was met, what was renamed or would have been,
/// what was in form C, what another file stood in the way of, and what failed and was
/// passed over.
pub proof fn law_each_counter_counts_one_thing(state: RenameState, input: RenameInput)
    requires
        state.accepts(input),
    ensures
        ({
            let then = state.next(input).0.tally;
            let clash = input matches RenameInput::Compared { source, target } && (source.dev
                != target.dev || source.ino != target.ino);
            let free = input is TargetMissing || (input is Compared && !clash);
            let in_form = input matches RenameInput::Found(path) && {
                &&& path.len() > 0
                &&& is_plain_bytes(path.last())
                &&& valid_utf8(path.last())
                &&& nfc_form(decode_utf8(path.last())) == decode_utf8(path.last())
            };
            let one = |yes: bool|
                if yes {
                    1nat
                } else {
                    0nat
                };
            &&& then.scanned == state.tally.scanned + one(input is Found)
            &&& then.renamed == state.tally.renamed + one(
                input is Renamed || (free && state.policy.dry_run),
            )
            &&& then.skipped_already_nfc == state.tally.skipped_already_nfc + one(in_form)
            &&& then.collisions == state.tally.collisions + one(clash)
            &&& then.errors == state.tally.errors + one(
                input is Unreadable || (input is Failed && !state.policy.stop_on_failure),
            )
            &&& state.next(input).0.policy == state.policy
        }),
{
}

/// What each answer answers to, and what the run waits for after it: it asks for a
/// rename only where the way is free and this is no dry run, it gives up only on a
/// failure where that is the policy, and it speaks only where it is to.
pub proof fn law_each_answer_has_its_cause(state: RenameState, input: RenameInput)
    requires
        state.accepts(input),
    ensures
        ({
            let (then, action) = state.next(input);
            let clash = input matches RenameInput::Compared { source, target } && (source.dev
                != target.dev || source.ino != target.ino);
            let free = input is TargetMissing || (input is Compared && !clash);
            let due = input matches RenameInput::Found(path) && {
                &&& path.len() > 0
                &&& is_plain_bytes(path.last())
                &&& valid_utf8(path.last())
                &&& nfc_form(decode_utf8(path.last())) != decode_utf8(path.last())
            };
            let stops = input is Failed && state.policy.stop_on_failure;
            let failed = input is Unreadable || (input is Failed && !stops);
            &&& action is CheckTarget <==> due
            &&& action is CompareFiles <==> input is TargetExists
            &&& action is Rename <==> free && !state.policy.dry_run
            &&& action is Rename ==> action->announce == state.policy.announce
            &&& action is Announce <==> free && state.policy.dry_run && state.policy.announce
            &&& action is Report <==> input is Renamed && state.policy.report
            &&& action is ReportCollision <==> clash && state.policy.announce
            &&& action is ReportFailure <==> failed && state.policy.announce
            &&& action is Stop <==> stops
            &&& then.phase is Checking <==> due
            &&& then.phase is Comparing <==> input is TargetExists
            &&& then.phase is Renaming <==> free && !state.policy.dry_run
            &&& then.phase is Stopped <==> stops
        }),
{
}

/// What a run waits for decides what can come, and nothing else does but the room of
/// the counters: while it walks, any entry at all can.
pub proof fn law_events_come_in_turn(
    state: RenameState,
    path: Seq<Seq<u8>>,
    source: FileId,
    target: FileId,
)
    ensures
        state.accepts(RenameInput::Found(path)) <==> state.phase is Walking && state.tally.scanned
            < usize::MAX,
        state.accepts(RenameInput::Unreadable) <==> state.phase is Walking && state.tally.errors
            < usize::MAX,
        state.accepts(RenameInput::Root) <==> state.phase is Walking,
        state.accepts(RenameInput::TargetMissing) <==> state.phase is Checking,
        state.accepts(RenameInput::TargetExists) <==> state.phase is Checking,
        state.accepts(RenameInput::Compared { source, target }) <==> state.phase is Comparing,
        state.accepts(RenameInput::Renamed) <==> state.phase is Renaming,
        state.accepts(RenameInput::Failed) <==> (state.phase is Comparing || state.phase
            is Renaming) && (state.policy.stop_on_failure || state.tally.errors < usize::MAX),
{
}

/// Where a run stands is what its fields say, number for number, and an event is told of
/// the path that it has.
pub proof fn law_state_is_what_the_run_holds(
    run: RenameRun,
    policy: RenamePolicy,
    path: &Path,
    source: FileId,
    target: FileId,
)
    ensures
        run.state().policy == run.policy,
        run.state().phase == run.phase,
        run.state().tally.scanned == run.stats.scanned,
        run.state().tally.renamed == run.stats.renamed,
        run.state().tally.skipped_already_nfc == run.stats.skipped_already_nfc,
        run.state().tally.collisions == run.stats.collisions,
        run.state().tally.errors == run.stats.errors,
        RenameState::fresh(policy).policy == policy,
        RenameState::fresh(policy).phase is Walking,
        RenameState::fresh(policy).tally == (RenameTally {
            scanned: 0,
            renamed: 0,
            skipped_already_nfc: 0,
            collisions: 0,
            errors: 0,
        }),
        RenameEvent::Found(path)@ == RenameInput::Found(path_components(path)),
        RenameEvent::Unreadable@ is Unreadable,
        RenameEvent::Root@ is Root,
        RenameEvent::TargetMissing@ is TargetMissing,
        RenameEvent::TargetExists@ is TargetExists,
        (RenameEvent::Compared { source, target })@ == (RenameInput::Compared { source, target }),
        RenameEvent::Renamed@ is Renamed,
        RenameEvent::Failed@ is Failed,
{
}

/// Nothing more is asked of a run for it to be in order than that no entry is counted
/// twice, that one that waits for an outcome has a rename of which it waits to hear, and
/// that the new name is in form C and is that of the target.
pub proof fn law_when_a_run_is_in_order(run: RenameRun)
    requires
        run.stats.renamed + run.stats.skipped_already_nfc + run.stats.collisions
            < run.stats.scanned || (run.phase is Walking && run.stats.renamed
            + run.stats.skipped_already_nfc + run.stats.collisions <= run.stats.scanned),
        run.phase is Walking || run.phase is Stopped || run.pending is Some,
        run.pending matches Some(pending) ==> {
            &&& nfc_form(pending.new_name@) == pending.new_name@
            &&& is_plain_name(pending.new_name@)
            &&& path_buf_components(&pending.target).len() > 0
            &&& path_buf_components(&pending.target).last() == encode_utf8(pending.new_name@)
        },
    ensures
        run.wf(),
{
}

/// The form C of a name that is Unicode is in form C itself and names a directory entry.
pub proof fn law_form_of_a_name_is_a_name(dir: Seq<Seq<u8>>, name: Seq<u8>)
    requires
        form_settles(dir.push(name)),
        is_plain_bytes(name),
        valid_utf8(name),
    ensures
        nfc_form(nfc_form(decode_utf8(name))) == nfc_form(decode_utf8(name)),
        is_plain_name(nfc_form(decode_utf8(name))),
{
    assert(dir.push(name).last() == name);
}

} // verus!
