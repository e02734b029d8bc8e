//! Laws that relate several operations of the store. Each is stated over the
//! relations that the operations' own contracts establish.

use vstd::prelude::*;

use crate::entity::{Stroke, Text};
use crate::state::{erasable, moved, Action, State};
use slotmap::DefaultKey;

verus! {

/// Adding a stroke, undoing and then redoing leaves that stroke live again,
/// under a key the board did not use before, with the graveyard as it was
/// before the addition: the counts of live and buried strokes are those
/// right after the addition.
pub proof fn lemma_stroke_round_trip(s0: State, s1: State, s2: State, s3: State, stroke: Stroke)
    requires
        s0.wf(),
        s0.stroke_added_with_undo(s1, stroke),
        s1.stepped(s2, true),
        s2.stepped(s3, false),
    ensures
        ({
            let k = s3.undo_actions@.last().key();
            &&& !s0.live_strokes().contains_key(k)
            &&& s3.live_strokes() == s0.live_strokes().insert(k, stroke)
            &&& s3.undo_actions@ == s0.undo_actions@.push(Action::AddStroke(k))
        }),
        s3.dead_strokes() == s0.dead_strokes(),
        s3.redo_actions@ == s0.redo_actions@,
        s0.same_texts(s3),
        s3.live_strokes().dom().len() == s1.live_strokes().dom().len(),
        s3.dead_strokes().dom().len() == s1.dead_strokes().dom().len(),
{
    let k = s1.undo_actions@.last().key();
    assert(s1.undo_actions@.drop_last() =~= s0.undo_actions@);
    assert(s1.last_reversible(s1.undo_actions@, true) == s1.undo_actions@.len() - 1);
    assert(s1.undo_actions@.take(s1.undo_actions@.len() - 1) =~= s0.undo_actions@);
    assert(s2.live_strokes() =~= s0.live_strokes());
    let nk = s2.redo_actions@.last().key();
    assert(s2.last_reversible(s2.redo_actions@, false) == s2.redo_actions@.len() - 1);
    assert(s2.redo_actions@.take(s2.redo_actions@.len() - 1) =~= s0.redo_actions@);
    assert(s3.dead_strokes() =~= s0.dead_strokes());
}

/// Adding a text label, undoing and then redoing leaves that label live
/// again, under a key the board did not use before, with the graveyard as it
/// was before the addition: the counts of live and buried labels are those
/// right after the addition.
pub proof fn lemma_text_round_trip(s0: State, s1: State, s2: State, s3: State, text: Text)
    requires
        s0.wf(),
        s0.text_added_with_undo(s1, text),
        s1.stepped(s2, true),
        s2.stepped(s3, false),
    ensures
        ({
            let k = s3.undo_actions@.last().key();
            &&& !s0.live_texts().contains_key(k)
            &&& s3.live_texts() == s0.live_texts().insert(k, text)
            &&& s3.undo_actions@ == s0.undo_actions@.push(Action::AddText(k))
        }),
        s3.dead_texts() == s0.dead_texts(),
        s3.redo_actions@ == s0.redo_actions@,
        s0.same_strokes(s3),
        s3.live_texts().dom().len() == s1.live_texts().dom().len(),
        s3.dead_texts().dom().len() == s1.dead_texts().dom().len(),
{
    assert(s1.undo_actions@.drop_last() =~= s0.undo_actions@);
    assert(s1.last_reversible(s1.undo_actions@, true) == s1.undo_actions@.len() - 1);
    assert(s1.undo_actions@.take(s1.undo_actions@.len() - 1) =~= s0.undo_actions@);
    assert(s2.live_texts() =~= s0.live_texts());
    assert(s2.last_reversible(s2.redo_actions@, false) == s2.redo_actions@.len() - 1);
    assert(s2.redo_actions@.take(s2.redo_actions@.len() - 1) =~= s0.redo_actions@);
    assert(s3.dead_texts() =~= s0.dead_texts());
}

/// Undoing with an empty undo log, or redoing with an empty redo log, changes
/// nothing.
pub proof fn lemma_step_on_empty_log(s0: State, s1: State, undoing: bool)
    requires
        s0.log(undoing).len() == 0,
        s0.stepped(s1, undoing),
    ensures
        s0.same_strokes(s1),
        s0.same_texts(s1),
        s0.same_logs(s1),
        s0.same_settings(s1),
{
    assert(s0.log(undoing) =~= Seq::<Action>::empty());
}

/// With a stale addition on top of the undo log and a live one under it, one
/// undo drops the stale entry and buries the live stroke: the redo log then
/// holds one entry, naming that stroke in the graveyard.
pub proof fn lemma_undo_skips_stale_entry(s0: State, s1: State, stale: DefaultKey, live: DefaultKey)
    requires
        s0.undo_actions@ == seq![Action::AddStroke(live), Action::AddStroke(stale)],
        s0.redo_actions@.len() == 0,
        !s0.live_strokes().contains_key(stale),
        s0.live_strokes().contains_key(live),
        s0.stepped(s1, true),
    ensures
        s1.undo_actions@.len() == 0,
        s1.redo_actions@.len() == 1,
        s1.redo_actions@[0] is AddStroke,
        s1.dead_strokes().contains_key(s1.redo_actions@[0].key()),
        s1.dead_strokes()[s1.redo_actions@[0].key()] == s0.live_strokes()[live],
        s1.live_strokes() == s0.live_strokes().remove(live),
        s0.same_texts(s1),
{
    let log = s0.undo_actions@;
    assert(log.drop_last() =~= seq![Action::AddStroke(live)]);
    assert(log.drop_last().drop_last() =~= Seq::<Action>::empty());
    assert(log.last() == Action::AddStroke(stale));
    assert(!s0.can_reverse(log.last(), true));
    assert(log.drop_last().last() == Action::AddStroke(live));
    assert(s0.last_reversible(log.drop_last(), true) == 0);
    assert(s0.last_reversible(log, true) == 0);
    assert(s1.redo_actions@ =~= seq![s1.redo_actions@.last()]);
}

/// Moving a stroke out of the live arena retires its key there, and the key
/// it is given in the graveyard was not in use among the buried strokes.
pub proof fn lemma_removed_key_retired(s0: State, s1: State, k: DefaultKey, nk: DefaultKey)
    requires
        moved(s0.live_strokes(), s0.dead_strokes(), s1.live_strokes(), s1.dead_strokes(), k, nk),
    ensures
        !s1.live_strokes().contains_key(k),
        s1.dead_strokes().contains_key(nk),
        !s0.dead_strokes().contains_key(nk),
        s1.dead_strokes()[nk] == s0.live_strokes()[k],
{
}

/// Erasing distinct live keys takes every one of them out.
pub proof fn lemma_erasable_all_live(keys: Seq<DefaultKey>, live: Set<DefaultKey>)
    requires
        keys.no_duplicates(),
        forall|j: int| 0 <= j < keys.len() ==> live.contains(#[trigger] keys[j]),
    ensures
        erasable(keys, live) == keys,
    decreases keys.len(),
{
    if keys.len() > 0 {
        let rest = keys.drop_first();
        assert forall|j: int| 0 <= j < rest.len() implies live.remove(keys[0]).contains(
            #[trigger] rest[j],
        ) by {
            assert(rest[j] == keys[j + 1]);
        }
        lemma_erasable_all_live(rest, live.remove(keys[0]));
        assert(seq![keys[0]] + rest =~= keys);
    }
}

/// Erasing distinct live strokes in one call logs one removal per stroke, in
/// order, each under its own graveyard key, so that each can be undone on
/// its own.
pub proof fn lemma_bulk_erase(s0: State, s1: State, keys: Seq<DefaultKey>)
    requires
        keys.no_duplicates(),
        forall|j: int| 0 <= j < keys.len() ==> s0.live_strokes().contains_key(#[trigger] keys[j]),
        s0.strokes_erased(s1, keys),
    ensures
        s1.undo_actions@.len() == s0.undo_actions@.len() + keys.len(),
        forall|j: int|
            0 <= j < keys.len() ==> {
                let a = #[trigger] s1.undo_actions@[s0.undo_actions@.len() + j];
                &&& a is RemoveStroke
                &&& s1.can_reverse(a, true)
                &&& s1.dead_strokes()[a.key()] == s0.live_strokes()[keys[j]]
            },
        forall|j1: int, j2: int|
            0 <= j1 < j2 < keys.len() ==> #[trigger] s1.undo_actions@[s0.undo_actions@.len()
                + j1].key() != #[trigger] s1.undo_actions@[s0.undo_actions@.len() + j2].key(),
{
    lemma_erasable_all_live(keys, s0.live_strokes().dom());
}

} // verus!
