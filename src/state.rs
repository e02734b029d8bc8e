//! The board's entity store and its undo/redo log.
//!
//! Strokes and text labels each live in two slot maps: the live one, which is
//! drawn, and a graveyard of soft-deleted entities. An entity that moves from
//! one to the other gets a new key there; its old key is retired with the slot.
//! The log records additions and removals by key, and undoing or redoing an
//! entry moves the entity back and records the key it was given.

use vstd::prelude::*;

use crate::arena::{
    get_stroke, insert_stroke, insert_text, new_stroke_arena, new_text_arena, remove_stroke_slot,
    remove_text_slot, stroke_keys, stroke_slots, text_slots, Arena, SLOT_LIMIT,
};
use crate::entity::{BackgroundColor, Color, ForegroundColor, Stroke, Text, TextColor, TextSize};
use crate::geometry::{check_collision_circles, circles_touch, Point};
use slotmap::DefaultKey;

verus! {

broadcast use vstd::seq_lib::lemma_seq_contains_after_push;

/// One entry of the undo or redo log.
#[derive(Clone, Copy, Debug, PartialEq, Eq)]
pub enum Action {
    AddStroke(DefaultKey),
    RemoveStroke(DefaultKey),
    AddText(DefaultKey),
    RemoveText(DefaultKey),
}

impl Action {
    pub open spec fn key(self) -> DefaultKey {
        match self {
            Action::AddStroke(k) => k,
            Action::RemoveStroke(k) => k,
            Action::AddText(k) => k,
            Action::RemoveText(k) => k,
        }
    }

    pub open spec fn is_stroke(self) -> bool {
        self is AddStroke || self is RemoveStroke
    }

    pub open spec fn is_add(self) -> bool {
        self is AddStroke || self is AddText
    }

    /// The same kind of entry, holding `k` instead.
    pub open spec fn rekeyed(self, k: DefaultKey) -> Action {
        match self {
            Action::AddStroke(_) => Action::AddStroke(k),
            Action::RemoveStroke(_) => Action::RemoveStroke(k),
            Action::AddText(_) => Action::AddText(k),
            Action::RemoveText(_) => Action::RemoveText(k),
        }
    }
}

/// Undoing an addition or redoing a removal sends the entity to the
/// graveyard; undoing a removal or redoing an addition brings it back.
pub open spec fn buries(a: Action, undoing: bool) -> bool {
    a.is_add() == undoing
}

/// The entity under `k` left `src` for `dst`, where it is now under `nk`, a
/// key that `dst` did not use.
pub open spec fn moved<V>(
    src: Map<DefaultKey, V>,
    dst: Map<DefaultKey, V>,
    src_after: Map<DefaultKey, V>,
    dst_after: Map<DefaultKey, V>,
    k: DefaultKey,
    nk: DefaultKey,
) -> bool {
    &&& src.contains_key(k)
    &&& !dst.contains_key(nk)
    &&& src_after == src.remove(k)
    &&& dst_after == dst.insert(nk, src[k])
}

/// Some point of `s` lies close enough to `p` that the brush's disc there
/// touches a disc of diameter `size` around `p`.
pub open spec fn stroke_touches(s: Stroke, p: Point, size: nat) -> bool {
    exists|i: int|
        0 <= i < s.points@.len() && circles_touch(
            #[trigger] s.points@[i],
            s.brush_size as nat,
            p,
            size,
        )
}

/// The keys of `keys` that erasing them one after the other takes out of a
/// board whose live strokes have the keys `live`: the first occurrence of
/// each live key, in order.
pub open spec fn erasable(keys: Seq<DefaultKey>, live: Set<DefaultKey>) -> Seq<DefaultKey>
    decreases keys.len(),
{
    if keys.len() == 0 {
        Seq::empty()
    } else if live.contains(keys[0]) {
        seq![keys[0]] + erasable(keys.drop_first(), live.remove(keys[0]))
    } else {
        erasable(keys.drop_first(), live)
    }
}

/// The disc of diameter `size` around `p` touches a stroke's brush.
fn touches_stroke(stroke: &Stroke, p: Point, size: u32) -> (r: bool)
    ensures
        r == stroke_touches(*stroke, p, size as nat),
{
    let mut j: usize = 0;
    while j < stroke.points.len()
        invariant
            j <= stroke.points@.len(),
            forall|jj: int|
                0 <= jj < j ==> !circles_touch(
                    #[trigger] stroke.points@[jj],
                    stroke.brush_size as nat,
                    p,
                    size as nat,
                ),
        decreases stroke.points@.len() - j,
    {
        if check_collision_circles(stroke.points[j], stroke.brush_size, p, size) {
            return true;
        }
        j += 1;
    }
    false
}

/// The drawing: its entities, its undo/redo log, and the colours and text
/// size that new entities take.
pub struct State {
    pub strokes: Arena<Stroke>,
    pub undo_actions: Vec<Action>,
    pub redo_actions: Vec<Action>,
    pub stroke_graveyard: Arena<Stroke>,
    pub text: Arena<Text>,
    pub text_graveyard: Arena<Text>,
    pub background_color: BackgroundColor,
    pub foreground_color: ForegroundColor,
    pub text_size: TextSize,
    pub text_color: TextColor,
}

impl State {
    pub open spec fn live_strokes(self) -> Map<DefaultKey, Stroke> {
        stroke_slots(self.strokes)
    }

    pub open spec fn dead_strokes(self) -> Map<DefaultKey, Stroke> {
        stroke_slots(self.stroke_graveyard)
    }

    pub open spec fn live_texts(self) -> Map<DefaultKey, Text> {
        text_slots(self.text)
    }

    pub open spec fn dead_texts(self) -> Map<DefaultKey, Text> {
        text_slots(self.text_graveyard)
    }

    /// How many strokes the board holds, live or buried.
    pub open spec fn stroke_total(self) -> nat {
        self.live_strokes().dom().len() + self.dead_strokes().dom().len()
    }

    /// How many text labels the board holds, live or buried.
    pub open spec fn text_total(self) -> nat {
        self.live_texts().dom().len() + self.dead_texts().dom().len()
    }

    /// The arenas are finite, and all the strokes (and all the labels) would
    /// fit in one slot map: moving an entity between its two arenas never
    /// overflows the destination.
    pub open spec fn wf(self) -> bool {
        &&& self.live_strokes().dom().finite()
        &&& self.dead_strokes().dom().finite()
        &&& self.live_texts().dom().finite()
        &&& self.dead_texts().dom().finite()
        &&& self.stroke_total() <= SLOT_LIMIT
        &&& self.text_total() <= SLOT_LIMIT
    }

    pub open spec fn same_strokes(self, other: State) -> bool {
        &&& self.live_strokes() == other.live_strokes()
        &&& self.dead_strokes() == other.dead_strokes()
    }

    pub open spec fn same_texts(self, other: State) -> bool {
        &&& self.live_texts() == other.live_texts()
        &&& self.dead_texts() == other.dead_texts()
    }

    pub open spec fn same_logs(self, other: State) -> bool {
        &&& self.undo_actions@ == other.undo_actions@
        &&& self.redo_actions@ == other.redo_actions@
    }

    pub open spec fn same_settings(self, other: State) -> bool {
        &&& self.background_color == other.background_color
        &&& self.foreground_color == other.foreground_color
        &&& self.text_size == other.text_size
        &&& self.text_color == other.text_color
    }

    /// Only the strokes changed between `self` and `post`.
    pub open spec fn only_strokes_changed(self, post: State) -> bool {
        &&& self.same_texts(post)
        &&& self.same_logs(post)
        &&& self.same_settings(post)
    }

    /// Only the text labels changed between `self` and `post`.
    pub open spec fn only_texts_changed(self, post: State) -> bool {
        &&& self.same_strokes(post)
        &&& self.same_logs(post)
        &&& self.same_settings(post)
    }

    /// `post` is `self` with `stroke` added to the live strokes under `k`.
    pub open spec fn stroke_added(self, post: State, stroke: Stroke, k: DefaultKey) -> bool {
        &&& !self.live_strokes().contains_key(k)
        &&& post.live_strokes() == self.live_strokes().insert(k, stroke)
        &&& post.dead_strokes() == self.dead_strokes()
    }

    /// `post` is `self` with `text` added to the live labels under `k`.
    pub open spec fn text_added(self, post: State, text: Text, k: DefaultKey) -> bool {
        &&& !self.live_texts().contains_key(k)
        &&& post.live_texts() == self.live_texts().insert(k, text)
        &&& post.dead_texts() == self.dead_texts()
    }

    /// `post` is `self` after one addition of `stroke` that was logged for
    /// undo.
    pub open spec fn stroke_added_with_undo(self, post: State, stroke: Stroke) -> bool {
        let a = post.undo_actions@.last();
        &&& a is AddStroke
        &&& post.undo_actions@ == self.undo_actions@.push(a)
        &&& post.redo_actions@ == self.redo_actions@
        &&& self.stroke_added(post, stroke, a.key())
        &&& self.same_texts(post)
        &&& self.same_settings(post)
    }

    /// `post` is `self` after one addition of `text` that was logged for
    /// undo.
    pub open spec fn text_added_with_undo(self, post: State, text: Text) -> bool {
        let a = post.undo_actions@.last();
        &&& a is AddText
        &&& post.undo_actions@ == self.undo_actions@.push(a)
        &&& post.redo_actions@ == self.redo_actions@
        &&& self.text_added(post, text, a.key())
        &&& self.same_strokes(post)
        &&& self.same_settings(post)
    }

    /// The undo log when `undoing`, the redo log otherwise.
    pub open spec fn log(self, undoing: bool) -> Seq<Action> {
        if undoing {
            self.undo_actions@
        } else {
            self.redo_actions@
        }
    }

    /// The entity that `a` names is where reversing `a` would take it from.
    pub open spec fn can_reverse(self, a: Action, undoing: bool) -> bool {
        let k = a.key();
        if a.is_stroke() {
            if buries(a, undoing) {
                self.live_strokes().contains_key(k)
            } else {
                self.dead_strokes().contains_key(k)
            }
        } else {
            if buries(a, undoing) {
                self.live_texts().contains_key(k)
            } else {
                self.dead_texts().contains_key(k)
            }
        }
    }

    /// `post` is `self` with the entity that `a` names moved the way
    /// reversing `a` moves it, to the new key `nk`.
    pub open spec fn reversed(self, post: State, a: Action, undoing: bool, nk: DefaultKey) -> bool {
        let k = a.key();
        if a.is_stroke() {
            &&& self.same_texts(post)
            &&& if buries(a, undoing) {
                moved(
                    self.live_strokes(),
                    self.dead_strokes(),
                    post.live_strokes(),
                    post.dead_strokes(),
                    k,
                    nk,
                )
            } else {
                moved(
                    self.dead_strokes(),
                    self.live_strokes(),
                    post.dead_strokes(),
                    post.live_strokes(),
                    k,
                    nk,
                )
            }
        } else {
            &&& self.same_strokes(post)
            &&& if buries(a, undoing) {
                moved(self.live_texts(), self.dead_texts(), post.live_texts(), post.dead_texts(), k, nk)
            } else {
                moved(self.dead_texts(), self.live_texts(), post.dead_texts(), post.live_texts(), k, nk)
            }
        }
    }

    /// The index of the topmost entry of `log` that can be reversed, or -1
    /// if there is none.
    pub open spec fn last_reversible(self, log: Seq<Action>, undoing: bool) -> int
        decreases log.len(),
    {
        if log.len() == 0 {
            -1
        } else if self.can_reverse(log.last(), undoing) {
            log.len() - 1
        } else {
            self.last_reversible(log.drop_last(), undoing)
        }
    }

    /// `post` is `self` after one `undo` (when `undoing`) or one `redo`: the
    /// entries above the topmost reversible one are dropped, that one is
    /// reversed and moves, under the entity's new key, to the other log. With
    /// no reversible entry the log is emptied and nothing else changes.
    pub open spec fn stepped(self, post: State, undoing: bool) -> bool {
        let from = self.log(undoing);
        let to = self.log(!undoing);
        let i = self.last_reversible(from, undoing);
        let pushed = post.log(!undoing);
        &&& self.same_settings(post)
        &&& if i < 0 {
            &&& post.log(undoing) == Seq::<Action>::empty()
            &&& pushed == to
            &&& self.same_strokes(post)
            &&& self.same_texts(post)
        } else {
            &&& post.log(undoing) == from.take(i)
            &&& pushed == to.push(from[i].rekeyed(pushed.last().key()))
            &&& self.reversed(post, from[i], undoing, pushed.last().key())
        }
    }

    /// `post` is `self` after `delete_strokes(keys)`: every live stroke whose
    /// key is in `keys` is buried under a fresh key, and one removal per
    /// buried stroke is logged for undo, in the order of `keys`.
    pub open spec fn strokes_erased(self, post: State, keys: Seq<DefaultKey>) -> bool {
        let done = erasable(keys, self.live_strokes().dom());
        let base = self.undo_actions@.len() as int;
        let log = post.undo_actions@;
        &&& log.len() == base + done.len()
        &&& log.take(base) == self.undo_actions@
        &&& post.redo_actions@ == self.redo_actions@
        &&& post.live_strokes() == self.live_strokes().remove_keys(keys.to_set())
        &&& forall|j: int| 0 <= j < done.len() ==> (#[trigger] log[base + j]) is RemoveStroke
        &&& forall|j: int|
            0 <= j < done.len() ==> !self.dead_strokes().contains_key(#[trigger] log[base + j].key())
        &&& forall|j: int|
            0 <= j < done.len() ==> post.dead_strokes().contains_key(#[trigger] log[base + j].key())
                && post.dead_strokes()[log[base + j].key()] == self.live_strokes()[done[j]]
        &&& forall|j1: int, j2: int|
            0 <= j1 < j2 < done.len() ==> #[trigger] log[base + j1].key() != #[trigger] log[base
                + j2].key()
        &&& forall|g: DefaultKey|
            #[trigger] post.dead_strokes().contains_key(g) ==> self.dead_strokes().contains_key(g)
                || exists|j: int| 0 <= j < done.len() && (#[trigger] log[base + j]).key() == g
        &&& forall|g: DefaultKey|
            #[trigger] self.dead_strokes().contains_key(g) ==> post.dead_strokes().contains_key(g)
                && post.dead_strokes()[g] == self.dead_strokes()[g]
        &&& self.same_texts(post)
        &&& self.same_settings(post)
    }
}

impl Default for State {
    /// An empty board with the default colours and text size.
    fn default() -> (s: Self)
        ensures
            s.wf(),
            s.live_strokes().dom().is_empty(),
            s.dead_strokes().dom().is_empty(),
            s.live_texts().dom().is_empty(),
            s.dead_texts().dom().is_empty(),
            s.undo_actions@.len() == 0,
            s.redo_actions@.len() == 0,
            s.background_color.0 == (Color { r: 255, g: 255, b: 255, a: 255 }),
            s.foreground_color.0 == (Color { r: 0, g: 0, b: 0, a: 255 }),
            s.text_size.0 == 50,
            s.text_color.0 == (Color { r: 0, g: 0, b: 0, a: 255 }),
    {
        State {
            strokes: new_stroke_arena(),
            undo_actions: Vec::new(),
            redo_actions: Vec::new(),
            stroke_graveyard: new_stroke_arena(),
            text: new_text_arena(),
            text_graveyard: new_text_arena(),
            background_color: BackgroundColor::default(),
            foreground_color: ForegroundColor::default(),
            text_size: TextSize::default(),
            text_color: TextColor::default(),
        }
    }
}

impl State {
    /// Adds a stroke to the live strokes and logs the addition for undo.
    pub fn add_stroke_with_undo(&mut self, stroke: Stroke)
        requires
            old(self).wf(),
            old(self).stroke_total() < SLOT_LIMIT,
        ensures
            final(self).wf(),
            old(self).stroke_added_with_undo(*final(self), stroke),
    {
        let key = self.add_stroke(stroke);
        self.undo_actions.push(Action::AddStroke(key));
    }

    /// Adds a stroke to the live strokes, under a key that was not in use.
    pub fn add_stroke(&mut self, stroke: Stroke) -> (key: DefaultKey)
        requires
            old(self).wf(),
            old(self).stroke_total() < SLOT_LIMIT,
        ensures
            final(self).wf(),
            old(self).stroke_added(*final(self), stroke, key),
            old(self).only_strokes_changed(*final(self)),
    {
        insert_stroke(&mut self.strokes, stroke)
    }

    /// Moves the live stroke under `key` to the graveyard and returns its key
    /// there; `None`, with nothing changed, if no live stroke has that key.
    pub fn remove_stroke(&mut self, key: DefaultKey) -> (r: Option<DefaultKey>)
        requires
            old(self).wf(),
        ensures
            final(self).wf(),
            r is Some <==> old(self).live_strokes().contains_key(key),
            r matches Some(nk) ==> moved(
                old(self).live_strokes(),
                old(self).dead_strokes(),
                final(self).live_strokes(),
                final(self).dead_strokes(),
                key,
                nk,
            ),
            r is None ==> old(self).same_strokes(*final(self)),
            old(self).only_strokes_changed(*final(self)),
    {
        match remove_stroke_slot(&mut self.strokes, key) {
            Some(stroke) => Some(self.add_stroke_to_graveyard(stroke)),
            None => None,
        }
    }

    /// Puts a stroke in the graveyard, under a key that was not in use there.
    pub fn add_stroke_to_graveyard(&mut self, stroke: Stroke) -> (key: DefaultKey)
        requires
            old(self).wf(),
            old(self).stroke_total() < SLOT_LIMIT,
        ensures
            final(self).wf(),
            !old(self).dead_strokes().contains_key(key),
            final(self).dead_strokes() == old(self).dead_strokes().insert(key, stroke),
            final(self).live_strokes() == old(self).live_strokes(),
            old(self).only_strokes_changed(*final(self)),
    {
        insert_stroke(&mut self.stroke_graveyard, stroke)
    }

    /// Moves the buried stroke under `key` back to the live strokes and
    /// returns its live key; `None`, with nothing changed, if the graveyard
    /// has no stroke under that key.
    pub fn restore_stroke(&mut self, key: DefaultKey) -> (r: Option<DefaultKey>)
        requires
            old(self).wf(),
        ensures
            final(self).wf(),
            r is Some <==> old(self).dead_strokes().contains_key(key),
            r matches Some(nk) ==> moved(
                old(self).dead_strokes(),
                old(self).live_strokes(),
                final(self).dead_strokes(),
                final(self).live_strokes(),
                key,
                nk,
            ),
            r is None ==> old(self).same_strokes(*final(self)),
            old(self).only_strokes_changed(*final(self)),
    {
        match remove_stroke_slot(&mut self.stroke_graveyard, key) {
            Some(stroke) => Some(self.add_stroke(stroke)),
            None => None,
        }
    }

    /// Adds a text label to the live labels and logs the addition for undo.
    pub fn add_text_with_undo(&mut self, text: Text)
        requires
            old(self).wf(),
            old(self).text_total() < SLOT_LIMIT,
        ensures
            final(self).wf(),
            old(self).text_added_with_undo(*final(self), text),
    {
        let key = self.add_text(text);
        self.undo_actions.push(Action::AddText(key));
    }

    /// Adds a text label to the live labels, under a key that was not in use.
    pub fn add_text(&mut self, text: Text) -> (key: DefaultKey)
        requires
            old(self).wf(),
            old(self).text_total() < SLOT_LIMIT,
        ensures
            final(self).wf(),
            old(self).text_added(*final(self), text, key),
            old(self).only_texts_changed(*final(self)),
    {
        insert_text(&mut self.text, text)
    }

    /// Moves the buried label under `key` back to the live labels and
    /// returns its live key; `None`, with nothing changed, if the graveyard
    /// has no label under that key.
    pub fn restore_text(&mut self, key: DefaultKey) -> (r: Option<DefaultKey>)
        requires
            old(self).wf(),
        ensures
            final(self).wf(),
            r is Some <==> old(self).dead_texts().contains_key(key),
            r matches Some(nk) ==> moved(
                old(self).dead_texts(),
                old(self).live_texts(),
                final(self).dead_texts(),
                final(self).live_texts(),
                key,
                nk,
            ),
            r is None ==> old(self).same_texts(*final(self)),
            old(self).only_texts_changed(*final(self)),
    {
        match remove_text_slot(&mut self.text_graveyard, key) {
            Some(text) => Some(self.add_text(text)),
            None => None,
        }
    }

    /// Moves the live label under `key` to the graveyard and returns its key
    /// there; `None`, with nothing changed, if no live label has that key.
    pub fn remove_text(&mut self, key: DefaultKey) -> (r: Option<DefaultKey>)
        requires
            old(self).wf(),
        ensures
            final(self).wf(),
            r is Some <==> old(self).live_texts().contains_key(key),
            r matches Some(nk) ==> moved(
                old(self).live_texts(),
                old(self).dead_texts(),
                final(self).live_texts(),
                final(self).dead_texts(),
                key,
                nk,
            ),
            r is None ==> old(self).same_texts(*final(self)),
            old(self).only_texts_changed(*final(self)),
    {
        match remove_text_slot(&mut self.text, key) {
            Some(text) => Some(self.add_text_to_graveyard(text)),
            None => None,
        }
    }

    /// Puts a text label in the graveyard, under a key that was not in use
    /// there.
    pub fn add_text_to_graveyard(&mut self, text: Text) -> (key: DefaultKey)
        requires
            old(self).wf(),
            old(self).text_total() < SLOT_LIMIT,
        ensures
            final(self).wf(),
            !old(self).dead_texts().contains_key(key),
            final(self).dead_texts() == old(self).dead_texts().insert(key, text),
            final(self).live_texts() == old(self).live_texts(),
            old(self).only_texts_changed(*final(self)),
    {
        insert_text(&mut self.text_graveyard, text)
    }
    /// Reverses the most recent logged operation that can still be reversed,
    /// dropping the stale entries above it, and logs it for redo.
    pub fn undo(&mut self)
        requires
            old(self).wf(),
        ensures
            final(self).wf(),
            old(self).stepped(*final(self), true),
    {
        loop
            invariant_except_break
                old(self).same_strokes(*self),
                old(self).same_texts(*self),
                self.redo_actions@ == old(self).redo_actions@,
                self.undo_actions@.len() <= old(self).undo_actions@.len(),
                self.undo_actions@ == old(self).undo_actions@.take(self.undo_actions@.len() as int),
                old(self).last_reversible(old(self).undo_actions@, true) == old(
                    self,
                ).last_reversible(self.undo_actions@, true),
            invariant
                self.wf(),
                old(self).same_settings(*self),
            ensures
                self.wf(),
                old(self).stepped(*self, true),
            decreases self.undo_actions@.len(),
        {
            match self.undo_actions.pop() {
                None => {
                    assert(self.undo_actions@ =~= Seq::<Action>::empty());
                    break ;
                },
                Some(action) => {
                    assert(self.undo_actions@ == old(self).undo_actions@.take(
                        self.undo_actions@.len() as int,
                    ));
                    let moved_to = match action {
                        Action::AddStroke(key) => match self.remove_stroke(key) {
                            Some(nk) => Some(Action::AddStroke(nk)),
                            None => None,
                        },
                        Action::RemoveStroke(key) => match self.restore_stroke(key) {
                            Some(nk) => Some(Action::RemoveStroke(nk)),
                            None => None,
                        },
                        Action::AddText(key) => match self.remove_text(key) {
                            Some(nk) => Some(Action::AddText(nk)),
                            None => None,
                        },
                        Action::RemoveText(key) => match self.restore_text(key) {
                            Some(nk) => Some(Action::RemoveText(nk)),
                            None => None,
                        },
                    };
                    match moved_to {
                        Some(redo) => {
                            self.redo_actions.push(redo);
                            assert(self.redo_actions@.last() == redo);
                            break ;
                        },
                        None => {},
                    }
                },
            }
        }
    }

    /// Re-applies the most recently undone operation that can still be
    /// re-applied, dropping the stale entries above it, and logs it for undo.
    pub fn redo(&mut self)
        requires
            old(self).wf(),
        ensures
            final(self).wf(),
            old(self).stepped(*final(self), false),
    {
        loop
            invariant_except_break
                old(self).same_strokes(*self),
                old(self).same_texts(*self),
                self.undo_actions@ == old(self).undo_actions@,
                self.redo_actions@.len() <= old(self).redo_actions@.len(),
                self.redo_actions@ == old(self).redo_actions@.take(self.redo_actions@.len() as int),
                old(self).last_reversible(old(self).redo_actions@, false) == old(
                    self,
                ).last_reversible(self.redo_actions@, false),
            invariant
                self.wf(),
                old(self).same_settings(*self),
            ensures
                self.wf(),
                old(self).stepped(*self, false),
            decreases self.redo_actions@.len(),
        {
            match self.redo_actions.pop() {
                None => {
                    assert(self.redo_actions@ =~= Seq::<Action>::empty());
                    break ;
                },
                Some(action) => {
                    assert(self.redo_actions@ == old(self).redo_actions@.take(
                        self.redo_actions@.len() as int,
                    ));
                    let moved_to = match action {
                        Action::AddStroke(key) => match self.restore_stroke(key) {
                            Some(nk) => Some(Action::AddStroke(nk)),
                            None => None,
                        },
                        Action::RemoveStroke(key) => match self.remove_stroke(key) {
                            Some(nk) => Some(Action::RemoveStroke(nk)),
                            None => None,
                        },
                        Action::AddText(key) => match self.restore_text(key) {
                            Some(nk) => Some(Action::AddText(nk)),
                            None => None,
                        },
                        Action::RemoveText(key) => match self.remove_text(key) {
                            Some(nk) => Some(Action::RemoveText(nk)),
                            None => None,
                        },
                    };
                    match moved_to {
                        Some(undo) => {
                            self.undo_actions.push(undo);
                            assert(self.undo_actions@.last() == undo);
                            break ;
                        },
                        None => {},
                    }
                },
            }
        }
    }
    /// The keys of the live strokes that a disc of diameter `brush_size`
    /// around `mouse_point` touches, each once, in the arena's order.
    pub fn strokes_within_point(&self, mouse_point: Point, brush_size: u32) -> (r: Vec<DefaultKey>)
        ensures
            r@.no_duplicates(),
            forall|k: DefaultKey|
                r@.contains(k) <==> self.live_strokes().contains_key(k) && stroke_touches(
                    self.live_strokes()[k],
                    mouse_point,
                    brush_size as nat,
                ),
    {
        let keys = stroke_keys(&self.strokes);
        let mut hits: Vec<DefaultKey> = Vec::new();
        let mut i: usize = 0;
        while i < keys.len()
            invariant
                i <= keys@.len(),
                keys@.no_duplicates(),
                forall|k: DefaultKey| keys@.contains(k) <==> self.live_strokes().contains_key(k),
                hits@.no_duplicates(),
                forall|k: DefaultKey|
                    hits@.contains(k) <==> keys@.take(i as int).contains(k) && stroke_touches(
                        self.live_strokes()[k],
                        mouse_point,
                        brush_size as nat,
                    ),
            decreases keys@.len() - i,
        {
            let k = keys[i];
            assert(keys@.take(i + 1) =~= keys@.take(i as int).push(k));
            assert(keys@.contains(k));
            match get_stroke(&self.strokes, k) {
                Some(stroke) => {
                    if touches_stroke(stroke, mouse_point, brush_size) {
                        let ghost before = hits@;
                        assert(!before.contains(k));
                        hits.push(k);
                        proof {
                            assert forall|a: int, b: int|
                                0 <= a < hits@.len() && 0 <= b < hits@.len() && a != b implies
                                #[trigger] hits@[a] != #[trigger] hits@[b] by {
                                if a < before.len() && b < before.len() {
                                    assert(before[a] != before[b]);
                                } else if a < before.len() {
                                    assert(before.contains(before[a]));
                                } else if b < before.len() {
                                    assert(before.contains(before[b]));
                                }
                            }
                        }
                    }
                },
                None => {},
            }
            i += 1;
        }
        assert(keys@.take(keys@.len() as int) =~= keys@);
        hits
    }
    /// Buries each live stroke whose key is in `stroke_keys`, in order, and
    /// logs one removal per buried stroke for undo. Keys of no live stroke,
    /// and repeats, are passed over.
    pub fn delete_strokes(&mut self, stroke_keys: Vec<DefaultKey>)
        requires
            old(self).wf(),
        ensures
            final(self).wf(),
            old(self).strokes_erased(*final(self), stroke_keys@),
    {
        let ghost keys = stroke_keys@;
        let ghost live0 = old(self).live_strokes();
        let ghost dead0 = old(self).dead_strokes();
        let ghost base = old(self).undo_actions@.len() as int;
        let ghost mut done: Seq<DefaultKey> = Seq::empty();
        let mut i: usize = 0;
        assert(keys.skip(0) =~= keys);
        assert(done + erasable(keys, live0.dom()) =~= erasable(keys, live0.dom()));
        while i < stroke_keys.len()
            invariant
                i <= keys.len(),
                keys == stroke_keys@,
                live0 == old(self).live_strokes(),
                dead0 == old(self).dead_strokes(),
                base == old(self).undo_actions@.len(),
                self.wf(),
                old(self).same_texts(*self),
                old(self).same_settings(*self),
                self.redo_actions@ == old(self).redo_actions@,
                erasable(keys, live0.dom()) == done + erasable(
                    keys.skip(i as int),
                    self.live_strokes().dom(),
                ),
                forall|k: DefaultKey|
                    #[trigger] self.live_strokes().contains_key(k) <==> live0.contains_key(k)
                        && !keys.take(i as int).contains(k),
                forall|k: DefaultKey|
                    #[trigger] self.live_strokes().contains_key(k) ==> self.live_strokes()[k]
                        == live0[k],
                self.undo_actions@.len() == base + done.len(),
                self.undo_actions@.take(base) == old(self).undo_actions@,
                forall|j: int|
                    0 <= j < done.len() ==> (#[trigger] self.undo_actions@[base + j]) is RemoveStroke,
                forall|j: int|
                    0 <= j < done.len() ==> !dead0.contains_key(
                        #[trigger] self.undo_actions@[base + j].key(),
                    ),
                forall|j: int|
                    0 <= j < done.len() ==> self.dead_strokes().contains_key(
                        #[trigger] self.undo_actions@[base + j].key(),
                    ) && self.dead_strokes()[self.undo_actions@[base + j].key()] == live0[done[j]],
                forall|j1: int, j2: int|
                    0 <= j1 < j2 < done.len() ==> #[trigger] self.undo_actions@[base + j1].key()
                        != #[trigger] self.undo_actions@[base + j2].key(),
                forall|g: DefaultKey|
                    #[trigger] self.dead_strokes().contains_key(g) ==> dead0.contains_key(g)
                        || exists|j: int|
                        0 <= j < done.len() && (#[trigger] self.undo_actions@[base + j]).key() == g,
                forall|g: DefaultKey|
                    #[trigger] dead0.contains_key(g) ==> self.dead_strokes().contains_key(g)
                        && self.dead_strokes()[g] == dead0[g],
            decreases keys.len() - i,
        {
            let key = stroke_keys[i];
            let ghost pre = *self;
            assert(keys.skip(i as int).drop_first() =~= keys.skip(i + 1));
            assert(keys.skip(i as int)[0] == key);
            assert(keys.take(i + 1) =~= keys.take(i as int).push(key));
            match self.remove_stroke(key) {
                Some(new_key) => {
                    self.undo_actions.push(Action::RemoveStroke(new_key));
                    proof {
                        let n = done.len();
                        assert(self.live_strokes().dom() =~= pre.live_strokes().dom().remove(key));
                        assert(done + (seq![key] + erasable(
                            keys.skip(i + 1),
                            self.live_strokes().dom(),
                        )) =~= done.push(key) + erasable(keys.skip(i + 1), self.live_strokes().dom()));
                        assert(self.undo_actions@[base + n] == Action::RemoveStroke(new_key));
                        assert forall|j: int| 0 <= j < n implies #[trigger] self.undo_actions@[base
                            + j] == pre.undo_actions@[base + j] by {}
                        done = done.push(key);
                        assert(self.undo_actions@.take(base) =~= pre.undo_actions@.take(base));
                        assert forall|g: DefaultKey| #[trigger]
                            self.dead_strokes().contains_key(g) implies dead0.contains_key(g)
                            || exists|j: int|
                            0 <= j < done.len() && (#[trigger] self.undo_actions@[base + j]).key()
                                == g by {
                            if g == new_key {
                                assert(self.undo_actions@[base + n].key() == g);
                            } else {
                                assert(pre.dead_strokes().contains_key(g));
                                if !dead0.contains_key(g) {
                                    let j = choose|j: int|
                                        0 <= j < n && (#[trigger] pre.undo_actions@[base + j]).key()
                                            == g;
                                    assert(self.undo_actions@[base + j].key() == g);
                                }
                            }
                        }
                    }
                },
                None => {
                    assert(self.undo_actions@ =~= pre.undo_actions@);
                },
            }
            i += 1;
        }
        proof {
            assert(keys.skip(keys.len() as int) =~= Seq::<DefaultKey>::empty());
            assert(keys.take(keys.len() as int) =~= keys);
            assert(done + Seq::<DefaultKey>::empty() =~= done);
            assert(self.live_strokes() =~= live0.remove_keys(keys.to_set()));
        }
    }
}

} // verus!
