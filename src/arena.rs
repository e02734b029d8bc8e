//! The slot maps that own the board's entities, and what this library relies
//! on of them. Each map's contents are viewed as a finite map from key to
//! entity.

use vstd::prelude::*;

use crate::entity::{Stroke, Text};
use slotmap::{DefaultKey, SlotMap};

verus! {

/// One slot map of entities. Verified code reaches its contents only through
/// the functions below; around the library the map itself is at hand.
#[verifier::external_body]
#[verifier::reject_recursive_types(V)]
pub struct Arena<V> {
    pub slots: SlotMap<DefaultKey, V>,
}

#[verifier::external_type_specification]
#[verifier::external_body]
pub struct ExDefaultKey(DefaultKey);

/// The strokes a slot map holds, by key.
pub uninterp spec fn stroke_slots(a: Arena<Stroke>) -> Map<DefaultKey, Stroke>;

/// The text labels a slot map holds, by key.
pub uninterp spec fn text_slots(a: Arena<Text>) -> Map<DefaultKey, Text>;

/// The most entities one slot map can hold before inserting panics.
pub const SLOT_LIMIT: usize = 0xffff_fffe;

/// Relies on SlotMap::new: the map starts empty.
#[verifier::external_body]
pub(crate) fn new_stroke_arena() -> (m: Arena<Stroke>)
    ensures
        stroke_slots(m).dom().finite(),
        stroke_slots(m).dom().is_empty(),
{
    Arena { slots: SlotMap::new() }
}

/// Relies on SlotMap::insert: the value is stored under a key that was not in
/// use, and nothing else changes. It panics only once the map holds
/// `SLOT_LIMIT` entries.
#[verifier::external_body]
pub(crate) fn insert_stroke(m: &mut Arena<Stroke>, s: Stroke) -> (k: DefaultKey)
    requires
        stroke_slots(*old(m)).dom().finite(),
        stroke_slots(*old(m)).dom().len() < SLOT_LIMIT,
    ensures
        !stroke_slots(*old(m)).contains_key(k),
        stroke_slots(*final(m)) == stroke_slots(*old(m)).insert(k, s),
{
    m.slots.insert(s)
}

/// Relies on SlotMap::remove: a present key gives back its value and leaves
/// the map; an absent one changes nothing.
#[verifier::external_body]
pub(crate) fn remove_stroke_slot(m: &mut Arena<Stroke>, k: DefaultKey) -> (r: Option<
    Stroke,
>)
    ensures
        stroke_slots(*old(m)).contains_key(k) ==> r == Some(stroke_slots(*old(m))[k]),
        stroke_slots(*old(m)).contains_key(k) ==> stroke_slots(*final(m)) == stroke_slots(
            *old(m),
        ).remove(k),
        !stroke_slots(*old(m)).contains_key(k) ==> r is None,
        !stroke_slots(*old(m)).contains_key(k) ==> stroke_slots(*final(m)) == stroke_slots(
            *old(m),
        ),
{
    m.slots.remove(k)
}

/// Relies on SlotMap::keys: every key in use, each once.
#[verifier::external_body]
pub(crate) fn stroke_keys(m: &Arena<Stroke>) -> (r: Vec<DefaultKey>)
    ensures
        r@.no_duplicates(),
        forall|k: DefaultKey| r@.contains(k) <==> stroke_slots(*m).contains_key(k),
{
    m.slots.keys().collect()
}

/// Relies on SlotMap::get: the value under a key in use, `None` otherwise.
#[verifier::external_body]
pub(crate) fn get_stroke(m: &Arena<Stroke>, k: DefaultKey) -> (r: Option<&Stroke>)
    ensures
        stroke_slots(*m).contains_key(k) ==> r == Some(&stroke_slots(*m)[k]),
        !stroke_slots(*m).contains_key(k) ==> r is None,
{
    m.slots.get(k)
}

/// Relies on SlotMap::with_key: the map starts empty.
#[verifier::external_body]
pub(crate) fn new_text_arena() -> (m: Arena<Text>)
    ensures
        text_slots(m).dom().finite(),
        text_slots(m).dom().is_empty(),
{
    Arena { slots: SlotMap::with_key() }
}

/// Relies on SlotMap::insert: the value is stored under a key that was not in
/// use, and nothing else changes. It panics only once the map holds
/// `SLOT_LIMIT` entries.
#[verifier::external_body]
pub(crate) fn insert_text(m: &mut Arena<Text>, t: Text) -> (k: DefaultKey)
    requires
        text_slots(*old(m)).dom().finite(),
        text_slots(*old(m)).dom().len() < SLOT_LIMIT,
    ensures
        !text_slots(*old(m)).contains_key(k),
        text_slots(*final(m)) == text_slots(*old(m)).insert(k, t),
{
    m.slots.insert(t)
}

/// Relies on SlotMap::remove: a present key gives back its value and leaves
/// the map; an absent one changes nothing.
#[verifier::external_body]
pub(crate) fn remove_text_slot(m: &mut Arena<Text>, k: DefaultKey) -> (r: Option<
    Text,
>)
    ensures
        text_slots(*old(m)).contains_key(k) ==> r == Some(text_slots(*old(m))[k]),
        text_slots(*old(m)).contains_key(k) ==> text_slots(*final(m)) == text_slots(
            *old(m),
        ).remove(k),
        !text_slots(*old(m)).contains_key(k) ==> r is None,
        !text_slots(*old(m)).contains_key(k) ==> text_slots(*final(m)) == text_slots(*old(m)),
{
    m.slots.remove(k)
}

} // verus!
