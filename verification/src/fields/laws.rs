//! What recording and taking out do to the fields: the keys stay in order,
//! the value recorded last is the one held, and other keys are not touched.

use crate::fields::{is_place_of, keys_increase, lookup, upsert, without, Entry, FieldValueView};
use crate::text::{lemma_text_lt_total, lemma_text_lt_transitive, text_lt};
use vstd::prelude::*;

verus! {

/// Recording keeps the keys increasing.
pub proof fn lemma_upsert_keeps_order(entries: Seq<Entry>, key: Seq<char>, value: FieldValueView)
    requires
        keys_increase(entries),
    ensures
        keys_increase(upsert(entries, key, value)),
{
    let at = place(entries, key);
    lemma_place(entries, key);
    lemma_upsert_at(entries, key, value, at);
    let after = upsert(entries, key, value);
    if at < entries.len() && entries[at].0 == key {
        assert forall|i: int, j: int| 0 <= i < j < after.len() implies text_lt(
            after[i].0,
            after[j].0,
        ) by {
            assert(after[i].0 == entries[i].0);
            assert(after[j].0 == entries[j].0);
        }
    } else {
        assert forall|i: int, j: int| 0 <= i < j < after.len() implies text_lt(
            after[i].0,
            after[j].0,
        ) by {
            if j == at {
                assert(after[i] == entries[i]);
            } else if i == at {
                assert(after[j] == entries[j - 1]);
                if j - 1 == at {
                    lemma_text_lt_total(entries[at].0, key);
                } else {
                    lemma_key_only_at_place(entries, key, at, j - 1);
                }
            } else {
                let i0 = if i < at { i } else { i - 1 };
                let j0 = if j < at { j } else { j - 1 };
                assert(after[i] == entries[i0]);
                assert(after[j] == entries[j0]);
            }
        }
    }
}

/// After `value` is recorded under `key`, it is what is held under `key`:
/// the later value wins. What is held under any other key is as before.
pub proof fn lemma_lookup_upsert(
    entries: Seq<Entry>,
    key: Seq<char>,
    value: FieldValueView,
    other: Seq<char>,
)
    ensures
        lookup(upsert(entries, key, value), other) == if other == key {
            Some(value)
        } else {
            lookup(entries, other)
        },
    decreases entries.len(),
{
    let after = upsert(entries, key, value);
    if entries.len() == 0 || text_lt(key, entries[0].0) {
        assert(after.drop_first() =~= entries);
    } else if entries[0].0 == key {
        assert(after.drop_first() =~= entries.drop_first());
    } else {
        lemma_lookup_upsert(entries.drop_first(), key, value, other);
        assert(after.drop_first() =~= upsert(entries.drop_first(), key, value));
    }
}

/// Taking a key out keeps the keys increasing.
pub proof fn lemma_without_keeps_order(entries: Seq<Entry>, key: Seq<char>)
    requires
        keys_increase(entries),
    ensures
        keys_increase(without(entries, key)),
{
    let at = place(entries, key);
    lemma_place(entries, key);
    lemma_without_at(entries, key, at);
    if at < entries.len() {
        lemma_remove_keeps_order(entries, at);
    }
}

/// After `key` is taken out, nothing is held under it. What is held under
/// any other key is as before.
pub proof fn lemma_lookup_without(entries: Seq<Entry>, key: Seq<char>, other: Seq<char>)
    ensures
        lookup(without(entries, key), other) == if other == key {
            None
        } else {
            lookup(entries, other)
        },
    decreases entries.len(),
{
    if entries.len() > 0 {
        lemma_lookup_without(entries.drop_first(), key, other);
        if entries[0].0 != key {
            assert(without(entries, key).drop_first() =~= without(entries.drop_first(), key));
        }
    }
}

/// The number of keys at the front of `entries` that are less than `key`.
spec fn place(entries: Seq<Entry>, key: Seq<char>) -> int
    decreases entries.len(),
{
    if entries.len() == 0 || !text_lt(entries[0].0, key) {
        0
    } else {
        1 + place(entries.drop_first(), key)
    }
}

/// The number of smaller keys at the front is a place of `key`.
proof fn lemma_place(entries: Seq<Entry>, key: Seq<char>)
    ensures
        is_place_of(entries, key, place(entries, key)),
    decreases entries.len(),
{
    if entries.len() > 0 && text_lt(entries[0].0, key) {
        let rest = entries.drop_first();
        lemma_place(rest, key);
        let at = place(entries, key);
        assert forall|j: int| 0 <= j < at implies text_lt(#[trigger] entries[j].0, key) by {
            if j > 0 {
                assert(entries[j] == rest[j - 1]);
            }
        }
        assert(at < entries.len() ==> entries[at] == rest[at - 1]);
    }
}

/// Where the keys increase, `key` occurs at its place or nowhere.
proof fn lemma_key_only_at_place(entries: Seq<Entry>, key: Seq<char>, at: int, j: int)
    requires
        keys_increase(entries),
        is_place_of(entries, key, at),
        0 <= j < entries.len(),
        j != at,
    ensures
        entries[j].0 != key,
        j > at ==> text_lt(key, entries[j].0),
{
    lemma_text_lt_total(entries[j].0, key);
    if j > at {
        lemma_text_lt_total(entries[at].0, key);
        assert(text_lt(entries[at].0, entries[j].0));
        if entries[at].0 != key {
            lemma_text_lt_transitive(key, entries[at].0, entries[j].0);
        }
    }
}

/// Recording under `key` replaces the entry at the place of `key` where it
/// has that key, and else inserts one there.
pub(crate) proof fn lemma_upsert_at(entries: Seq<Entry>, key: Seq<char>, value: FieldValueView, at: int)
    requires
        is_place_of(entries, key, at),
    ensures
        upsert(entries, key, value) == if at < entries.len() && entries[at].0 == key {
            entries.update(at, (key, value))
        } else {
            entries.insert(at, (key, value))
        },
    decreases at,
{
    if at == 0 {
        if entries.len() > 0 {
            lemma_text_lt_total(entries[0].0, key);
        }
        assert(entries.len() > 0 && entries[0].0 == key ==> entries.update(0, (key, value))
            =~= seq![(key, value)] + entries.drop_first());
        assert(entries.insert(0, (key, value)) =~= seq![(key, value)] + entries);
    } else {
        let rest = entries.drop_first();
        assert(text_lt(entries[0].0, key));
        lemma_text_lt_total(entries[0].0, key);
        assert forall|j: int| 0 <= j < at - 1 implies text_lt(#[trigger] rest[j].0, key) by {
            assert(rest[j] == entries[j + 1]);
        }
        lemma_upsert_at(rest, key, value, at - 1);
        if at < entries.len() && entries[at].0 == key {
            assert(entries.update(at, (key, value)) =~= seq![entries[0]] + rest.update(
                at - 1,
                (key, value),
            ));
        } else {
            assert(entries.insert(at, (key, value)) =~= seq![entries[0]] + rest.insert(
                at - 1,
                (key, value),
            ));
        }
    }
}

/// What is held under `key` stands at the place of `key`, or nowhere.
pub(crate) proof fn lemma_lookup_at(entries: Seq<Entry>, key: Seq<char>, at: int)
    requires
        keys_increase(entries),
        is_place_of(entries, key, at),
    ensures
        lookup(entries, key) == if at < entries.len() && entries[at].0 == key {
            Some(entries[at].1)
        } else {
            None
        },
    decreases entries.len(),
{
    if entries.len() > 0 && at != 0 {
        lemma_key_only_at_place(entries, key, at, 0);
        let rest = entries.drop_first();
        if at > 0 {
            assert forall|j: int| 0 <= j < at - 1 implies text_lt(#[trigger] rest[j].0, key) by {
                assert(rest[j] == entries[j + 1]);
            }
            lemma_lookup_at(rest, key, at - 1);
        }
    } else if entries.len() > 0 && entries[0].0 != key {
        lemma_lookup_absent(entries, key);
    }
}

/// A key that no entry has is not held.
proof fn lemma_lookup_absent(entries: Seq<Entry>, key: Seq<char>)
    requires
        forall|j: int| 0 <= j < entries.len() ==> (#[trigger] entries[j]).0 != key,
    ensures
        lookup(entries, key) is None,
        without(entries, key) == entries,
    decreases entries.len(),
{
    if entries.len() > 0 {
        let rest = entries.drop_first();
        assert forall|j: int| 0 <= j < rest.len() implies (#[trigger] rest[j]).0 != key by {
            assert(rest[j] == entries[j + 1]);
        }
        lemma_lookup_absent(rest, key);
        assert(entries =~= seq![entries[0]] + rest);
    }
}

/// Removing `key` takes out the entry at the place of `key` where it has
/// that key, and else changes nothing.
pub(crate) proof fn lemma_without_at(entries: Seq<Entry>, key: Seq<char>, at: int)
    requires
        keys_increase(entries),
        is_place_of(entries, key, at),
    ensures
        without(entries, key) == if at < entries.len() && entries[at].0 == key {
            entries.remove(at)
        } else {
            entries
        },
    decreases entries.len(),
{
    if at < entries.len() && entries[at].0 == key {
        let rest = entries.drop_first();
        if at == 0 {
            assert forall|j: int| 0 <= j < rest.len() implies (#[trigger] rest[j]).0 != key by {
                lemma_key_only_at_place(entries, key, at, j + 1);
            }
            lemma_lookup_absent(rest, key);
            assert(entries.remove(0) =~= rest);
        } else {
            lemma_key_only_at_place(entries, key, at, 0);
            assert forall|j: int| 0 <= j < at - 1 implies text_lt(#[trigger] rest[j].0, key) by {
                assert(rest[j] == entries[j + 1]);
            }
            lemma_without_at(rest, key, at - 1);
            assert(entries.remove(at) =~= seq![entries[0]] + rest.remove(at - 1));
        }
    } else {
        assert forall|j: int| 0 <= j < entries.len() implies (#[trigger] entries[j]).0 != key by {
            if j != at {
                lemma_key_only_at_place(entries, key, at, j);
            }
        }
        lemma_lookup_absent(entries, key);
    }
}

/// Taking an entry out keeps the keys increasing.
proof fn lemma_remove_keeps_order(entries: Seq<Entry>, at: int)
    requires
        keys_increase(entries),
        0 <= at < entries.len(),
    ensures
        keys_increase(entries.remove(at)),
{
    let after = entries.remove(at);
    assert forall|i: int, j: int| 0 <= i < j < after.len() implies text_lt(
        after[i].0,
        after[j].0,
    ) by {
        let i0 = if i < at { i } else { i + 1 };
        let j0 = if j < at { j } else { j + 1 };
        assert(after[i] == entries[i0]);
        assert(after[j] == entries[j0]);
    }
}

} // verus!
