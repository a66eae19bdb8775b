//! The fields of an event: keyed values, held in the order of their keys.

use crate::json::{decimal_text, i64_json, json_string_text, string_json, u64_json};
use crate::text::{str_eq, str_lt, text_lt};
use laws::{lemma_lookup_at, lemma_upsert_at, lemma_upsert_keeps_order};
use laws::{lemma_without_at, lemma_without_keeps_order};
use vstd::prelude::*;

pub mod laws;

verus! {

/// The value of a field.
#[derive(Debug, PartialEq, Eq)]
pub enum FieldValue {
    /// A boolean.
    Bool(bool),
    /// A signed integer.
    I64(i64),
    /// An unsigned integer.
    U64(u64),
    /// A text.
    Str(String),
    /// A value of any other shape, as the text of its debug representation.
    Debug(String),
}

/// What a [`FieldValue`] holds.
pub enum FieldValueView {
    Bool(bool),
    I64(i64),
    U64(u64),
    Str(Seq<char>),
    Debug(Seq<char>),
}

impl View for FieldValue {
    type V = FieldValueView;

    open spec fn view(&self) -> FieldValueView {
        match self {
            FieldValue::Bool(value) => FieldValueView::Bool(*value),
            FieldValue::I64(value) => FieldValueView::I64(*value),
            FieldValue::U64(value) => FieldValueView::U64(*value),
            FieldValue::Str(text) => FieldValueView::Str(text@),
            FieldValue::Debug(text) => FieldValueView::Debug(text@),
        }
    }
}

impl FieldValueView {
    /// The text of this value where it is one, whether given as a text or
    /// rendered from another shape.
    pub open spec fn text(self) -> Option<Seq<char>> {
        match self {
            FieldValueView::Str(text) => Some(text),
            FieldValueView::Debug(text) => Some(text),
            _ => None,
        }
    }

    /// The JSON text of this value: `true` or `false`, an integer in
    /// decimal, or a JSON string.
    pub open spec fn json_text(self) -> Seq<char> {
        match self {
            FieldValueView::Bool(value) => if value {
                "true"@
            } else {
                "false"@
            },
            FieldValueView::I64(value) => decimal_text(value as int),
            FieldValueView::U64(value) => decimal_text(value as int),
            FieldValueView::Str(text) => json_string_text(text),
            FieldValueView::Debug(text) => json_string_text(text),
        }
    }
}

impl FieldValue {
    /// The text of this value where it is one.
    pub fn as_str(&self) -> (text: Option<&str>)
        ensures
            match self@.text() {
                Some(held) => text matches Some(t) && t@ == held,
                None => text is None,
            },
    {
        match self {
            FieldValue::Str(text) => Some(text.as_str()),
            FieldValue::Debug(text) => Some(text.as_str()),
            _ => None,
        }
    }

    /// The JSON text of this value.
    pub fn to_json(&self) -> (json: String)
        ensures
            json@ == self@.json_text(),
    {
        match self {
            FieldValue::Bool(value) => if *value {
                "true".to_owned()
            } else {
                "false".to_owned()
            },
            FieldValue::I64(value) => i64_json(*value),
            FieldValue::U64(value) => u64_json(*value),
            FieldValue::Str(text) => string_json(text.as_str()),
            FieldValue::Debug(text) => string_json(text.as_str()),
        }
    }
}

/// A key with what is recorded under it.
pub type Entry = (Seq<char>, FieldValueView);

/// The keys of `entries` strictly increase: the entries stand in the order
/// of their keys, and no key occurs twice.
pub open spec fn keys_increase(entries: Seq<Entry>) -> bool {
    forall|i: int, j: int| 0 <= i < j < entries.len() ==> text_lt(entries[i].0, entries[j].0)
}

/// `entries` after `value` is recorded under `key`: in place of what was
/// recorded under that key before, or else in front of the first greater key.
pub open spec fn upsert(entries: Seq<Entry>, key: Seq<char>, value: FieldValueView) -> Seq<Entry>
    decreases entries.len(),
{
    if entries.len() == 0 || text_lt(key, entries[0].0) {
        seq![(key, value)] + entries
    } else if entries[0].0 == key {
        seq![(key, value)] + entries.drop_first()
    } else {
        seq![entries[0]] + upsert(entries.drop_first(), key, value)
    }
}

/// What `entries` hold under `key`.
pub open spec fn lookup(entries: Seq<Entry>, key: Seq<char>) -> Option<FieldValueView>
    decreases entries.len(),
{
    if entries.len() == 0 {
        None
    } else if entries[0].0 == key {
        Some(entries[0].1)
    } else {
        lookup(entries.drop_first(), key)
    }
}

/// `entries` without those under `key`.
pub open spec fn without(entries: Seq<Entry>, key: Seq<char>) -> Seq<Entry>
    decreases entries.len(),
{
    if entries.len() == 0 {
        entries
    } else if entries[0].0 == key {
        without(entries.drop_first(), key)
    } else {
        seq![entries[0]] + without(entries.drop_first(), key)
    }
}

/// A member of a JSON object: the key as a JSON string, a colon, the value.
pub open spec fn member_text(entry: Entry) -> Seq<char> {
    json_string_text(entry.0) + seq![':'] + entry.1.json_text()
}

/// The members of a JSON object, in the order of `entries`, with a comma
/// between each two.
pub open spec fn members_text(entries: Seq<Entry>) -> Seq<char>
    decreases entries.len(),
{
    if entries.len() == 0 {
        Seq::empty()
    } else if entries.len() == 1 {
        member_text(entries[0])
    } else {
        members_text(entries.drop_last()) + seq![','] + member_text(entries.last())
    }
}

/// The compact text of the JSON object with the members `entries`, in their
/// order.
pub open spec fn object_text(entries: Seq<Entry>) -> Seq<char> {
    seq!['{'] + members_text(entries) + seq!['}']
}

/// Whether `at` is the place of `key` in `entries`: every key before `at` is
/// less than `key`, and the key at `at`, if there is one, is not.
pub(crate) open spec fn is_place_of(entries: Seq<Entry>, key: Seq<char>, at: int) -> bool {
    &&& 0 <= at <= entries.len()
    &&& forall|j: int| 0 <= j < at ==> text_lt(#[trigger] entries[j].0, key)
    &&& at < entries.len() ==> !text_lt(entries[at].0, key)
}

/// A key and the value recorded under it.
struct Field {
    key: String,
    value: FieldValue,
}

impl View for Field {
    type V = Entry;

    closed spec fn view(&self) -> Entry {
        (self.key@, self.value@)
    }
}

/// The fields of one event: each key with the value recorded under it last,
/// in the increasing order of the keys.
pub struct FieldVisitor {
    fields: Vec<Field>,
}

impl View for FieldVisitor {
    type V = Seq<Entry>;

    /// The entries, in the order in which they are held.
    closed spec fn view(&self) -> Seq<Entry> {
        self.fields@.map_values(|field: Field| field@)
    }
}

impl FieldVisitor {
    /// The keys are held in strictly increasing order, at every moment.
    #[verifier::type_invariant]
    spec fn ordered(&self) -> bool {
        keys_increase(self@)
    }

    /// No fields.
    pub fn new() -> (visitor: FieldVisitor)
        ensures
            visitor@ == Seq::<Entry>::empty(),
    {
        let visitor = FieldVisitor { fields: Vec::new() };
        assert(visitor@ =~= Seq::<Entry>::empty());
        visitor
    }

    /// The place of `name` among the keys.
    fn place_of(&self, name: &str) -> (at: usize)
        ensures
            is_place_of(self@, name@, at as int),
    {
        let mut at: usize = 0;
        while at < self.fields.len() && str_lt(self.fields[at].key.as_str(), name)
            invariant
                at <= self@.len(),
                self@.len() == self.fields@.len(),
                forall|j: int| 0 <= j < at ==> text_lt(#[trigger] self@[j].0, name@),
            decreases self@.len() - at,
        {
            at += 1;
        }
        at
    }

    /// Records `value` under `name`. A value recorded under that name before
    /// is replaced: the later one wins.
    pub fn record(&mut self, name: &str, value: FieldValue)
        ensures
            final(self)@ == upsert(old(self)@, name@, value@),
            keys_increase(final(self)@),
    {
        proof {
            use_type_invariant(&*self);
        }
        let at: usize = self.place_of(name);
        let held = at < self.fields.len() && str_eq(self.fields[at].key.as_str(), name);
        let field = Field { key: name.to_owned(), value };
        proof {
            lemma_upsert_at(self@, name@, value@, at as int);
            lemma_upsert_keeps_order(self@, name@, value@);
        }
        // The vector is changed outside `self`, which holds a finished state
        // at every moment.
        let mut fields: Vec<Field> = Vec::new();
        std::mem::swap(&mut self.fields, &mut fields);
        if held {
            fields.set(at, field);
        } else {
            fields.insert(at, field);
        }
        assert(fields@.map_values(|field: Field| field@) =~= upsert(
            old(self)@,
            name@,
            value@,
        ));
        std::mem::swap(&mut self.fields, &mut fields);
    }

    /// Records a boolean under `name`.
    pub fn record_bool(&mut self, name: &str, value: bool)
        ensures
            final(self)@ == upsert(old(self)@, name@, FieldValueView::Bool(value)),
            keys_increase(final(self)@),
    {
        self.record(name, FieldValue::Bool(value));
    }

    /// Records a signed integer under `name`.
    pub fn record_i64(&mut self, name: &str, value: i64)
        ensures
            final(self)@ == upsert(old(self)@, name@, FieldValueView::I64(value)),
            keys_increase(final(self)@),
    {
        self.record(name, FieldValue::I64(value));
    }

    /// Records an unsigned integer under `name`.
    pub fn record_u64(&mut self, name: &str, value: u64)
        ensures
            final(self)@ == upsert(old(self)@, name@, FieldValueView::U64(value)),
            keys_increase(final(self)@),
    {
        self.record(name, FieldValue::U64(value));
    }

    /// Records a text under `name`.
    pub fn record_str(&mut self, name: &str, value: &str)
        ensures
            final(self)@ == upsert(old(self)@, name@, FieldValueView::Str(value@)),
            keys_increase(final(self)@),
    {
        self.record(name, FieldValue::Str(value.to_owned()));
    }

    /// Records under `name` a value of any other shape. `rendered` is the
    /// text of its debug representation.
    pub fn record_debug(&mut self, name: &str, rendered: &str)
        ensures
            final(self)@ == upsert(old(self)@, name@, FieldValueView::Debug(rendered@)),
            keys_increase(final(self)@),
    {
        self.record(name, FieldValue::Debug(rendered.to_owned()));
    }

    /// The value recorded under `name`.
    pub fn get(&self, name: &str) -> (value: Option<&FieldValue>)
        ensures
            match lookup(self@, name@) {
                Some(held) => value matches Some(found) && found@ == held,
                None => value is None,
            },
    {
        proof {
            use_type_invariant(self);
        }
        let at: usize = self.place_of(name);
        proof {
            lemma_lookup_at(self@, name@, at as int);
        }
        if at < self.fields.len() && str_eq(self.fields[at].key.as_str(), name) {
            Some(&self.fields[at].value)
        } else {
            None
        }
    }

    /// Takes out what is recorded under `name`, and returns it.
    pub fn remove(&mut self, name: &str) -> (value: Option<FieldValue>)
        ensures
            final(self)@ == without(old(self)@, name@),
            keys_increase(final(self)@),
            match lookup(old(self)@, name@) {
                Some(held) => value matches Some(found) && found@ == held,
                None => value is None,
            },
    {
        proof {
            use_type_invariant(&*self);
        }
        let at: usize = self.place_of(name);
        proof {
            lemma_lookup_at(self@, name@, at as int);
            lemma_without_at(self@, name@, at as int);
            lemma_without_keeps_order(self@, name@);
        }
        if at < self.fields.len() && str_eq(self.fields[at].key.as_str(), name) {
            let mut fields: Vec<Field> = Vec::new();
            std::mem::swap(&mut self.fields, &mut fields);
            let field = fields.remove(at);
            assert(fields@.map_values(|field: Field| field@) =~= old(self)@.remove(at as int));
            std::mem::swap(&mut self.fields, &mut fields);
            Some(field.value)
        } else {
            None
        }
    }

    /// The compact JSON object of the fields, its members in the increasing
    /// order of their keys.
    pub fn to_json(&self) -> (json: String)
        ensures
            json@ == object_text(self@),
            keys_increase(self@),
    {
        proof {
            use_type_invariant(self);
            reveal_strlit("{");
            reveal_strlit("}");
            reveal_strlit(",");
            reveal_strlit(":");
        }
        let mut json = "{".to_owned();
        let mut i: usize = 0;
        while i < self.fields.len()
            invariant
                i <= self@.len(),
                self@.len() == self.fields@.len(),
                json@ == seq!['{'] + members_text(self@.take(i as int)),
                ","@ == seq![','],
                ":"@ == seq![':'],
            decreases self@.len() - i,
        {
            if i > 0 {
                json.append(",");
            }
            let field = &self.fields[i];
            let key = string_json(field.key.as_str());
            json.append(key.as_str());
            json.append(":");
            let value = field.value.to_json();
            json.append(value.as_str());
            proof {
                let before = self@.take(i as int);
                let now = self@.take(i + 1);
                assert(now.last() == field@);
                assert(now.drop_last() =~= before);
                assert(json@ =~= seq!['{'] + members_text(now));
            }
            i += 1;
        }
        json.append("}");
        proof {
            assert(self@.take(i as int) =~= self@);
        }
        json
    }
}

} // verus!
