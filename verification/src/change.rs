//! The unit of replication: one change to one record of one table.

use crate::text::same_text;
use vstd::prelude::*;

verus! {

/// What a change does to its record.
#[derive(Clone, Copy, Debug, PartialEq, Eq, Structural)]
pub enum SyncOp {
    /// Insert the record, or overwrite it.
    Upsert,
    /// Leave a tombstone in the record's place.
    Delete,
}

/// The value of one column in a change's payload.
#[derive(Clone, Debug, PartialEq, Eq)]
pub enum FieldValue {
    /// No value.
    Null,
    /// A whole number.
    Integer(i64),
    /// A string.
    Text(String),
    /// Any other JSON value, as its raw JSON text.
    Json(String),
}

/// A payload value as mathematics.
pub enum FieldModel {
    Null,
    Integer(i64),
    Text(Seq<char>),
    Json(Seq<char>),
}

impl View for FieldValue {
    type V = FieldModel;

    open spec fn view(&self) -> FieldModel {
        match self {
            FieldValue::Null => FieldModel::Null,
            FieldValue::Integer(n) => FieldModel::Integer(*n),
            FieldValue::Text(s) => FieldModel::Text(s@),
            FieldValue::Json(s) => FieldModel::Json(s@),
        }
    }
}

/// One named value of a payload.
#[derive(Clone, Debug, PartialEq, Eq)]
pub struct Field {
    pub name: String,
    pub value: FieldValue,
}

/// The column values that a change carries, by column name. Where a name
/// occurs more than once, its last entry counts.
#[derive(Clone, Debug, PartialEq, Eq)]
pub struct Payload {
    pub fields: Vec<Field>,
}

/// The mapping that a list of entries stands for: later entries win.
pub open spec fn entries_map(entries: Seq<Field>) -> Map<Seq<char>, FieldModel>
    decreases entries.len(),
{
    if entries.len() == 0 {
        Map::empty()
    } else {
        entries_map(entries.drop_last()).insert(entries.last().name@, entries.last().value@)
    }
}

impl View for Payload {
    type V = Map<Seq<char>, FieldModel>;

    open spec fn view(&self) -> Map<Seq<char>, FieldModel> {
        entries_map(self.fields@)
    }
}

impl Payload {
    /// A payload without any column.
    pub fn new() -> (r: Payload)
        ensures
            r@ == Map::<Seq<char>, FieldModel>::empty(),
    {
        Payload { fields: Vec::new() }
    }

    /// Sets a column's value, replacing what the payload held for it.
    pub fn insert(&mut self, name: String, value: FieldValue)
        ensures
            final(self)@ == old(self)@.insert(name@, value@),
    {
        self.fields.push(Field { name, value });
        proof {
            assert(self.fields@.drop_last() =~= old(self).fields@);
        }
    }

    /// The value of a column, if the payload has one for it.
    pub fn get(&self, name: &str) -> (r: Option<&FieldValue>)
        ensures
            r is Some <==> self@.contains_key(name@),
            r is Some ==> (r->0)@ == self@[name@],
    {
        let mut i: usize = self.fields.len();
        proof {
            assert(self.fields@.take(i as int) =~= self.fields@);
        }
        while i > 0
            invariant
                i <= self.fields.len(),
                self@.contains_key(name@) == entries_map(self.fields@.take(i as int)).contains_key(
                    name@,
                ),
                self@.contains_key(name@) ==> self@[name@] == entries_map(
                    self.fields@.take(i as int),
                )[name@],
            decreases i,
        {
            proof {
                let head = self.fields@.take(i as int);
                assert(head.drop_last() =~= self.fields@.take(i - 1));
                assert(head.last() == self.fields@[i - 1]);
            }
            i -= 1;
            if same_text(self.fields[i].name.as_str(), name) {
                return Some(&self.fields[i].value);
            }
        }
        None
    }

    /// The text of a column, if the payload holds a string for it.
    pub fn get_text(&self, name: &str) -> (r: Option<&str>)
        ensures
            r is Some <==> self@.contains_key(name@) && self@[name@] is Text,
            r is Some ==> (r->0)@ == self@[name@]->Text_0,
    {
        match self.get(name) {
            Some(FieldValue::Text(s)) => Some(s.as_str()),
            _ => None,
        }
    }
}

/// One replicated mutation: an upsert or a tombstone of one record.
#[derive(Clone, Debug, PartialEq, Eq)]
pub struct SyncChange {
    /// The table of the record.
    pub table: String,
    /// What happens to the record.
    pub op: SyncOp,
    /// The record's column values.
    pub data: Payload,
    /// The version at which the sender last wrote the record; zero or less
    /// where the record was never synchronised.
    pub version: i64,
    /// The wall-clock time of the write, in ISO 8601.
    pub updated_at: String,
    /// The time of the deletion, for a tombstone.
    pub deleted_at: Option<String>,
}

/// A change as mathematics.
pub struct ChangeModel {
    pub table: Seq<char>,
    pub op: SyncOp,
    pub data: Map<Seq<char>, FieldModel>,
    pub version: i64,
    pub updated_at: Seq<char>,
    pub deleted_at: Option<Seq<char>>,
}

/// The text of an optional string.
pub open spec fn optional_text(s: Option<String>) -> Option<Seq<char>> {
    match s {
        Some(t) => Some(t@),
        None => None,
    }
}

impl View for SyncChange {
    type V = ChangeModel;

    open spec fn view(&self) -> ChangeModel {
        ChangeModel {
            table: self.table@,
            op: self.op,
            data: self.data@,
            version: self.version,
            updated_at: self.updated_at@,
            deleted_at: optional_text(self.deleted_at),
        }
    }
}

/// The changes of a list as mathematics.
pub open spec fn change_models(changes: Seq<SyncChange>) -> Seq<ChangeModel> {
    Seq::new(changes.len(), |i: int| changes[i]@)
}

} // verus!
