//! One record of the store: a JSON document, read from a line and written
//! back to one, with the rule by which a patch changes it.

use crate::error::{Failure, StorageError};
use crate::framing::{is_on_one_line, on_one_line};
use crate::json::{
    describe, into_entries, into_object, is_text, json_of, json_parse, json_text, member,
    list_value, members_of, object_value, parse, remove, render, Json,
};
use vstd::prelude::*;
use vstd::string::StringExecFns;

verus! {

/// A record as it is held in memory. Its view is the document it holds.
#[derive(Debug)]
pub struct Record {
    value: serde_json::Value,
}

impl View for Record {
    type V = Json;

    closed spec fn view(&self) -> Json {
        json_of(self.value)
    }
}

impl DeepView for Record {
    type V = Json;

    open spec fn deep_view(&self) -> Json {
        self@
    }
}

/// Whether a document is an object whose member `id` is the text `id`.
pub open spec fn has_id(doc: Json, id: Seq<char>) -> bool {
    doc.member("id"@) == Json::Text(id)
}

/// The members of a record after a patch: a key that the patch gives a null
/// for is gone, a key that it gives another value for has that value, and a
/// key that it does not mention is as it was.
pub open spec fn merged(existing: Map<Seq<char>, Json>, changes: Map<Seq<char>, Json>) -> Map<
    Seq<char>,
    Json,
> {
    Map::new(
        |key: Seq<char>|
            if changes.contains_key(key) {
                !(changes[key] is Null)
            } else {
                existing.contains_key(key)
            },
        |key: Seq<char>|
            if changes.contains_key(key) {
                changes[key]
            } else {
                existing[key]
            },
    )
}

/// A document after a patch. Only an object has members to change.
pub open spec fn patched(doc: Json, changes: Map<Seq<char>, Json>) -> Json {
    match doc {
        Json::Object(members) => Json::Object(merged(members, changes)),
        _ => doc,
    }
}

/// What is reported when the text of a record would not stay on its line.
pub open spec fn split_line_detail() -> Seq<char> {
    "record text spans more than one line"@
}

/// The line a document is stored as: its compact text, which must stand on one
/// line.
pub open spec fn encoded(doc: Json) -> Result<Seq<char>, Failure> {
    match json_text(doc) {
        Ok(text) => if on_one_line(text) {
            Ok(text)
        } else {
            Err(Failure::Encode { detail: split_line_detail() })
        },
        Err(detail) => Err(Failure::Encode { detail }),
    }
}

/// The text of a list of documents.
pub open spec fn listed(docs: Seq<Json>) -> Result<Seq<char>, Failure> {
    match json_text(Json::List(docs)) {
        Ok(text) => Ok(text),
        Err(detail) => Err(Failure::Encode { detail }),
    }
}

impl Record {
    /// Reads a record from a line of text. Any JSON document is a record; a
    /// text that is not JSON gives the parser's message.
    pub fn decode(line: &str) -> (r: Result<Record, String>)
        ensures
            match r {
                Ok(record) => json_parse(line@) == Ok::<Json, Seq<char>>(record@),
                Err(detail) => json_parse(line@) == Err::<Json, Seq<char>>(detail@),
            },
    {
        match parse(line) {
            Ok(value) => Ok(Record { value }),
            Err(error) => Err(describe(&error)),
        }
    }

    /// Writes the record as one line of text.
    pub fn encode(&self) -> (r: Result<String, StorageError>)
        ensures
            match r {
                Ok(text) => encoded(self@) == Ok::<Seq<char>, Failure>(text@),
                Err(error) => encoded(self@) == Err::<Seq<char>, Failure>(error@),
            },
    {
        match render(&self.value) {
            Ok(text) => if is_on_one_line(text.as_str()) {
                Ok(text)
            } else {
                Err(
                    StorageError::Encode {
                        detail: String::from_str("record text spans more than one line"),
                    },
                )
            },
            Err(error) => Err(StorageError::Encode { detail: describe(&error) }),
        }
    }

    /// Writes a list of records as one JSON text.
    pub fn encode_list(records: Vec<Record>) -> (r: Result<String, StorageError>)
        ensures
            match r {
                Ok(text) => listed(records.deep_view()) == Ok::<Seq<char>, Failure>(text@),
                Err(error) => listed(records.deep_view()) == Err::<Seq<char>, Failure>(error@),
            },
    {
        let ghost docs = records.deep_view();
        let ghost all = records@;
        let mut values: Vec<serde_json::Value> = Vec::new();
        for record in it: records.into_iter()
            invariant
                it.seq() == all,
                docs == all.map_values(|record: Record| record@),
                values.len() == it.index(),
                forall|i: int| 0 <= i < values.len() ==> json_of(#[trigger] values[i]) == docs[i],
        {
            values.push(record.value);
        }
        let list = list_value(values);
        assert(json_of(list) == Json::List(docs)) by {
            assert(values@.map_values(|item: serde_json::Value| json_of(item)) =~= docs);
        }
        match render(&list) {
            Ok(text) => Ok(text),
            Err(error) => Err(StorageError::Encode { detail: describe(&error) }),
        }
    }

    /// Whether the record is an object whose member `id` is the text `id`.
    pub fn has_id(&self, id: &str) -> (r: bool)
        ensures
            r == has_id(self@, id@),
    {
        is_text(member(&self.value, "id"), id)
    }

    /// Applies a patch to the record, member by member. The patch must be an
    /// object; a record that is no object has no members and stays as it is.
    pub fn merge(self, patch: Record) -> (r: Result<Record, StorageError>)
        ensures
            match r {
                Ok(record) => patch@ is Object && record@ == patched(self@, patch@->Object_0),
                Err(error) => !(patch@ is Object) && error@ == Failure::PatchNotObject,
            },
    {
        match into_object(patch.value) {
            Err(_) => Err(StorageError::PatchNotObject),
            Ok(changes) => match into_object(self.value) {
                Err(other) => Ok(Record { value: other }),
                Ok(mut fields) => {
                    let ghost existing = members_of(fields);
                    let ghost wanted = members_of(changes);
                    let entries = into_entries(changes);
                    let ghost all = entries@;
                    let ghost mut done: Set<Seq<char>> = Set::empty();
                    assert(members_of(fields) =~= merged(existing, wanted.restrict(done)));
                    for entry in it: entries.into_iter()
                        invariant
                            it.seq() == all,
                            forall|i: int|
                                0 <= i < all.len() ==> wanted.contains_key(#[trigger] all[i].0@)
                                    && wanted[all[i].0@] == json_of(all[i].1),
                            forall|i: int|
                                0 <= i < it.index() ==> done.contains(#[trigger] all[i].0@),
                            members_of(fields) == merged(existing, wanted.restrict(done)),
                    {
                        let ghost at = it.index() as int;
                        assert(entry == all[at]);
                        let (key, value) = entry;
                        proof {
                            done = done.insert(key@);
                        }
                        if value.is_null() {
                            remove(&mut fields, key.as_str());
                        } else {
                            fields.insert(key, value);
                        }
                        assert(members_of(fields) =~= merged(existing, wanted.restrict(done)));
                    }
                    proof {
                        assert(wanted.restrict(done) =~= wanted) by {
                            assert forall|key: Seq<char>| wanted.contains_key(key) implies done.contains(
                                key,
                            ) by {
                                let i = choose|i: int| 0 <= i < all.len() && all[i].0@ == key;
                                assert(done.contains(all[i].0@));
                            }
                        }
                    }
                    Ok(Record { value: object_value(fields) })
                },
            },
        }
    }
}

} // verus!
