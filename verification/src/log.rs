//! The append log as a sequence of lines, and the three operations that read
//! all of it: update, delete and load.
//!
//! The lines are taken in order and the work stops at the first failure, so an
//! operation either accounts for every line or changes nothing.

use crate::error::{Failure, StorageError};
use crate::json::{json_parse, Json};
use crate::record::{encoded, has_id, listed, patched, Record};
use vstd::prelude::*;
use vstd::string::StringExecFns;

verus! {

/// Whether `at` is the place of the first failure among the outcomes.
pub open spec fn is_first_failure<T>(outcomes: Seq<Result<T, Failure>>, at: int) -> bool {
    &&& 0 <= at < outcomes.len()
    &&& outcomes[at] is Err
    &&& forall|before: int| 0 <= before < at ==> (#[trigger] outcomes[before]) is Ok
}

/// The first failure among the outcomes, if there is one.
pub open spec fn first_failure<T>(outcomes: Seq<Result<T, Failure>>) -> Option<Failure> {
    if exists|at: int| is_first_failure(outcomes, at) {
        Some(outcomes[choose|at: int| is_first_failure(outcomes, at)]->Err_0)
    } else {
        None
    }
}

/// Whether a line holds a record with the given id.
pub open spec fn holds_id(line: Seq<char>, id: Seq<char>) -> bool {
    json_parse(line) matches Ok(doc) && has_id(doc, id)
}

/// The document on the line at place `at`.
pub open spec fn decoded(line: Seq<char>, at: nat) -> Result<Json, Failure> {
    match json_parse(line) {
        Ok(doc) => Ok(doc),
        Err(detail) => Err(Failure::Decode { line: at, detail }),
    }
}

/// The line at place `at` after an update: a record with the id is patched,
/// and every record is written anew.
pub open spec fn rewritten(line: Seq<char>, at: nat, id: Seq<char>, patch: Seq<char>) -> Result<
    Seq<char>,
    Failure,
> {
    match json_parse(line) {
        Err(detail) => Err(Failure::Decode { line: at, detail }),
        Ok(doc) => if has_id(doc, id) {
            match json_parse(patch) {
                Err(detail) => Err(Failure::PatchDecode { detail }),
                Ok(Json::Object(changes)) => encoded(patched(doc, changes)),
                Ok(_) => Err(Failure::PatchNotObject),
            }
        } else {
            encoded(doc)
        },
    }
}

/// The outcome of every line of an update.
pub open spec fn rewrites(lines: Seq<Seq<char>>, id: Seq<char>, patch: Seq<char>) -> Seq<
    Result<Seq<char>, Failure>,
> {
    Seq::new(lines.len(), |at: int| rewritten(lines[at], at as nat, id, patch))
}

/// The outcome of reading every line.
pub open spec fn readings(lines: Seq<Seq<char>>) -> Seq<Result<Json, Failure>> {
    Seq::new(lines.len(), |at: int| decoded(lines[at], at as nat))
}

/// The lines after an update of the record with the given id. The first line
/// that fails decides the failure; with no failure and no record of that id
/// the update is refused.
pub open spec fn updated(lines: Seq<Seq<char>>, id: Seq<char>, patch: Seq<char>) -> Result<
    Seq<Seq<char>>,
    Failure,
> {
    match first_failure(rewrites(lines, id, patch)) {
        Some(failure) => Err(failure),
        None => if exists|at: int| 0 <= at < lines.len() && holds_id(#[trigger] lines[at], id) {
            Ok(Seq::new(lines.len(), |at: int| rewrites(lines, id, patch)[at]->Ok_0))
        } else {
            Err(Failure::NotFound { id })
        },
    }
}

/// The lines after the records with the given id are deleted: the other lines,
/// untouched and in their order.
pub open spec fn deleted(lines: Seq<Seq<char>>, id: Seq<char>) -> Result<Seq<Seq<char>>, Failure> {
    match first_failure(readings(lines)) {
        Some(failure) => Err(failure),
        None => Ok(lines.filter(|line: Seq<char>| !holds_id(line, id))),
    }
}

/// The documents of all lines, in order.
pub open spec fn documents(lines: Seq<Seq<char>>) -> Seq<Json> {
    Seq::new(lines.len(), |at: int| readings(lines)[at]->Ok_0)
}

/// What a load answers: the text of the list of all records, in order.
pub open spec fn loaded(lines: Seq<Seq<char>>) -> Result<Seq<char>, Failure> {
    match first_failure(readings(lines)) {
        Some(failure) => Err(failure),
        None => listed(documents(lines)),
    }
}

/// The first failure is the one at the place that [`is_first_failure`] names.
pub proof fn lemma_first_failure_at<T>(outcomes: Seq<Result<T, Failure>>, at: int)
    requires
        is_first_failure(outcomes, at),
    ensures
        first_failure(outcomes) == Some(outcomes[at]->Err_0),
{
    let chosen = choose|at: int| is_first_failure(outcomes, at);
    assert(is_first_failure(outcomes, chosen));
    if chosen < at {
        assert(outcomes[chosen] is Ok);
    } else if at < chosen {
        assert(outcomes[at] is Ok);
    }
}

/// There is no first failure exactly where every outcome is a success.
pub proof fn lemma_first_failure_none<T>(outcomes: Seq<Result<T, Failure>>)
    ensures
        first_failure(outcomes) is None <==> forall|at: int|
            0 <= at < outcomes.len() ==> (#[trigger] outcomes[at]) is Ok,
{
    if forall|at: int| 0 <= at < outcomes.len() ==> (#[trigger] outcomes[at]) is Ok {
        assert forall|at: int| !is_first_failure(outcomes, at) by {
            if 0 <= at < outcomes.len() {
                assert(outcomes[at] is Ok);
            }
        }
    } else {
        let bad = choose|at: int| 0 <= at < outcomes.len() && !((#[trigger] outcomes[at]) is Ok);
        lemma_failure_has_first(outcomes, bad);
    }
}

/// Below any failure stands a first one.
proof fn lemma_failure_has_first<T>(outcomes: Seq<Result<T, Failure>>, bad: int)
    requires
        0 <= bad < outcomes.len(),
        outcomes[bad] is Err,
    ensures
        exists|at: int| 0 <= at <= bad && is_first_failure(outcomes, at),
    decreases bad,
{
    if exists|before: int| 0 <= before < bad && (#[trigger] outcomes[before]) is Err {
        let before = choose|before: int| 0 <= before < bad && (#[trigger] outcomes[before]) is Err;
        lemma_failure_has_first(outcomes, before);
    } else {
        assert(is_first_failure(outcomes, bad));
    }
}

/// Updates the record with the given id by a patch, and writes every record
/// anew. Fails on the first line that cannot be read, patched or written, and
/// where no record has the id.
pub fn update(lines: &Vec<String>, id: &str, patch: &str) -> (r: Result<Vec<String>, StorageError>)
    ensures
        match r {
            Ok(out) => updated(lines.deep_view(), id@, patch@) == Ok::<Seq<Seq<char>>, Failure>(
                out.deep_view(),
            ),
            Err(error) => updated(lines.deep_view(), id@, patch@) == Err::<
                Seq<Seq<char>>,
                Failure,
            >(error@),
        },
{
    let ghost all = lines.deep_view();
    let ghost outcomes = rewrites(all, id@, patch@);
    let mut out: Vec<String> = Vec::new();
    let mut found = false;
    let mut at: usize = 0;
    while at < lines.len()
        invariant
            at <= lines.len(),
            all == lines.deep_view(),
            outcomes == rewrites(all, id@, patch@),
            out.len() == at,
            forall|done: int|
                0 <= done < at ==> (#[trigger] outcomes[done]) == Ok::<Seq<char>, Failure>(
                    out[done]@,
                ),
            found <==> exists|done: int| 0 <= done < at && holds_id(#[trigger] all[done], id@),
        decreases lines.len() - at,
    {
        let line = lines[at].as_str();
        assert(line@ == all[at as int]);
        let written = match Record::decode(line) {
            Err(detail) => {
                let error = StorageError::Decode { line: at, detail };
                proof {
                    assert(outcomes[at as int] == Err::<Seq<char>, Failure>(error@));
                    lemma_first_failure_at(outcomes, at as int);
                }
                return Err(error);
            },
            Ok(record) => {
                if record.has_id(id) {
                    found = true;
                    match Record::decode(patch) {
                        Err(detail) => {
                            let error = StorageError::PatchDecode { detail };
                            proof {
                                assert(outcomes[at as int] == Err::<Seq<char>, Failure>(error@));
                                lemma_first_failure_at(outcomes, at as int);
                            }
                            return Err(error);
                        },
                        Ok(changes) => match record.merge(changes) {
                            Err(error) => {
                                proof {
                                    assert(outcomes[at as int] == Err::<Seq<char>, Failure>(
                                        error@,
                                    ));
                                    lemma_first_failure_at(outcomes, at as int);
                                }
                                return Err(error);
                            },
                            Ok(merged) => merged.encode(),
                        },
                    }
                } else {
                    record.encode()
                }
            },
        };
        match written {
            Err(error) => {
                proof {
                    assert(outcomes[at as int] == Err::<Seq<char>, Failure>(error@));
                    lemma_first_failure_at(outcomes, at as int);
                }
                return Err(error);
            },
            Ok(text) => {
                assert(outcomes[at as int] == Ok::<Seq<char>, Failure>(text@));
                out.push(text);
            },
        }
        at += 1;
    }
    proof {
        lemma_first_failure_none(outcomes);
    }
    if !found {
        return Err(StorageError::NotFound { id: String::from_str(id) });
    }
    assert(out.deep_view() =~= Seq::new(all.len(), |at: int| outcomes[at]->Ok_0));
    Ok(out)
}

/// Deletes the records with the given id: every other line stays as it is. A
/// line that cannot be read fails the operation; an id that no record has does
/// not.
pub fn delete(lines: &Vec<String>, id: &str) -> (r: Result<Vec<String>, StorageError>)
    ensures
        match r {
            Ok(out) => deleted(lines.deep_view(), id@) == Ok::<Seq<Seq<char>>, Failure>(
                out.deep_view(),
            ),
            Err(error) => deleted(lines.deep_view(), id@) == Err::<Seq<Seq<char>>, Failure>(
                error@,
            ),
        },
{
    let ghost all = lines.deep_view();
    let ghost outcomes = readings(all);
    let ghost stays = |line: Seq<char>| !holds_id(line, id@);
    let mut out: Vec<String> = Vec::new();
    let mut at: usize = 0;
    assert(all.take(0).filter(stays) =~= Seq::<Seq<char>>::empty()) by {
        reveal(Seq::filter);
    }
    while at < lines.len()
        invariant
            at <= lines.len(),
            all == lines.deep_view(),
            outcomes == readings(all),
            stays == |line: Seq<char>| !holds_id(line, id@),
            forall|done: int| 0 <= done < at ==> (#[trigger] outcomes[done]) is Ok,
            out.deep_view() == all.take(at as int).filter(stays),
        decreases lines.len() - at,
    {
        let line = lines[at].as_str();
        assert(line@ == all[at as int]);
        match Record::decode(line) {
            Err(detail) => {
                let error = StorageError::Decode { line: at, detail };
                proof {
                    assert(outcomes[at as int] == Err::<Json, Failure>(error@));
                    lemma_first_failure_at(outcomes, at as int);
                }
                return Err(error);
            },
            Ok(record) => {
                assert(outcomes[at as int] is Ok);
                let ghost kept = out.deep_view();
                proof {
                    let longer = all.take(at + 1);
                    assert(longer.drop_last() =~= all.take(at as int));
                    assert(longer.last() == all[at as int]);
                    reveal(Seq::filter);
                }
                if !record.has_id(id) {
                    out.push(lines[at].clone());
                    assert(out.deep_view() =~= kept.push(all[at as int]));
                }
            },
        }
        at += 1;
    }
    proof {
        lemma_first_failure_none(outcomes);
        assert(all.take(at as int) =~= all);
    }
    Ok(out)
}

/// Answers a load: the text of the list of all records, in the order of their
/// lines. A line that cannot be read fails the whole load.
pub fn load(lines: &Vec<String>) -> (r: Result<String, StorageError>)
    ensures
        match r {
            Ok(text) => loaded(lines.deep_view()) == Ok::<Seq<char>, Failure>(text@),
            Err(error) => loaded(lines.deep_view()) == Err::<Seq<char>, Failure>(error@),
        },
{
    let ghost all = lines.deep_view();
    let ghost outcomes = readings(all);
    let mut records: Vec<Record> = Vec::new();
    let mut at: usize = 0;
    while at < lines.len()
        invariant
            at <= lines.len(),
            all == lines.deep_view(),
            outcomes == readings(all),
            records.len() == at,
            forall|done: int|
                0 <= done < at ==> (#[trigger] outcomes[done]) == Ok::<Json, Failure>(
                    records[done]@,
                ),
        decreases lines.len() - at,
    {
        let line = lines[at].as_str();
        assert(line@ == all[at as int]);
        match Record::decode(line) {
            Err(detail) => {
                let error = StorageError::Decode { line: at, detail };
                proof {
                    assert(outcomes[at as int] == Err::<Json, Failure>(error@));
                    lemma_first_failure_at(outcomes, at as int);
                }
                return Err(error);
            },
            Ok(record) => {
                assert(outcomes[at as int] == Ok::<Json, Failure>(record@));
                records.push(record);
            },
        }
        at += 1;
    }
    proof {
        lemma_first_failure_none(outcomes);
        assert(records.deep_view() =~= documents(all));
    }
    Record::encode_list(records)
}

} // verus!
