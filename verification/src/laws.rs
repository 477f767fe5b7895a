//! What holds of the file backend on every store.
//!
//! Each law is stated over the text of the store file, as the host sees it:
//! the text before an operation, the change that the operation asks for, and
//! the text after the change is made.

use crate::error::{ErrorKind, Failure};
use crate::framing::{
    framed, has_no_feed, is_closed, lemma_framed_is_closed, lemma_lines_have_no_feed,
    lemma_lines_of_appended, lemma_lines_of_cut, lemma_lines_of_framed, lines_of, on_one_line,
    reads_back,
};
use crate::json::{json_parse, Json};
use crate::log::{
    deleted, documents, first_failure, holds_id, is_first_failure, lemma_first_failure_none,
    readings, rewrites, updated,
};
use crate::record::{encoded, has_id, listed, patched};
use crate::storage::{store_after, DataStorage, Edit, FileSystemStorage};
use vstd::prelude::*;

verus! {

/// A store in which every line is a record.
pub open spec fn is_sound(stored: Seq<char>) -> bool {
    forall|at: int|
        0 <= at < lines_of(stored).len() ==> json_parse(#[trigger] lines_of(stored)[at]) is Ok
}

/// A store in which no record has the given id.
pub open spec fn lacks_id(stored: Seq<char>, id: Seq<char>) -> bool {
    forall|at: int|
        0 <= at < lines_of(stored).len() ==> !holds_id(#[trigger] lines_of(stored)[at], id)
}

/// A store in which no line ends in a carriage return.
pub open spec fn has_plain_lines(stored: Seq<char>) -> bool {
    forall|at: int|
        0 <= at < lines_of(stored).len() ==> (#[trigger] lines_of(stored)[at]).len() > 0
            ==> lines_of(stored)[at].last() != '\r'
}

/// A line that holds a record which can be written back.
pub open spec fn is_rewritable(line: Seq<char>) -> bool {
    json_parse(line) is Ok && encoded(json_parse(line)->Ok_0) is Ok
}

/// The line that a document is written as after an update: patched where the
/// document has the id, and as it was where it has not.
pub open spec fn line_after_update(doc: Json, id: Seq<char>, changes: Map<Seq<char>, Json>) -> Result<
    Seq<char>,
    Failure,
> {
    if has_id(doc, id) {
        encoded(patched(doc, changes))
    } else {
        encoded(doc)
    }
}

/// A first failure is the failure of one of the outcomes.
proof fn lemma_first_failure_is_one<T>(outcomes: Seq<Result<T, Failure>>)
    ensures
        first_failure(outcomes) matches Some(failure) ==> exists|at: int|
            is_first_failure(outcomes, at) && outcomes[at] == Err::<T, Failure>(failure),
{
    if first_failure(outcomes) is Some {
        let at = choose|at: int| is_first_failure(outcomes, at);
        assert(is_first_failure(outcomes, at));
        assert(outcomes[at] == Err::<T, Failure>(first_failure(outcomes)->Some_0));
    }
}

/// Lines that all stay are all kept.
proof fn lemma_filter_keeps_all<A>(items: Seq<A>, stays: spec_fn(A) -> bool)
    requires
        forall|at: int| 0 <= at < items.len() ==> stays(#[trigger] items[at]),
    ensures
        items.filter(stays) == items,
    decreases items.len(),
{
    reveal(Seq::filter);
    if items.len() > 0 {
        let init = items.drop_last();
        assert forall|at: int| 0 <= at < init.len() implies stays(#[trigger] init[at]) by {
            assert(init[at] == items[at]);
        }
        lemma_filter_keeps_all(init, stays);
        assert(init.push(items.last()) =~= items);
    }
}

/// A record that is added is loaded. Where every line of a closed store is a
/// record, and a record is added that is JSON and reads back as one line, the
/// store gains that line and no other, and a load answers with the list of the
/// documents that were there, followed by the document of the new record.
pub proof fn law_added_record_is_loaded(
    storage: FileSystemStorage,
    stored: Seq<char>,
    data: Seq<char>,
)
    ensures
        is_closed(stored) && is_sound(stored) && reads_back(data) && json_parse(data) is Ok ==> {
            let after = store_after(stored, storage.added(data));
            &&& storage.added(data) is Ok
            &&& lines_of(after) == lines_of(stored).push(data)
            &&& documents(lines_of(after)) == documents(lines_of(stored)).push(
                json_parse(data)->Ok_0,
            )
            &&& storage.loaded(after) == listed(documents(lines_of(after)))
        },
{
    if is_closed(stored) && is_sound(stored) && reads_back(data) && json_parse(data) is Ok {
        let tail = data + seq!['\n'];
        let after = stored + tail;
        assert(store_after(stored, storage.added(data)) == after);
        lemma_lines_of_appended(stored, tail);
        assert(tail.take(data.len() as int) =~= data);
        lemma_lines_of_cut(tail, data.len() as int);
        assert(tail.skip(data.len() as int + 1) =~= Seq::<char>::empty());
        assert(lines_of(tail) =~= seq![data]);
        let before = lines_of(stored);
        let lines = lines_of(after);
        assert(lines =~= before.push(data));
        assert forall|at: int| 0 <= at < lines.len() implies (#[trigger] readings(lines)[at])
            is Ok by {
            if at < before.len() {
                assert(lines[at] == before[at]);
            }
        }
        lemma_first_failure_none(readings(lines));
        assert(documents(lines) =~= documents(before).push(json_parse(data)->Ok_0)) by {
            assert forall|at: int| 0 <= at < lines.len() implies documents(lines)[at]
                == documents(before).push(json_parse(data)->Ok_0)[at] by {
                if at < before.len() {
                    assert(lines[at] == before[at]);
                }
            }
        }
    }
}

/// An update of an id that no record has is refused. It fails whatever the
/// patch is, so the store stays as it is; and where every line can be read and
/// written, the failure names the id that was not found.
pub proof fn law_update_of_missing_id_is_refused(
    storage: FileSystemStorage,
    stored: Seq<char>,
    id: Seq<char>,
    patch: Seq<char>,
)
    ensures
        lacks_id(stored, id) ==> {
            &&& storage.updated(stored, id, patch) is Err
            &&& store_after(stored, storage.updated(stored, id, patch)) == stored
            &&& (forall|at: int|
                0 <= at < lines_of(stored).len() ==> is_rewritable(#[trigger] lines_of(stored)[at]))
                ==> storage.updated(stored, id, patch) == Err::<Edit, Failure>(
                Failure::NotFound { id },
            )
        },
{
    let lines = lines_of(stored);
    let outcomes = rewrites(lines, id, patch);
    if lacks_id(stored, id) {
        if forall|at: int| 0 <= at < lines.len() ==> is_rewritable(#[trigger] lines[at]) {
            assert forall|at: int| 0 <= at < outcomes.len() implies (#[trigger] outcomes[at])
                is Ok by {
                assert(is_rewritable(lines[at]));
                assert(!holds_id(lines[at], id));
            }
            lemma_first_failure_none(outcomes);
        }
    }
}

/// A second delete changes nothing. Where a delete succeeds on a store in
/// which no line ends in a carriage return, the same delete on the store it
/// leaves succeeds too, and writes that store again as it is.
pub proof fn law_delete_twice_is_delete_once(
    storage: FileSystemStorage,
    stored: Seq<char>,
    id: Seq<char>,
)
    ensures
        storage.deleted(stored, id) is Ok && has_plain_lines(stored) ==> {
            let once = store_after(stored, storage.deleted(stored, id));
            &&& storage.deleted(once, id) == Ok::<Edit, Failure>(Edit::Rewrite(once))
            &&& store_after(once, storage.deleted(once, id)) == once
        },
{
    if storage.deleted(stored, id) is Ok && has_plain_lines(stored) {
        let lines = lines_of(stored);
        let stays = |line: Seq<char>| !holds_id(line, id);
        let kept = lines.filter(stays);
        let once = framed(kept);
        assert(deleted(lines, id) == Ok::<Seq<Seq<char>>, Failure>(kept));
        assert(store_after(stored, storage.deleted(stored, id)) == once);
        lemma_first_failure_none(readings(lines));
        lemma_lines_have_no_feed(stored);
        assert forall|at: int| 0 <= at < kept.len() implies reads_back(#[trigger] kept[at])
            && stays(kept[at]) && json_parse(kept[at]) is Ok by {
            lines.lemma_filter_pred(stays, at);
            assert(kept.contains(kept[at]));
            lines.lemma_filter_contains_rev(stays, kept[at]);
            let from = choose|from: int| 0 <= from < lines.len() && lines[from] == kept[at];
            assert(has_no_feed(lines[from]));
            assert(readings(lines)[from] is Ok);
        }
        lemma_lines_of_framed(kept);
        assert forall|at: int| 0 <= at < kept.len() implies (#[trigger] readings(kept)[at])
            is Ok by {
            assert(json_parse(kept[at]) is Ok);
        }
        lemma_first_failure_none(readings(kept));
        lemma_filter_keeps_all(kept, stays);
    }
}

/// An update rewrites the store in place. Where an update succeeds, the patch
/// is an object, the store has as many lines after it as before, and each line
/// holds the record that stood at its place: patched where the record has the
/// id, be it one record or several, and written anew as it was where it has not.
pub proof fn law_update_rewrites_in_place(
    storage: FileSystemStorage,
    stored: Seq<char>,
    id: Seq<char>,
    patch: Seq<char>,
)
    ensures
        storage.updated(stored, id, patch) is Ok ==> {
            let before = lines_of(stored);
            let after = lines_of(store_after(stored, storage.updated(stored, id, patch)));
            &&& json_parse(patch) matches Ok(Json::Object(changes))
            &&& after.len() == before.len()
            &&& forall|at: int|
                0 <= at < before.len() ==> json_parse(#[trigger] before[at]) is Ok
                    && line_after_update(json_parse(before[at])->Ok_0, id, changes) == Ok::<
                    Seq<char>,
                    Failure,
                >(after[at])
        },
{
    if storage.updated(stored, id, patch) is Ok {
        let before = lines_of(stored);
        let outcomes = rewrites(before, id, patch);
        let out = Seq::new(before.len(), |at: int| outcomes[at]->Ok_0);
        assert(updated(before, id, patch) == Ok::<Seq<Seq<char>>, Failure>(out));
        lemma_first_failure_none(outcomes);
        assert forall|at: int| 0 <= at < out.len() implies reads_back(#[trigger] out[at]) by {
            assert(outcomes[at] is Ok);
            assert(on_one_line(out[at]));
        }
        lemma_lines_of_framed(out);
        let hit = choose|at: int| 0 <= at < before.len() && holds_id(#[trigger] before[at], id);
        assert(outcomes[hit] is Ok);
        assert forall|at: int| 0 <= at < before.len() implies json_parse(#[trigger] before[at])
            is Ok && line_after_update(
            json_parse(before[at])->Ok_0,
            id,
            json_parse(patch)->Ok_0->Object_0,
        ) == Ok::<Seq<char>, Failure>(out[at]) by {
            assert(outcomes[at] is Ok);
        }
    }
}

/// A line that is no record fails every operation that reads the store. A
/// load and a delete fail to decode; an update fails too, at the first line in
/// order that cannot be read, patched or written. None of them asks for a
/// change.
pub proof fn law_malformed_line_fails(
    storage: FileSystemStorage,
    stored: Seq<char>,
    id: Seq<char>,
    patch: Seq<char>,
)
    ensures
        !is_sound(stored) ==> {
            &&& storage.loaded(stored) matches Err(failure) && failure is Decode
            &&& storage.deleted(stored, id) matches Err(failure) && failure is Decode
            &&& storage.updated(stored, id, patch) matches Err(failure) && (failure.kind()
                == ErrorKind::Decode || failure.kind() == ErrorKind::Encode)
            &&& store_after(stored, storage.deleted(stored, id)) == stored
            &&& store_after(stored, storage.updated(stored, id, patch)) == stored
        },
{
    if !is_sound(stored) {
        let lines = lines_of(stored);
        let bad = choose|at: int| 0 <= at < lines.len() && !(json_parse(#[trigger] lines[at]) is Ok);
        assert(readings(lines)[bad] is Err);
        lemma_first_failure_none(readings(lines));
        lemma_first_failure_is_one(readings(lines));
        assert(rewrites(lines, id, patch)[bad] is Err);
        lemma_first_failure_none(rewrites(lines, id, patch));
        lemma_first_failure_is_one(rewrites(lines, id, patch));
    }
}

/// A closed store stays closed. Whether an operation of the file backend
/// succeeds or fails, the text after it ends in a line feed or is empty, so the
/// next record that is added begins a line of its own.
pub proof fn law_store_stays_closed(
    storage: FileSystemStorage,
    stored: Seq<char>,
    id: Seq<char>,
    data: Seq<char>,
)
    ensures
        is_closed(stored) ==> {
            &&& is_closed(store_after(stored, storage.added(data)))
            &&& is_closed(store_after(stored, storage.updated(stored, id, data)))
            &&& is_closed(store_after(stored, storage.deleted(stored, id)))
        },
{
    if is_closed(stored) {
        assert((stored + (data + seq!['\n'])).last() == '\n');
        if storage.updated(stored, id, data) is Ok {
            lemma_framed_is_closed(updated(lines_of(stored), id, data)->Ok_0);
        }
        if storage.deleted(stored, id) is Ok {
            lemma_framed_is_closed(deleted(lines_of(stored), id)->Ok_0);
        }
    }
}

} // verus!
