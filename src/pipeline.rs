//! The checks that stand between a generated batch and its record file.
use crate::category::Category;
use crate::date::{CalendarDate, record_file_name_text, record_file_name};
use crate::identifier::is_identifier;
use crate::record::{
    lemma_record_round_trip, record_identifiers, rendered_record, parse_record, render_record,
};
use vstd::prelude::*;

verus! {

/// The texts of a list of strings.
pub open spec fn texts(v: Seq<String>) -> Seq<Seq<char>> {
    v.map_values(|s: String| s@)
}

/// Why a run stops without writing.
#[derive(Clone, Copy, Debug, PartialEq, Eq, Structural)]
pub enum RunError {
    /// The new batch holds the same identifier twice.
    DuplicateInBatch,
    /// An identifier of the new batch was issued before, or the recorded
    /// identifiers already repeat one another.
    Collision,
}

/// The record file that a successful run writes.
pub struct RecordFile {
    pub name: String,
    pub content: Vec<u8>,
}

/// Whether some identifier occurs twice in `ids`.
pub fn has_duplicates(ids: &Vec<String>) -> (r: bool)
    ensures
        r == !texts(ids@).no_duplicates(),
{
    let ghost v = texts(ids@);
    let mut i: usize = 0;
    while i < ids.len()
        invariant
            i <= ids.len(),
            v == texts(ids@),
            forall|a: int, b: int| 0 <= a < i && a < b < ids.len() ==> v[a] != v[b],
        decreases ids.len() - i,
    {
        let mut j: usize = i + 1;
        while j < ids.len()
            invariant
                i < ids.len(),
                i + 1 <= j <= ids.len(),
                v == texts(ids@),
                forall|a: int, b: int| 0 <= a < i && a < b < ids.len() ==> v[a] != v[b],
                forall|b: int| i < b < j ==> v[i as int] != v[b],
            decreases ids.len() - j,
        {
            if ids[i] == ids[j] {
                assert(v[i as int] == v[j as int]);
                return true;
            }
            j = j + 1;
        }
        i = i + 1;
    }
    false
}

/// The identifiers of a new batch followed by those recorded before.
pub fn combined(batch: &Vec<String>, history: &Vec<String>) -> (r: Vec<String>)
    ensures
        texts(r@) == texts(batch@) + texts(history@),
{
    let mut out: Vec<String> = Vec::new();
    let mut k: usize = 0;
    while k < batch.len()
        invariant
            k <= batch.len(),
            texts(out@) == texts(batch@.subrange(0, k as int)),
        decreases batch.len() - k,
    {
        let ghost before = out@;
        out.push(batch[k].clone());
        assert(texts(out@) == texts(before).push(batch[k as int]@));
        assert(batch@.subrange(0, k + 1) == batch@.subrange(0, k as int).push(batch[k as int]));
        k = k + 1;
    }
    assert(batch@.subrange(0, batch.len() as int) == batch@);
    let mut k: usize = 0;
    while k < history.len()
        invariant
            k <= history.len(),
            texts(out@) == texts(batch@) + texts(history@.subrange(0, k as int)),
        decreases history.len() - k,
    {
        let ghost before = out@;
        out.push(history[k].clone());
        assert(texts(out@) == texts(before).push(history[k as int]@));
        assert(history@.subrange(0, k + 1) == history@.subrange(0, k as int).push(
            history[k as int],
        ));
        k = k + 1;
    }
    assert(history@.subrange(0, history.len() as int) == history@);
    out
}

/// Whether the new batch and the recorded identifiers, taken together,
/// repeat some identifier.
pub fn find_collision(batch: &Vec<String>, history: &Vec<String>) -> (r: bool)
    ensures
        r == !(texts(batch@) + texts(history@)).no_duplicates(),
{
    let all = combined(batch, history);
    has_duplicates(&all)
}

/// The identifiers recorded in files with the given contents, file by file
/// and line by line.
pub open spec fn history_of(files: Seq<Vec<u8>>) -> Seq<Seq<char>> {
    files.map_values(|f: Vec<u8>| record_identifiers(f@)).flatten()
}

/// Gathers the identifiers recorded in files with the given contents.
pub fn collect_history(files: &Vec<Vec<u8>>) -> (r: Vec<String>)
    ensures
        texts(r@) == history_of(files@),
{
    let mut out: Vec<String> = Vec::new();
    let mut k: usize = 0;
    while k < files.len()
        invariant
            k <= files.len(),
            texts(out@) == history_of(files@.subrange(0, k as int)),
        decreases files.len() - k,
    {
        let mut found = parse_record(files[k].as_slice());
        let ghost before = out@;
        out.append(&mut found);
        proof {
            let m = files@.subrange(0, k as int).map_values(|f: Vec<u8>| record_identifiers(f@));
            assert(files@.subrange(0, k + 1).map_values(|f: Vec<u8>| record_identifiers(f@))
                == m.push(record_identifiers(files[k as int]@)));
            m.lemma_flatten_push(record_identifiers(files[k as int]@));
            assert(texts(out@) == texts(before) + record_identifiers(files[k as int]@));
        }
        k = k + 1;
    }
    assert(files@.subrange(0, files.len() as int) == files@);
    out
}

/// Checks a new batch against itself and against the recorded identifiers
/// and, when both checks pass, gives the record file to write for it.
pub fn prepare_record(
    batch: &Vec<String>,
    history: &Vec<String>,
    category: Category,
    date: CalendarDate,
) -> (r: Result<RecordFile, RunError>)
    ensures
        !texts(batch@).no_duplicates() ==> r == Err::<RecordFile, RunError>(
            RunError::DuplicateInBatch,
        ),
        texts(batch@).no_duplicates() && !(texts(batch@) + texts(history@)).no_duplicates()
            ==> r == Err::<RecordFile, RunError>(RunError::Collision),
        (texts(batch@) + texts(history@)).no_duplicates() ==> r is Ok,
        r is Ok ==> r->Ok_0.name@ == record_file_name_text(category, date)
            && r->Ok_0.content@ == rendered_record(texts(batch@)),
{
    if has_duplicates(batch) {
        proof {
            let a = texts(batch@);
            let ab = texts(batch@) + texts(history@);
            if ab.no_duplicates() {
                assert forall|i: int, j: int|
                    0 <= i < a.len() && 0 <= j < a.len() && i != j implies a[i] != a[j] by {
                    assert(ab[i] == a[i] && ab[j] == a[j]);
                }
            }
        }
        return Err(RunError::DuplicateInBatch);
    }
    if find_collision(batch, history) {
        return Err(RunError::Collision);
    }
    Ok(RecordFile { name: record_file_name(category, date), content: render_record(batch) })
}

/// When a batch passes both checks, none of its identifiers was recorded
/// before, and the identifiers recorded before together with those read
/// back from the new record file are all distinct.
pub proof fn lemma_accepted_batch_keeps_records_distinct(
    batch: Seq<Seq<char>>,
    history: Seq<Seq<char>>,
)
    requires
        forall|i: int| 0 <= i < batch.len() ==> is_identifier(#[trigger] batch[i]),
        (batch + history).no_duplicates(),
    ensures
        forall|i: int, j: int|
            0 <= i < batch.len() && 0 <= j < history.len() ==> batch[i] != history[j],
        (history + record_identifiers(rendered_record(batch))).no_duplicates(),
{
    lemma_record_round_trip(batch);
    let all = batch + history;
    assert forall|i: int, j: int|
        0 <= i < batch.len() && 0 <= j < history.len() implies batch[i] != history[j] by {
        assert(all[i] == batch[i] && all[batch.len() + j] == history[j]);
    }
    let u = history + batch;
    assert forall|i: int, j: int| 0 <= i < u.len() && 0 <= j < u.len() && i != j implies u[i]
        != u[j] by {
        let a = if i < history.len() {
            batch.len() + i
        } else {
            i - history.len()
        };
        let b = if j < history.len() {
            batch.len() + j
        } else {
            j - history.len()
        };
        assert(u[i] == all[a] && u[j] == all[b]);
    }
}

} // verus!
