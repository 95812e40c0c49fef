//! Geolocation of a batch of addresses, in one pass or chunk by chunk.

use vstd::prelude::*;
use crate::database::{answer, answers, answers_all, Entries, GeoDatabase, Lookup, Outcome};
use crate::errors::{ErrorModel, PandasMaxmindError};
use crate::geo_column::GeoColumn;
use crate::lookup_result::LookupValue;
use crate::record::{column_value, record_of, Record, RecordModel};
use crate::table::{empty_table, with_row, with_rows_of, ColumnTable, TableModel};

verus! {

/// The record that a database with the given entries has for a text. A
/// text that denotes no address has none, and neither has an address that
/// the database does not hold: only a fault in the database is an error.
pub open spec fn resolve(entries: Entries, text: Seq<char>) -> Result<
    Option<RecordModel>,
    Seq<char>,
> {
    match answer(entries, text) {
        None => Ok(None),
        Some(Outcome::Found(record)) => Ok(Some(record)),
        Some(Outcome::NotFound) => Ok(None),
        Some(Outcome::Failed(report)) => Err(report),
    }
}

/// The same, a fault as the error that it is to the caller.
pub open spec fn resolved(entries: Entries, text: Seq<char>) -> Result<
    Option<RecordModel>,
    ErrorModel,
> {
    match resolve(entries, text) {
        Ok(record) => Ok(record),
        Err(report) => Err(ErrorModel::MaxMindDBError(report)),
    }
}

/// The report of the fault that a text meets, if it meets one.
pub open spec fn fault_of(entries: Entries, text: Seq<char>) -> Option<Seq<char>> {
    match resolve(entries, text) {
        Err(report) => Some(report),
        Ok(_) => None,
    }
}

/// The record of each text, where none of them meets a fault.
pub open spec fn records(entries: Entries, ips: Seq<Seq<char>>) -> Seq<
    Option<RecordModel>,
> {
    Seq::new(
        ips.len(),
        |i: int|
            match resolve(entries, ips[i]) {
                Ok(record) => record,
                Err(_) => None,
            },
    )
}

/// The report of the fault that the first text to meet one meets, if any
/// does.
pub open spec fn failure(entries: Entries, ips: Seq<Seq<char>>) -> Option<
    Seq<char>,
>
    decreases ips.len(),
{
    if ips.len() == 0 {
        None
    } else {
        match failure(entries, ips.drop_last()) {
            Some(report) => Some(report),
            None => fault_of(entries, ips.last()),
        }
    }
}

/// The table of the given columns over the given records: in each column,
/// at each place, the value of the column for the record at that place.
pub open spec fn rows(records: Seq<Option<RecordModel>>, columns: Seq<GeoColumn>) -> TableModel {
    Map::new(
        |c: GeoColumn| columns.contains(c),
        |c: GeoColumn| Seq::new(records.len(), |i: int| column_value(records[i], c)),
    )
}

/// What a batch comes to: a table, or an error and no table.
pub type BatchModel = Result<TableModel, ErrorModel>;

/// What a batch gives: the table of the requested columns over the records
/// of the texts, or, where a text meets a fault in the database, the first
/// such fault and no table.
pub open spec fn located(
    entries: Entries,
    ips: Seq<Seq<char>>,
    columns: Seq<GeoColumn>,
) -> BatchModel {
    match failure(entries, ips) {
        Some(report) => Err(ErrorModel::MaxMindDBError(report)),
        None => Ok(rows(records(entries, ips), columns)),
    }
}

/// The characters of each text.
pub open spec fn texts(ips: Seq<String>) -> Seq<Seq<char>> {
    Seq::new(ips.len(), |i: int| ips[i]@)
}

/// What a batch gave, texts as their characters.
pub open spec fn batch_view(batch: Result<ColumnTable<'_>, PandasMaxmindError>) -> BatchModel {
    match batch {
        Ok(table) => Ok(table@),
        Err(e) => Err(e@),
    }
}

/// What a lookup of one text gave, texts as their characters.
pub open spec fn resolved_view(resolved: Result<Option<Record<'_>>, PandasMaxmindError>) -> Result<
    Option<RecordModel>,
    ErrorModel,
> {
    match resolved {
        Ok(Some(record)) => Ok(Some(record@)),
        Ok(None) => Ok(None),
        Err(e) => Err(e@),
    }
}

/// A fault met among the first texts is the fault of the whole batch.
pub proof fn lemma_failure_stays(entries: Entries, ips: Seq<Seq<char>>, n: int)
    requires
        0 <= n <= ips.len(),
        failure(entries, ips.take(n)) is Some,
    ensures
        failure(entries, ips) == failure(entries, ips.take(n)),
    decreases ips.len() - n,
{
    if n == ips.len() {
        assert(ips.take(n) =~= ips);
    } else {
        assert(ips.take(n + 1).drop_last() =~= ips.take(n));
        lemma_failure_stays(entries, ips, n + 1);
    }
}

/// Looks up the record of one text. A text that is no address, and an
/// address that the database does not hold, give no record and no error.
pub fn lookup_ip<'r>(ip: &str, db: &GeoDatabase<'r>) -> (res: Result<
    Option<Record<'r>>,
    PandasMaxmindError,
>)
    requires
        answers(db.entries(), ip@),
    ensures
        resolved_view(res) == resolved(db.entries(), ip@),
{
    match db.lookup(ip) {
        None => Ok(None),
        Some(Lookup::Found(record)) => Ok(Some(record)),
        Some(Lookup::NotFound) => Ok(None),
        Some(Lookup::Failed(report)) => Err(PandasMaxmindError::MaxMindDBError(report)),
    }
}

/// Geolocates the addresses in their order. The table has every requested
/// column, and in each one value for each address, absent where the
/// address has no record or the record lacks the value. A fault in the
/// database ends the batch at once, with the fault and no table.
pub fn geolocate<'r>(ips: &[String], db: &GeoDatabase<'r>, columns: &[GeoColumn]) -> (res: Result<
    ColumnTable<'r>,
    PandasMaxmindError,
>)
    requires
        answers_all(db.entries(), texts(ips@)),
    ensures
        batch_view(res) == located(db.entries(), texts(ips@), columns@),
{
    let mut res = ColumnTable::new(columns);
    let ghost all = texts(ips@);
    let mut i: usize = 0;
    proof {
        let none = rows(records(db.entries(), all.take(0)), columns@);
        assert forall|c: GeoColumn| columns@.contains(c) implies #[trigger] none[c]
            == Seq::<LookupValue>::empty() by {
            assert(none[c] =~= Seq::empty());
        }
        assert(res@ =~= none);
    }
    while i < ips.len()
        invariant
            i <= ips@.len(),
            all == texts(ips@),
            answers_all(db.entries(), all),
            failure(db.entries(), all.take(i as int)) is None,
            res@ == rows(records(db.entries(), all.take(i as int)), columns@),
        decreases ips@.len() - i,
    {
        let ghost seen = all.take(i as int);
        let ghost next = all.take(i + 1);
        proof {
            assert(next.drop_last() =~= seen);
            assert(next.last() == ips@[i as int]@);
        }
        assert(answers(db.entries(), all[i as int]));
        match lookup_ip(ips[i].as_str(), db) {
            Err(e) => {
                proof {
                    lemma_failure_stays(db.entries(), all, i + 1);
                }
                return Err(e);
            },
            Ok(record) => {
                let held = record.as_ref();
                res.push_row(held);
                proof {
                    let before = rows(records(db.entries(), seen), columns@);
                    let grown = with_row(before, record_of(held));
                    let after = rows(records(db.entries(), next), columns@);
                    assert forall|c: GeoColumn| columns@.contains(c) implies #[trigger] grown[c]
                        == after[c] by {
                        assert(grown[c] =~= after[c]);
                    }
                    assert(grown =~= after);
                }
            },
        }
        i += 1;
    }
    proof {
        assert(all.take(ips@.len() as int) =~= all);
    }
    Ok(res)
}

/// What the batches of a sequence of chunks give together: the tables
/// one after the other, column by column, or the error of the first chunk
/// that has one.
pub open spec fn union(
    chunks: Seq<BatchModel>,
    columns: Seq<GeoColumn>,
) -> BatchModel
    decreases chunks.len(),
{
    if chunks.len() == 0 {
        Ok(empty_table(columns))
    } else {
        match union(chunks.drop_last(), columns) {
            Err(e) => Err(e),
            Ok(table) => match chunks.last() {
                Err(e) => Err(e),
                Ok(more) => Ok(with_rows_of(table, more)),
            },
        }
    }
}

/// What each batch gave, texts as their characters.
pub open spec fn batch_views(batches: Seq<Result<ColumnTable<'_>, PandasMaxmindError>>) -> Seq<BatchModel> {
    Seq::new(batches.len(), |i: int| batch_view(batches[i]))
}

/// An error among the first chunks is the error of them all.
pub proof fn lemma_union_error_stays(
    chunks: Seq<BatchModel>,
    columns: Seq<GeoColumn>,
    n: int,
)
    requires
        0 <= n <= chunks.len(),
        union(chunks.take(n), columns) is Err,
    ensures
        union(chunks, columns) == union(chunks.take(n), columns),
    decreases chunks.len() - n,
{
    if n == chunks.len() {
        assert(chunks.take(n) =~= chunks);
    } else {
        assert(chunks.take(n + 1).drop_last() =~= chunks.take(n));
        lemma_union_error_stays(chunks, columns, n + 1);
    }
}

/// The union of tables has the requested columns and no other.
pub proof fn lemma_union_columns(
    chunks: Seq<BatchModel>,
    columns: Seq<GeoColumn>,
)
    ensures
        union(chunks, columns) matches Ok(table) ==> table.dom() == empty_table(columns).dom(),
    decreases chunks.len(),
{
    if chunks.len() > 0 {
        lemma_union_columns(chunks.drop_last(), columns);
        if let Ok(table) = union(chunks, columns) {
            assert(table.dom() =~= empty_table(columns).dom());
        }
    }
}

/// Puts the batches of the chunks of a batch together, in the order of
/// the chunks: each column gets the values of the chunks one after the
/// other. Where a chunk failed, the first such failure is the result. No
/// chunk has a column that was not requested.
pub fn union_chunks<'r>(
    chunks: Vec<Result<ColumnTable<'r>, PandasMaxmindError>>,
    columns: &[GeoColumn],
) -> (res: Result<ColumnTable<'r>, PandasMaxmindError>)
    requires
        forall|i: int|
            0 <= i < chunks@.len() ==> ((#[trigger] chunks@[i]) matches Ok(table)
                ==> table@.dom().subset_of(empty_table(columns@).dom())),
    ensures
        batch_view(res) == union(batch_views(chunks@), columns@),
{
    let mut res = ColumnTable::new(columns);
    let ghost all = batch_views(chunks@);
    proof {
        assert(all.take(0) =~= Seq::empty());
    }
    for chunk in it: chunks
        invariant
            all == batch_views(it.seq()),
            forall|i: int|
                0 <= i < it.seq().len() ==> ((#[trigger] it.seq()[i]) matches Ok(table)
                    ==> table@.dom().subset_of(empty_table(columns@).dom())),
            union(all.take(it.index() as int), columns@) == Ok::<TableModel, ErrorModel>(res@),
    {
        let ghost n = it.index() as int;
        proof {
            assert(all.take(n + 1).drop_last() =~= all.take(n));
            assert(all.take(n + 1).last() == batch_view(chunk));
            lemma_union_columns(all.take(n), columns@);
        }
        match chunk {
            Err(e) => {
                proof {
                    lemma_union_error_stays(all, columns@, n + 1);
                }
                return Err(e);
            },
            Ok(table) => {
                res.append(table);
            },
        }
    }
    proof {
        assert(all.take(all.len() as int) =~= all);
    }
    Ok(res)
}

} // verus!
