//! What holds of every batch.

use vstd::prelude::*;
use crate::database::{ip_literal, Entries, GeoDatabase};
use crate::errors::ErrorModel;
use crate::geo_column::GeoColumn;
use crate::geolocate::{
    failure, fault_of, located, records, resolve, rows, texts, union, BatchModel,
};
use crate::lookup_result::LookupValue;
use crate::record::{absent_value, column_value};
use crate::table::{empty_table, with_rows_of, TableModel};

verus! {

/// A batch fails exactly when one of its texts meets a fault in the
/// database, and then with the fault of the first text that does.
pub proof fn lemma_failure_is_first_fault(entries: Entries, ips: Seq<Seq<char>>)
    ensures
        match failure(entries, ips) {
            Some(report) => exists|i: int|
                0 <= i < ips.len() && #[trigger] fault_of(entries, ips[i]) == Some(report)
                    && forall|j: int| 0 <= j < i ==> (#[trigger] fault_of(entries, ips[j])) is None,
            None => forall|i: int|
                0 <= i < ips.len() ==> (#[trigger] fault_of(entries, ips[i])) is None,
        },
    decreases ips.len(),
{
    if ips.len() > 0 {
        let front = ips.drop_last();
        let last = ips.len() - 1;
        lemma_failure_is_first_fault(entries, front);
        assert forall|i: int| 0 <= i < front.len() implies front[i] == ips[i] by {}
        match failure(entries, front) {
            Some(report) => {
                let i = choose|i: int|
                    0 <= i < front.len() && #[trigger] fault_of(entries, front[i]) == Some(report)
                        && forall|j: int|
                        0 <= j < i ==> (#[trigger] fault_of(entries, front[j])) is None;
                assert(fault_of(entries, ips[i]) == Some(report));
                assert forall|j: int| 0 <= j < i implies (#[trigger] fault_of(
                    entries,
                    ips[j],
                )) is None by {
                    assert(fault_of(entries, front[j]) is None);
                }
            },
            None => {
                assert forall|j: int| 0 <= j < last implies (#[trigger] fault_of(
                    entries,
                    ips[j],
                )) is None by {
                    assert(fault_of(entries, front[j]) is None);
                }
                if let Some(report) = fault_of(entries, ips.last()) {
                    assert(fault_of(entries, ips[last]) == Some(report));
                }
            },
        }
    }
}

/// In the table of a batch every requested column is there, with one
/// value for each address.
pub proof fn lemma_columns_aligned(
    entries: Entries,
    ips: Seq<Seq<char>>,
    columns: Seq<GeoColumn>,
    column: GeoColumn,
)
    requires
        columns.contains(column),
    ensures
        located(entries, ips, columns) matches Ok(table) ==> table.dom().contains(column)
            && table[column].len() == ips.len(),
{
}

/// A text that denotes no address, and an address that the database does
/// not hold, are no error, and give an absent value in every requested
/// column.
pub proof fn lemma_no_record_is_absence(
    entries: Entries,
    ips: Seq<Seq<char>>,
    columns: Seq<GeoColumn>,
    i: int,
    column: GeoColumn,
)
    requires
        0 <= i < ips.len(),
        columns.contains(column),
        match ip_literal(ips[i]) {
            Some(address) => entries[address] is NotFound,
            None => true,
        },
    ensures
        resolve(entries, ips[i]) is Ok,
        located(entries, ips, columns) matches Ok(table) ==> table[column][i] == absent_value(
            column,
        ) && table[column][i].is_absent(),
{
}

/// A batch in which no text has a record does not fail.
pub proof fn lemma_batch_without_records(
    entries: Entries,
    ips: Seq<Seq<char>>,
    columns: Seq<GeoColumn>,
)
    requires
        forall|i: int|
            0 <= i < ips.len() ==> match #[trigger] ip_literal(ips[i]) {
                Some(address) => entries[address] is NotFound,
                None => true,
            },
    ensures
        located(entries, ips, columns) is Ok,
{
    lemma_failure_is_first_fault(entries, ips);
    if let Some(report) = failure(entries, ips) {
        let i = choose|i: int|
            0 <= i < ips.len() && #[trigger] fault_of(entries, ips[i]) == Some(report);
        assert(ip_literal(ips[i]) is None || ip_literal(ips[i]) is Some);
    }
}

/// A batch of no address gives every requested column, each without a
/// value.
pub proof fn lemma_empty_batch(entries: Entries, columns: Seq<GeoColumn>)
    ensures
        located(entries, Seq::empty(), columns) == Ok::<TableModel, ErrorModel>(empty_table(columns)),
        forall|column: GeoColumn|
            columns.contains(column) ==> empty_table(columns).dom().contains(column)
                && #[trigger] empty_table(columns)[column].len() == 0,
{
    let none = rows(records(entries, Seq::empty()), columns);
    assert forall|c: GeoColumn| columns.contains(c) implies #[trigger] none[c] == Seq::<
        LookupValue,
    >::empty() by {
        assert(none[c] =~= Seq::empty());
    }
    assert(none =~= empty_table(columns));
}

/// The number of chunks into which so many items fall, each chunk but the
/// last of the given size, the last of what is left.
pub open spec fn chunk_count(len: nat, size: nat) -> nat {
    ((len + size - 1) / (size as int)) as nat
}

/// The place at which chunk `k` begins; for `k` past the last chunk, the
/// end.
pub open spec fn chunk_start(len: nat, size: nat, k: int) -> int {
    if k * size < len {
        k * size
    } else {
        len as int
    }
}

/// Chunk `k` of the items.
pub open spec fn chunk<T>(items: Seq<T>, size: nat, k: int) -> Seq<T> {
    items.subrange(chunk_start(items.len(), size, k), chunk_start(items.len(), size, k + 1))
}

/// What the batches of the chunks of a batch give, chunk by chunk.
pub open spec fn chunked(
    entries: Entries,
    ips: Seq<Seq<char>>,
    columns: Seq<GeoColumn>,
    size: nat,
) -> Seq<BatchModel> {
    Seq::new(
        chunk_count(ips.len(), size),
        |k: int| located(entries, chunk(ips, size, k), columns),
    )
}

/// The chunks begin one after the other and end at the end.
pub proof fn lemma_chunk_starts(len: nat, size: nat, k: int)
    requires
        size >= 1,
        0 <= k,
    ensures
        0 <= chunk_start(len, size, k) <= chunk_start(len, size, k + 1) <= len,
        k < chunk_count(len, size) ==> chunk_start(len, size, k) < chunk_start(len, size, k + 1),
        k >= chunk_count(len, size) ==> chunk_start(len, size, k) == len,
{
    let count = chunk_count(len, size) as int;
    let total = len + size - 1;
    assert(k * size <= (k + 1) * size) by (nonlinear_arith)
        requires
            size >= 1,
            0 <= k,
    ;
    assert(0 <= k * size) by (nonlinear_arith)
        requires
            size >= 1,
            0 <= k,
    ;
    assert((k + 1) * size == k * size + size) by (nonlinear_arith);
    assert(total == (total / (size as int)) * size + total % (size as int) && 0 <= total % (
    size as int) < size) by (nonlinear_arith)
        requires
            size >= 1,
            total >= 0,
    ;
    if k < count {
        assert(k * size < len) by (nonlinear_arith)
            requires
                k + 1 <= count,
                count * size <= len + size - 1,
                size >= 1,
        ;
    } else {
        assert(k * size >= len) by (nonlinear_arith)
            requires
                k >= count,
                count * size > len - 1,
                size >= 1,
        ;
    }
}

/// The fault of two runs of texts, one after the other, is that of the
/// first run or, where it has none, that of the second.
pub proof fn lemma_failure_of_both(
    entries: Entries,
    first: Seq<Seq<char>>,
    second: Seq<Seq<char>>,
)
    ensures
        failure(entries, first + second) == match failure(entries, first) {
            Some(report) => Some(report),
            None => failure(entries, second),
        },
    decreases second.len(),
{
    if second.len() == 0 {
        assert(first + second =~= first);
    } else {
        assert((first + second).drop_last() =~= first + second.drop_last());
        assert((first + second).last() == second.last());
        lemma_failure_of_both(entries, first, second.drop_last());
    }
}

/// The batch of two runs of texts, one after the other, is the batch of
/// the first followed by that of the second, or the first error of the
/// two.
pub proof fn lemma_located_of_both(
    entries: Entries,
    first: Seq<Seq<char>>,
    second: Seq<Seq<char>>,
    columns: Seq<GeoColumn>,
)
    ensures
        located(entries, first + second, columns) == match located(entries, first, columns) {
            Err(e) => Err(e),
            Ok(table) => match located(entries, second, columns) {
                Err(e) => Err(e),
                Ok(more) => Ok(with_rows_of(table, more)),
            },
        },
{
    lemma_failure_of_both(entries, first, second);
    if failure(entries, first) is None && failure(entries, second) is None {
        let table = rows(records(entries, first), columns);
        let more = rows(records(entries, second), columns);
        let whole = rows(records(entries, first + second), columns);
        assert(records(entries, first + second) =~= records(entries, first) + records(
            entries,
            second,
        ));
        assert forall|c: GeoColumn| columns.contains(c) implies #[trigger] whole[c] == with_rows_of(
            table,
            more,
        )[c] by {
            assert(whole[c] =~= table[c] + more[c]);
        }
        assert(whole =~= with_rows_of(table, more));
    }
}

/// The union of the first `n` chunks of a batch is the batch of the texts
/// in them.
proof fn lemma_union_of_first_chunks(
    entries: Entries,
    ips: Seq<Seq<char>>,
    columns: Seq<GeoColumn>,
    size: nat,
    n: int,
)
    requires
        size >= 1,
        0 <= n <= chunk_count(ips.len(), size),
    ensures
        union(chunked(entries, ips, columns, size).take(n), columns) == located(
            entries,
            ips.take(chunk_start(ips.len(), size, n)),
            columns,
        ),
    decreases n,
{
    let parts = chunked(entries, ips, columns, size);
    if n == 0 {
        assert(parts.take(0) =~= Seq::empty());
        assert(0 * size == 0) by (nonlinear_arith);
        assert(ips.take(chunk_start(ips.len(), size, 0)) =~= Seq::empty());
        lemma_empty_batch(entries, columns);
    } else {
        lemma_union_of_first_chunks(entries, ips, columns, size, n - 1);
        lemma_chunk_starts(ips.len(), size, n - 1);
        let from = chunk_start(ips.len(), size, n - 1);
        let to = chunk_start(ips.len(), size, n);
        assert(parts.take(n).drop_last() =~= parts.take(n - 1));
        assert(parts.take(n).last() == located(entries, chunk(ips, size, n - 1), columns));
        assert(ips.take(to) =~= ips.take(from) + chunk(ips, size, n - 1));
        lemma_located_of_both(entries, ips.take(from), chunk(ips, size, n - 1), columns);
    }
}

/// The batches of the chunks of a batch, put together in the order of the
/// chunks, are the batch made in one pass: the same table, value for
/// value, or the same error. This holds for every chunk size of at least
/// one.
pub proof fn lemma_chunked_is_sequential(
    entries: Entries,
    ips: Seq<Seq<char>>,
    columns: Seq<GeoColumn>,
    size: nat,
)
    requires
        size >= 1,
    ensures
        union(chunked(entries, ips, columns, size), columns) == located(entries, ips, columns),
{
    let parts = chunked(entries, ips, columns, size);
    let count = chunk_count(ips.len(), size) as int;
    lemma_union_of_first_chunks(entries, ips, columns, size, count);
    lemma_chunk_starts(ips.len(), size, count);
    assert(parts.take(count) =~= parts);
    assert(ips.take(ips.len() as int) =~= ips);
}

/// The same of batches that are known chunk by chunk: where there is one
/// for each chunk, and each is what the texts of its chunk give, their
/// union is what the texts give in one pass.
pub proof fn lemma_union_of_chunk_batches(
    entries: Entries,
    ips: Seq<Seq<char>>,
    columns: Seq<GeoColumn>,
    size: nat,
    batches: Seq<BatchModel>,
)
    requires
        size >= 1,
        batches.len() == chunk_count(ips.len(), size),
        forall|k: int|
            0 <= k < batches.len() ==> #[trigger] batches[k] == located(
                entries,
                chunk(ips, size, k),
                columns,
            ),
    ensures
        union(batches, columns) == located(entries, ips, columns),
{
    assert(batches =~= chunked(entries, ips, columns, size));
    lemma_chunked_is_sequential(entries, ips, columns, size);
}

/// The texts of a chunk of addresses are the chunk of their texts.
pub proof fn lemma_texts_of_chunk(ips: Seq<String>, size: nat, k: int)
    requires
        size >= 1,
        0 <= k,
    ensures
        texts(chunk(ips, size, k)) == chunk(texts(ips), size, k),
{
    lemma_chunk_starts(ips.len(), size, k);
    assert(texts(chunk(ips, size, k)) =~= chunk(texts(ips), size, k));
}

/// The union of the batches of the chunks of a batch fails only where
/// a text meets a fault, and else has every requested column, with one
/// value for each address: whether or not the chunk size divides the
/// number of addresses, and when it is larger than that number.
pub proof fn lemma_chunked_columns_aligned(
    entries: Entries,
    ips: Seq<Seq<char>>,
    columns: Seq<GeoColumn>,
    size: nat,
    column: GeoColumn,
)
    requires
        size >= 1,
        columns.contains(column),
    ensures
        failure(entries, ips) is None ==> union(
            chunked(entries, ips, columns, size),
            columns,
        ) is Ok,
        union(chunked(entries, ips, columns, size), columns) matches Ok(table)
            ==> table.dom().contains(column) && table[column].len() == ips.len(),
{
    lemma_chunked_is_sequential(entries, ips, columns, size);
    lemma_columns_aligned(entries, ips, columns, column);
}

/// An address that the database holds a record for gives, in every
/// requested column, the value that the record has for the column.
pub proof fn lemma_record_gives_its_values(
    entries: Entries,
    ips: Seq<Seq<char>>,
    columns: Seq<GeoColumn>,
    i: int,
    column: GeoColumn,
)
    requires
        0 <= i < ips.len(),
        columns.contains(column),
        resolve(entries, ips[i]) is Ok,
    ensures
        located(entries, ips, columns) matches Ok(table) ==> table[column][i] == column_value(
            resolve(entries, ips[i])->Ok_0,
            column,
        ),
{
}

/// What a batch gives depends on the database through its entries alone:
/// two databases with the same entries give the same batch, in one pass
/// and in chunks, whichever way each of them holds its file.
pub proof fn lemma_same_entries_same_batch(
    first: GeoDatabase<'_>,
    second: GeoDatabase<'_>,
    ips: Seq<Seq<char>>,
    columns: Seq<GeoColumn>,
    size: nat,
)
    requires
        first.entries() == second.entries(),
        size >= 1,
    ensures
        located(first.entries(), ips, columns) == located(second.entries(), ips, columns),
        union(chunked(first.entries(), ips, columns, size), columns) == located(
            second.entries(),
            ips,
            columns,
        ),
{
    lemma_chunked_is_sequential(first.entries(), ips, columns, size);
}

} // verus!
