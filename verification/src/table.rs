//! The result of a batch: for each requested column, its values in the
//! order of the addresses.

use vstd::prelude::*;
use crate::geo_column::{column_at, GeoColumn, COLUMN_COUNT};
use crate::lookup_result::{values_of, LookupResult, LookupValue};
use crate::record::{column_value, extract, record_of, Record, RecordModel};

verus! {

/// A table as a map: for each of its columns, the values of the column in
/// the order of the rows.
pub type TableModel = Map<GeoColumn, Seq<LookupValue>>;

/// A table with the given columns and no row.
pub open spec fn empty_table(columns: Seq<GeoColumn>) -> TableModel {
    Map::new(|c: GeoColumn| columns.contains(c), |c: GeoColumn| Seq::empty())
}

/// A table with one row more: in each of its columns, the value of that
/// column for the record.
pub open spec fn with_row(
    table: TableModel,
    record: Option<RecordModel>,
) -> TableModel {
    Map::new(
        |c: GeoColumn| table.dom().contains(c),
        |c: GeoColumn| table[c].push(column_value(record, c)),
    )
}

/// A table followed by another: each column of the first with the values
/// that the second has for it at its end.
pub open spec fn with_rows_of(
    table: TableModel,
    other: TableModel,
) -> TableModel {
    Map::new(
        |c: GeoColumn| table.dom().contains(c),
        |c: GeoColumn|
            if other.dom().contains(c) {
                table[c] + other[c]
            } else {
                table[c]
            },
    )
}

/// Columns of values, keyed by column. A column is there from the moment
/// the table is made, with or without values.
#[derive(Debug)]
pub struct ColumnTable<'r> {
    slots: Vec<Option<Vec<LookupResult<'r>>>>,
}

impl<'r> View for ColumnTable<'r> {
    type V = TableModel;

    closed spec fn view(&self) -> TableModel {
        Map::new(
            |c: GeoColumn| self.slots@[c.place()] is Some,
            |c: GeoColumn| values_of(self.slots@[c.place()]->0@),
        )
    }
}

impl<'r> ColumnTable<'r> {
    #[verifier::type_invariant]
    spec fn one_slot_for_each_column(self) -> bool {
        self.slots@.len() == COLUMN_COUNT
    }

    /// A table with the given columns, each without a value. A column
    /// named twice is there once.
    pub fn new(columns: &[GeoColumn]) -> (res: Self)
        ensures
            res@ == empty_table(columns@),
    {
        let mut slots: Vec<Option<Vec<LookupResult<'r>>>> = Vec::new();
        let mut k: usize = 0;
        while k < COLUMN_COUNT
            invariant
                k <= COLUMN_COUNT,
                slots@.len() == k,
                forall|j: int| 0 <= j < k ==> slots@[j] is None,
            decreases COLUMN_COUNT - k,
        {
            slots.push(None);
            k += 1;
        }
        let mut i: usize = 0;
        while i < columns.len()
            invariant
                i <= columns@.len(),
                slots@.len() == COLUMN_COUNT,
                forall|c: GeoColumn| #[trigger]
                    (slots@[c.place()] is Some) <==> columns@.take(i as int).contains(c),
                forall|j: int|
                    0 <= j < COLUMN_COUNT ==> (#[trigger] slots@[j] matches Some(values)
                        ==> values@.len() == 0),
            decreases columns@.len() - i,
        {
            let column = columns[i];
            let ghost before = slots@;
            if slots[column.index()].is_none() {
                slots[column.index()] = Some(Vec::new());
            }
            proof {
                let seen = columns@.take(i as int);
                let now = columns@.take(i + 1);
                assert(now =~= seen.push(column));
                assert forall|c: GeoColumn| #[trigger]
                    (slots@[c.place()] is Some) <==> now.contains(c) by {
                    if c == column {
                        assert(now[i as int] == c);
                    } else {
                        assert(slots@[c.place()] == before[c.place()]);
                        if seen.contains(c) {
                            let j = choose|j: int| 0 <= j < seen.len() && seen[j] == c;
                            assert(now[j] == c);
                        }
                        if now.contains(c) {
                            let j = choose|j: int| 0 <= j < now.len() && now[j] == c;
                            assert(seen[j] == c);
                        }
                    }
                }
            }
            i += 1;
        }
        let res = ColumnTable { slots };
        proof {
            assert(columns@.take(columns@.len() as int) =~= columns@);
            assert forall|c: GeoColumn| res@.dom().contains(c) implies #[trigger] res@[c]
                == Seq::<LookupValue>::empty() by {
                assert(values_of(res.slots@[c.place()]->0@) =~= Seq::empty());
            }
            assert(res@ =~= empty_table(columns@));
        }
        res
    }

    /// Whether the table has the column.
    pub fn contains_key(&self, column: &GeoColumn) -> (res: bool)
        ensures
            res == self@.dom().contains(*column),
    {
        proof {
            use_type_invariant(self);
        }
        self.slots[column.index()].is_some()
    }

    /// The values of a column, if the table has the column.
    pub fn get(&self, column: &GeoColumn) -> (res: Option<&Vec<LookupResult<'r>>>)
        ensures
            match res {
                Some(values) => self@.dom().contains(*column) && values_of(values@)
                    == self@[*column],
                None => !self@.dom().contains(*column),
            },
    {
        proof {
            use_type_invariant(self);
        }
        self.slots[column.index()].as_ref()
    }

    /// Adds one row: to each column its value for the record.
    pub fn push_row(&mut self, record: Option<&Record<'r>>)
        ensures
            final(self)@ == with_row(old(self)@, record_of(record)),
    {
        proof {
            use_type_invariant(&*self);
        }
        let mut k: usize = 0;
        while k < COLUMN_COUNT
            invariant
                k <= COLUMN_COUNT,
                self.slots@.len() == COLUMN_COUNT,
                forall|j: int|
                    k <= j < COLUMN_COUNT ==> #[trigger] self.slots@[j] == old(self).slots@[j],
                forall|j: int|
                    0 <= j < k ==> match #[trigger] old(self).slots@[j] {
                        Some(values) => self.slots@[j] matches Some(grown) && values_of(grown@)
                            == values_of(values@).push(
                            column_value(record_of(record), column_at(j)),
                        ),
                        None => self.slots@[j] is None,
                    },
            decreases COLUMN_COUNT - k,
        {
            let value = extract(record, GeoColumn::from_index(k));
            match &mut self.slots[k] {
                Some(values) => {
                    let ghost shorter = values@;
                    values.push(value);
                    assert(values_of(shorter.push(value)) =~= values_of(shorter).push(value@));
                },
                None => {},
            }
            k += 1;
        }
        proof {
            assert forall|c: GeoColumn| column_at(c.place()) == c by {}
            assert(self@ =~= with_row(old(self)@, record_of(record)));
        }
    }

    /// Moves the values of another table to the end of this one's columns,
    /// column by column. The other table has no column that this one lacks.
    pub fn append(&mut self, other: ColumnTable<'r>)
        requires
            other@.dom().subset_of(old(self)@.dom()),
        ensures
            final(self)@ == with_rows_of(old(self)@, other@),
    {
        proof {
            use_type_invariant(&*self);
            use_type_invariant(&other);
        }
        let ghost added = other.slots@;
        proof {
            assert forall|j: int| 0 <= j < COLUMN_COUNT && (#[trigger] added[j]) is Some implies old(
                self,
            ).slots@[j] is Some by {
                assert(column_at(j).place() == j);
                assert(other@.dom().contains(column_at(j)));
                assert(old(self)@.dom().contains(column_at(j)));
            }
        }
        let mut rest = other.slots;
        let mut k: usize = 0;
        while k < COLUMN_COUNT
            invariant
                k <= COLUMN_COUNT,
                self.slots@.len() == COLUMN_COUNT,
                old(self).slots@.len() == COLUMN_COUNT,
                rest@.len() == COLUMN_COUNT,
                added.len() == COLUMN_COUNT,
                forall|j: int| k <= j < COLUMN_COUNT ==> #[trigger] rest@[j] == added[j],
                forall|j: int|
                    0 <= j < COLUMN_COUNT && (#[trigger] added[j]) is Some ==> old(
                        self,
                    ).slots@[j] is Some,
                forall|j: int|
                    k <= j < COLUMN_COUNT ==> #[trigger] self.slots@[j] == old(self).slots@[j],
                forall|j: int|
                    0 <= j < k ==> match #[trigger] old(self).slots@[j] {
                        Some(values) => self.slots@[j] matches Some(grown) && values_of(grown@)
                            == (match added[j] {
                            Some(more) => values_of(values@) + values_of(more@),
                            None => values_of(values@),
                        }),
                        None => self.slots@[j] is None,
                    },
            decreases COLUMN_COUNT - k,
        {
            let taken = rest[k].take();
            match &mut self.slots[k] {
                Some(values) => {
                    match taken {
                        Some(mut more) => {
                            let ghost shorter = values@;
                            let ghost tail = more@;
                            values.append(&mut more);
                            assert(values_of(shorter + tail) =~= values_of(shorter) + values_of(
                                tail,
                            ));
                        },
                        None => {},
                    }
                },
                None => {},
            }
            k += 1;
        }
        proof {
            assert forall|c: GeoColumn| other@.dom().contains(c) implies old(
                self,
            )@.dom().contains(c) by {}
            assert(added == other.slots@);
            assert(self@ =~= with_rows_of(old(self)@, other@));
        }
    }

    /// Takes the table apart: its columns in the order in which the
    /// columns are declared, each with its values.
    pub fn into_columns(self) -> (res: Vec<(GeoColumn, Vec<LookupResult<'r>>)>)
        ensures
            forall|i: int|
                0 <= i < res@.len() ==> self@.dom().contains((#[trigger] res@[i]).0) && values_of(
                    res@[i].1@,
                ) == self@[res@[i].0],
            forall|i: int, j: int|
                0 <= i < j < res@.len() ==> (#[trigger] res@[i]).0.place() < (
                #[trigger] res@[j]).0.place(),
            forall|c: GeoColumn|
                self@.dom().contains(c) ==> exists|i: int|
                    0 <= i < res@.len() && (#[trigger] res@[i]).0 == c,
    {
        proof {
            use_type_invariant(&self);
        }
        let ghost held = self.slots@;
        let mut rest = self.slots;
        let mut res: Vec<(GeoColumn, Vec<LookupResult<'r>>)> = Vec::new();
        let mut k: usize = 0;
        while k < COLUMN_COUNT
            invariant
                k <= COLUMN_COUNT,
                rest@.len() == COLUMN_COUNT,
                held.len() == COLUMN_COUNT,
                forall|j: int| k <= j < COLUMN_COUNT ==> #[trigger] rest@[j] == held[j],
                forall|i: int|
                    0 <= i < res@.len() ==> {
                        let place = (#[trigger] res@[i]).0.place();
                        &&& place < k
                        &&& held[place] matches Some(values) && values@ == res@[i].1@
                    },
                forall|i: int, j: int|
                    0 <= i < j < res@.len() ==> (#[trigger] res@[i]).0.place() < (
                    #[trigger] res@[j]).0.place(),
                forall|j: int|
                    0 <= j < k && (#[trigger] held[j]) is Some ==> exists|i: int|
                        0 <= i < res@.len() && (#[trigger] res@[i]).0 == column_at(j),
            decreases COLUMN_COUNT - k,
        {
            let taken = rest[k].take();
            match taken {
                Some(values) => {
                    let ghost before = res@;
                    res.push((GeoColumn::from_index(k), values));
                    proof {
                        let last = before.len() as int;
                        assert forall|j: int| 0 <= j <= k && (#[trigger] held[j]) is Some implies (
                        exists|i: int|
                            0 <= i < res@.len() && (#[trigger] res@[i]).0 == column_at(j)) by {
                            if j == k {
                                assert(res@[last].0 == column_at(j));
                            } else {
                                let i = choose|i: int|
                                    0 <= i < before.len() && (#[trigger] before[i]).0 == column_at(
                                        j,
                                    );
                                assert(res@[i].0 == column_at(j));
                            }
                        }
                    }
                },
                None => {},
            }
            k += 1;
        }
        proof {
            assert forall|c: GeoColumn| column_at(c.place()) == c by {}
            assert forall|c: GeoColumn| self@.dom().contains(c) implies exists|i: int|
                0 <= i < res@.len() && (#[trigger] res@[i]).0 == c by {
                assert(held[c.place()] is Some);
            }
        }
        res
    }
}

} // verus!
