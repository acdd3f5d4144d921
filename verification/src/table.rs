//! The unit table: from an alias to the unit it names.

use vstd::prelude::*;
use crate::models::Unit;
use crate::vocabulary::{VOCABULARY, VOCABULARY_LEN};

verus! {

/// A row of the table as contracts see it: the alias and its unit.
pub type Row = (Seq<char>, Unit);

/// One row of the table.
#[derive(Debug)]
pub struct Entry {
    pub alias: String,
    pub unit: Unit,
}

impl View for Entry {
    type V = Row;

    open spec fn view(&self) -> Row {
        (self.alias@, self.unit)
    }
}

/// No alias stands in two rows.
pub open spec fn distinct_aliases(rows: Seq<Row>) -> bool {
    forall|i: int, j: int| 0 <= i < j < rows.len() ==> rows[i].0 != rows[j].0
}

/// Every unit of the rows has a factor greater than zero.
pub open spec fn positive_factors(rows: Seq<Row>) -> bool {
    forall|i: int| 0 <= i < rows.len() ==> (#[trigger] rows[i]).1.wf()
}

/// The mapping that is left when the rows are written one after the other:
/// a later row replaces an earlier one with the same alias.
pub open spec fn mapping_of(rows: Seq<Row>) -> Map<Seq<char>, Unit>
    decreases rows.len(),
{
    if rows.len() == 0 {
        Map::empty()
    } else {
        mapping_of(rows.drop_last()).insert(rows.last().0, rows.last().1)
    }
}

/// Whether row `k` is the last one that holds `alias`.
pub open spec fn is_last_with(rows: Seq<Row>, alias: Seq<char>, k: int) -> bool {
    &&& 0 <= k < rows.len()
    &&& rows[k].0 == alias
    &&& forall|j: int| k < j < rows.len() ==> rows[j].0 != alias
}

/// The index of the last row that holds `alias`, if there is one.
pub open spec fn last_with(rows: Seq<Row>, alias: Seq<char>) -> Option<int> {
    if exists|k: int| is_last_with(rows, alias, k) {
        Some(choose|k: int| is_last_with(rows, alias, k))
    } else {
        None
    }
}

/// The rows after `row` has been written: it takes the place of the last
/// row that holds its alias, or stands at the end where there is none.
pub open spec fn write(rows: Seq<Row>, row: Row) -> Seq<Row> {
    match last_with(rows, row.0) {
        Some(k) => rows.update(k, row),
        None => rows.push(row),
    }
}

/// The rows of a table into which `rows` have been written in turn.
pub open spec fn written(rows: Seq<Row>) -> Seq<Row>
    decreases rows.len(),
{
    if rows.len() == 0 {
        Seq::empty()
    } else {
        write(written(rows.drop_last()), rows.last())
    }
}

/// The rows of the vocabulary, as the table is filled from them.
pub open spec fn vocabulary_rows() -> Seq<Row> {
    Seq::new(
        VOCABULARY_LEN as nat,
        |i: int| (VOCABULARY[i].0@, Unit::spec_from_descriptor(VOCABULARY[i].1)),
    )
}

/// The mapping of the rows holds an alias with the unit of the last row
/// that holds it.
pub proof fn lemma_mapping_holds_last(rows: Seq<Row>, alias: Seq<char>, k: int)
    requires
        is_last_with(rows, alias, k),
    ensures
        mapping_of(rows).contains_key(alias),
        mapping_of(rows)[alias] == rows[k].1,
    decreases rows.len(),
{
    if k < rows.len() - 1 {
        let head = rows.drop_last();
        assert(rows[rows.len() - 1].0 != alias);
        assert(is_last_with(head, alias, k)) by {
            assert forall|j: int| k < j < head.len() implies head[j].0 != alias by {
                assert(head[j] == rows[j]);
            }
        }
        lemma_mapping_holds_last(head, alias, k);
    }
}

/// The mapping of the rows holds no alias that stands in none of them.
pub proof fn lemma_mapping_holds_rows_only(rows: Seq<Row>, alias: Seq<char>)
    requires
        forall|i: int| 0 <= i < rows.len() ==> rows[i].0 != alias,
    ensures
        !mapping_of(rows).contains_key(alias),
    decreases rows.len(),
{
    if rows.len() > 0 {
        let head = rows.drop_last();
        assert(rows[rows.len() - 1].0 != alias);
        assert forall|i: int| 0 <= i < head.len() implies head[i].0 != alias by {
            assert(head[i] == rows[i]);
        }
        lemma_mapping_holds_rows_only(head, alias);
    }
}

/// A new unit in the last row that holds an alias is a new unit for the
/// alias in the mapping.
pub proof fn lemma_mapping_of_update(rows: Seq<Row>, k: int, unit: Unit)
    requires
        0 <= k < rows.len(),
        is_last_with(rows, rows[k].0, k),
    ensures
        mapping_of(rows.update(k, (rows[k].0, unit))) == mapping_of(rows).insert(rows[k].0, unit),
    decreases rows.len(),
{
    let alias = rows[k].0;
    let after = rows.update(k, (alias, unit));
    let head = rows.drop_last();
    if k == rows.len() - 1 {
        assert(after.drop_last() =~= head);
        assert(mapping_of(after) =~= mapping_of(rows).insert(alias, unit));
    } else {
        assert(rows[rows.len() - 1].0 != alias);
        assert(is_last_with(head, alias, k)) by {
            assert forall|j: int| k < j < head.len() implies head[j].0 != alias by {
                assert(head[j] == rows[j]);
            }
        }
        lemma_mapping_of_update(head, k, unit);
        assert(after.drop_last() =~= head.update(k, (alias, unit)));
        assert(after.last() == rows.last());
        assert(mapping_of(after) =~= mapping_of(rows).insert(alias, unit));
    }
}

/// Writing a row writes it into the mapping. It keeps the aliases distinct
/// where they were, and the factors greater than zero where they were and
/// the factor of the row is.
pub proof fn lemma_write(rows: Seq<Row>, row: Row)
    ensures
        mapping_of(write(rows, row)) == mapping_of(rows).insert(row.0, row.1),
        distinct_aliases(rows) ==> distinct_aliases(write(rows, row)),
        positive_factors(rows) && row.1.wf() ==> positive_factors(write(rows, row)),
{
    let after = write(rows, row);
    match last_with(rows, row.0) {
        Some(k) => {
            lemma_mapping_of_update(rows, k, row.1);
            assert(rows.update(k, (rows[k].0, row.1)) == after);
            if distinct_aliases(rows) {
                assert forall|i: int, j: int| 0 <= i < j < after.len() implies after[i].0
                    != after[j].0 by {
                    assert(after[i].0 == rows[i].0);
                    assert(after[j].0 == rows[j].0);
                }
            }
        },
        None => {
            assert(after.drop_last() =~= rows);
            if distinct_aliases(rows) {
                assert forall|i: int, j: int| 0 <= i < j < after.len() implies after[i].0
                    != after[j].0 by {
                    if j == rows.len() {
                        lemma_no_last_no_row(rows, row.0, i);
                    }
                }
            }
        },
    }
}

/// Where no row is the last to hold an alias, no row holds it.
pub proof fn lemma_no_last_no_row(rows: Seq<Row>, alias: Seq<char>, i: int)
    requires
        last_with(rows, alias) is None,
        0 <= i < rows.len(),
    ensures
        rows[i].0 != alias,
    decreases rows.len() - i,
{
    if rows[i].0 == alias {
        if exists|j: int| i < j < rows.len() && rows[j].0 == alias {
            let j = choose|j: int| i < j < rows.len() && rows[j].0 == alias;
            lemma_no_last_no_row(rows, alias, j);
        } else {
            assert(is_last_with(rows, alias, i));
        }
    }
}

/// Rows that are written in turn never hold an alias twice, and they hold
/// what the mapping of the rows holds.
pub proof fn lemma_written(rows: Seq<Row>)
    ensures
        distinct_aliases(written(rows)),
        mapping_of(written(rows)) == mapping_of(rows),
        positive_factors(rows) ==> positive_factors(written(rows)),
    decreases rows.len(),
{
    if rows.len() > 0 {
        lemma_written(rows.drop_last());
        lemma_write(written(rows.drop_last()), rows.last());
        if positive_factors(rows) {
            let head = rows.drop_last();
            assert forall|i: int| 0 <= i < head.len() implies (#[trigger] head[i]).1.wf() by {
                assert(head[i] == rows[i]);
            }
            assert(rows[rows.len() - 1].1.wf());
        }
    }
}

/// Every unit of the vocabulary has a factor greater than zero.
pub proof fn lemma_vocabulary_factors_positive()
    ensures
        positive_factors(vocabulary_rows()),
        positive_factors(written(vocabulary_rows())),
{
    let rows = vocabulary_rows();
    assert forall|i: int| 0 <= i < rows.len() implies (#[trigger] rows[i]).1.wf() by {
        assert(VOCABULARY[i].1.2 > 0);
    }
    lemma_written(vocabulary_rows());
}

/// The unit table. It is filled once and read afterwards.
#[derive(Debug)]
pub struct UnitTable {
    entries: Vec<Entry>,
}

impl View for UnitTable {
    type V = Map<Seq<char>, Unit>;

    /// The table as a mapping from alias to unit.
    open spec fn view(&self) -> Map<Seq<char>, Unit> {
        mapping_of(self.rows())
    }
}

impl UnitTable {
    /// The rows in the order in which their aliases were first written.
    pub closed spec fn rows(self) -> Seq<Row> {
        Seq::new(self.entries@.len(), |i: int| self.entries@[i]@)
    }

    /// A table is well formed when no alias stands in two of its rows.
    /// A table that was filled by `insert` alone is.
    pub open spec fn wf(self) -> bool {
        distinct_aliases(self.rows())
    }

    /// A table without rows.
    pub fn new() -> (table: UnitTable)
        ensures
            table.wf(),
            table.rows() == Seq::<Row>::empty(),
            table@ == Map::<Seq<char>, Unit>::empty(),
    {
        let table = UnitTable { entries: Vec::new() };
        assert(table.rows() =~= Seq::<Row>::empty());
        table
    }

    /// The number of rows.
    pub fn len(&self) -> (n: usize)
        ensures
            n == self.rows().len(),
    {
        self.entries.len()
    }

    /// The row at `index`, if the table has that many rows.
    pub fn entry(&self, index: usize) -> (entry: Option<&Entry>)
        ensures
            entry is Some <==> index < self.rows().len(),
            entry matches Some(e) ==> e@ == self.rows()[index as int],
    {
        if index < self.entries.len() {
            Some(&self.entries[index])
        } else {
            None
        }
    }

    /// The last row that holds `alias`.
    fn last_position(&self, alias: &String) -> (found: Option<usize>)
        ensures
            match found {
                Some(k) => is_last_with(self.rows(), alias@, k as int),
                None => forall|i: int| 0 <= i < self.rows().len() ==> self.rows()[i].0 != alias@,
            },
            found matches Some(k) ==> last_with(self.rows(), alias@) == Some(k as int),
            found is None ==> last_with(self.rows(), alias@) is None,
    {
        let mut i: usize = self.entries.len();
        while i > 0
            invariant
                i <= self.entries.len(),
                forall|j: int| i <= j < self.rows().len() ==> self.rows()[j].0 != alias@,
            decreases i,
        {
            i -= 1;
            if self.entries[i].alias == *alias {
                proof {
                    let c = choose|k: int| is_last_with(self.rows(), alias@, k);
                    assert(is_last_with(self.rows(), alias@, i as int));
                    assert(c == i);
                }
                return Some(i);
            }
        }
        None
    }

    /// Writes a row. Where the alias stands in the table already, the new
    /// unit takes the place of the old one; otherwise the row is added at
    /// the end.
    pub fn insert(&mut self, alias: &str, unit: Unit)
        ensures
            final(self).rows() == write(old(self).rows(), (alias@, unit)),
            final(self)@ == old(self)@.insert(alias@, unit),
            old(self).wf() ==> final(self).wf(),
    {
        let key = alias.to_owned();
        let ghost before = self.rows();
        proof {
            lemma_write(before, (alias@, unit));
        }
        match self.last_position(&key) {
            Some(k) => {
                self.entries.set(k, Entry { alias: key, unit });
                assert(self.rows() =~= before.update(k as int, (alias@, unit)));
            },
            None => {
                self.entries.push(Entry { alias: key, unit });
                assert(self.rows() =~= before.push((alias@, unit)));
            },
        }
    }

    /// The unit that `alias` names, if the table holds the alias. The
    /// table is searched for the alias as it is given: a caller that takes
    /// the alias from running text brings it to lower case first.
    pub fn lookup(&self, alias: &str) -> (unit: Option<Unit>)
        ensures
            unit == (if self@.contains_key(alias@) {
                Some(self@[alias@])
            } else {
                None
            }),
    {
        let key = alias.to_owned();
        match self.last_position(&key) {
            Some(k) => {
                proof {
                    lemma_mapping_holds_last(self.rows(), alias@, k as int);
                }
                Some(self.entries[k].unit)
            },
            None => {
                proof {
                    lemma_mapping_holds_rows_only(self.rows(), alias@);
                }
                None
            },
        }
    }
}

/// The table of all units that are recognised: the vocabulary, written row
/// by row.
pub fn get_units() -> (table: UnitTable)
    ensures
        table.wf(),
        table.rows() == written(vocabulary_rows()),
        table@ == mapping_of(vocabulary_rows()),
        positive_factors(table.rows()),
{
    let mut table = UnitTable::new();
    let mut i: usize = 0;
    while i < VOCABULARY_LEN
        invariant
            i <= VOCABULARY_LEN,
            table.wf(),
            table.rows() == written(vocabulary_rows().take(i as int)),
        decreases VOCABULARY_LEN - i,
    {
        let row = VOCABULARY[i];
        table.insert(row.0, Unit::from_descriptor(row.1));
        proof {
            let next = vocabulary_rows().take(i + 1);
            assert(next.drop_last() =~= vocabulary_rows().take(i as int));
            assert(next.last() == (row.0@, Unit::spec_from_descriptor(row.1)));
        }
        i += 1;
    }
    proof {
        assert(vocabulary_rows().take(VOCABULARY_LEN as int) =~= vocabulary_rows());
        lemma_written(vocabulary_rows());
        lemma_vocabulary_factors_positive();
    }
    table
}

} // verus!
