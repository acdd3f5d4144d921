//! The order of the aliases inside a pattern: longer aliases first.
//!
//! Where several alternatives of a pattern match at one place, the one that
//! is written first wins. An alias that is the beginning of another ("m" of
//! "mile") must therefore stand behind it.

use vstd::prelude::*;
use crate::table::{Entry, Row, UnitTable};
use crate::text::{byte_len, byte_len_of, lemma_bytes_of_concat};

verus! {

/// The rows that a list of entries holds.
pub open spec fn rows_of(entries: Seq<Entry>) -> Seq<Row> {
    Seq::new(entries.len(), |i: int| entries[i]@)
}

/// No row stands in front of a row with a longer alias.
pub open spec fn longest_comes_first(rows: Seq<Row>) -> bool {
    forall|i: int, j: int|
        0 <= i <= j < rows.len() ==> byte_len(rows[i].0) >= byte_len(rows[j].0)
}

/// Where a row with an alias of `len` bytes goes: behind the leading rows
/// whose aliases are at least as long.
pub open spec fn slot(rows: Seq<Row>, len: int) -> int
    decreases rows.len(),
{
    if rows.len() == 0 || byte_len(rows[0].0) < len {
        0
    } else {
        1 + slot(rows.drop_first(), len)
    }
}

/// The rows ordered by the length of their aliases in bytes, longest first.
/// Rows with aliases of one length keep the order in which they came.
pub open spec fn longest_first(rows: Seq<Row>) -> Seq<Row>
    decreases rows.len(),
{
    if rows.len() == 0 {
        Seq::empty()
    } else {
        let rest = longest_first(rows.drop_last());
        rest.insert(slot(rest, byte_len(rows.last().0)), rows.last())
    }
}

/// The slot lies behind rows that are at least as long and, where it is not
/// the end, in front of a shorter one.
pub proof fn lemma_slot(rows: Seq<Row>, len: int)
    ensures
        0 <= slot(rows, len) <= rows.len(),
        forall|i: int| 0 <= i < slot(rows, len) ==> byte_len(#[trigger] rows[i].0) >= len,
        slot(rows, len) < rows.len() ==> byte_len(rows[slot(rows, len)].0) < len,
    decreases rows.len(),
{
    if !(rows.len() == 0 || byte_len(rows[0].0) < len) {
        let tail = rows.drop_first();
        lemma_slot(tail, len);
        assert forall|i: int| 0 <= i < slot(rows, len) implies byte_len(#[trigger] rows[i].0)
            >= len by {
            if i > 0 {
                assert(tail[i - 1] == rows[i]);
            }
        }
        if slot(rows, len) < rows.len() {
            assert(tail[slot(tail, len)] == rows[slot(rows, len)]);
        }
    }
}

/// A row put into its slot leaves the order intact, and adds the row and
/// nothing else.
pub proof fn lemma_insert_at_slot(rows: Seq<Row>, row: Row)
    requires
        longest_comes_first(rows),
    ensures
        longest_comes_first(rows.insert(slot(rows, byte_len(row.0)), row)),
        rows.insert(slot(rows, byte_len(row.0)), row).len() == rows.len() + 1,
        rows.insert(slot(rows, byte_len(row.0)), row).to_multiset() == rows.to_multiset().insert(
            row,
        ),
{
    let len = byte_len(row.0);
    let p = slot(rows, len);
    let out = rows.insert(p, row);
    lemma_slot(rows, len);
    rows.insert_ensures(p, row);
    assert forall|i: int, j: int| 0 <= i <= j < out.len() implies byte_len(out[i].0) >= byte_len(
        out[j].0,
    ) by {
        if i < p && j > p {
            assert(out[i] == rows[i]);
            assert(out[j] == rows[j - 1]);
        } else if i < p && j == p {
            assert(out[i] == rows[i]);
        } else if i < p {
            assert(out[i] == rows[i]);
            assert(out[j] == rows[j]);
        } else if i == p && j > p {
            assert(out[j] == rows[j - 1]);
            assert(byte_len(rows[p].0) >= byte_len(rows[j - 1].0));
        } else if i > p {
            assert(out[i] == rows[i - 1]);
            assert(out[j] == rows[j - 1]);
        }
    }
    assert(out.remove(p) =~= rows);
    vstd::seq_lib::to_multiset_remove(out, p);
    out.to_multiset_ensures();
    assert(out.contains(row)) by {
        assert(out[p] == row);
    }
    assert(out.to_multiset() =~= rows.to_multiset().insert(row));
}

/// The ordered rows are the rows that were given, each as often as it was
/// given, and no row stands in front of one with a longer alias.
pub proof fn lemma_longest_first(rows: Seq<Row>)
    ensures
        longest_first(rows).len() == rows.len(),
        longest_first(rows).to_multiset() == rows.to_multiset(),
        longest_comes_first(longest_first(rows)),
    decreases rows.len(),
{
    if rows.len() == 0 {
        assert(rows =~= Seq::<Row>::empty());
    } else {
        let head = rows.drop_last();
        lemma_longest_first(head);
        lemma_insert_at_slot(longest_first(head), rows.last());
        assert(head.push(rows.last()) =~= rows);
        vstd::seq_lib::to_multiset_build(head, rows.last());
        assert(longest_first(rows).to_multiset() =~= rows.to_multiset());
    }
}

/// A text that another text begins with, and that is not all of it, is
/// shorter in bytes.
pub proof fn lemma_beginning_is_shorter(short: Seq<char>, long: Seq<char>)
    requires
        short.len() < long.len(),
        long.take(short.len() as int) == short,
    ensures
        byte_len(short) < byte_len(long),
{
    let rest = long.skip(short.len() as int);
    assert(long =~= short + rest);
    lemma_bytes_of_concat(short, rest);
    assert(byte_len(rest) > 0) by {
        reveal_with_fuel(vstd::utf8::encode_utf8, 2);
    }
}

/// Longest-alias precedence: among the ordered rows, an alias stands in
/// front of every alias that it begins with and that is shorter than itself.
pub proof fn lemma_longer_alias_stands_first(rows: Seq<Row>, i: int, j: int)
    requires
        0 <= i < rows.len(),
        0 <= j < rows.len(),
        longest_first(rows)[j].0.len() < longest_first(rows)[i].0.len(),
        longest_first(rows)[i].0.take(longest_first(rows)[j].0.len() as int) == longest_first(
            rows,
        )[j].0,
    ensures
        i < j,
{
    let ordered = longest_first(rows);
    lemma_longest_first(rows);
    lemma_beginning_is_shorter(ordered[j].0, ordered[i].0);
}

/// The rows of the table, longest alias first.
pub fn longest_first_of(table: &UnitTable) -> (ordered: Vec<Entry>)
    ensures
        rows_of(ordered@) == longest_first(table.rows()),
{
    let mut ordered: Vec<Entry> = Vec::new();
    let mut i: usize = 0;
    assert(rows_of(ordered@) =~= longest_first(table.rows().take(0)));
    let rows = table.len();
    loop
        invariant_except_break
            i <= table.rows().len(),
            rows == table.rows().len(),
            rows_of(ordered@) == longest_first(table.rows().take(i as int)),
        ensures
            i == table.rows().len(),
            rows_of(ordered@) == longest_first(table.rows().take(i as int)),
        decreases table.rows().len() - i,
    {
        let entry = match table.entry(i) {
            Some(entry) => entry,
            None => {
                break ;
            },
        };
        let len = byte_len_of(entry.alias.as_str());
        let ghost before = rows_of(ordered@);
        let mut p: usize = 0;
        assert(before.skip(0) =~= before);
        while p < ordered.len() && byte_len_of(ordered[p].alias.as_str()) >= len
            invariant
                p <= ordered.len(),
                before == rows_of(ordered@),
                slot(before, len as int) == p + slot(before.skip(p as int), len as int),
            decreases ordered.len() - p,
        {
            assert(before.skip(p as int).drop_first() =~= before.skip(p + 1));
            p += 1;
        }
        assert(slot(before, len as int) == p);
        ordered.insert(p, Entry { alias: entry.alias.clone(), unit: entry.unit });
        proof {
            let next = table.rows().take(i + 1);
            assert(next.drop_last() =~= table.rows().take(i as int));
            assert(next.last() == entry@);
            assert(rows_of(ordered@) =~= before.insert(p as int, entry@));
        }
        i += 1;
    }
    assert(table.rows().take(i as int) =~= table.rows());
    ordered
}

} // verus!
