//! What the table of a query holds.

use crate::fault::Fault;
use crate::json::{in_order, lists_keys, sorted_keys, JsonView, Object};
use crate::rows::{
    columns_of, executed_step, fresh_collector, no_output, output_of, record_views, with_keys,
    CollectorView, QueryOutput, ReadStepView, RecordView,
};
use crate::text::{
    decimal, digit, lemma_precedes_irreflexive, lemma_precedes_total, lemma_precedes_transitive,
    precedes,
};
use vstd::prelude::*;

verus! {

/// The keys of a finite map can be put in order.
pub proof fn law_keys_can_be_listed(members: Map<Seq<char>, JsonView>)
    requires
        members.dom().finite(),
    ensures
        lists_keys(sorted_keys(members), members),
{
    let keys = lemma_listing(members);
    assert(lists_keys(keys, members));
}

/// A listing of the keys of a finite map.
proof fn lemma_listing(members: Map<Seq<char>, JsonView>) -> (keys: Seq<Seq<char>>)
    requires
        members.dom().finite(),
    ensures
        lists_keys(keys, members),
    decreases members.dom().len(),
{
    if members.dom().len() == 0 {
        let keys = Seq::<Seq<char>>::empty();
        assert(members.dom() =~= Set::empty());
        keys
    } else {
        let key = members.dom().choose();
        let rest = members.remove(key);
        assert(rest.dom() =~= members.dom().remove(key));
        let listed = lemma_listing(rest);
        let at = lemma_place(listed, key, listed.len() as int);
        let keys = listed.insert(at, key);
        assert(!listed.contains(key));
        if at < listed.len() {
            assert(listed[at] != key) by {
                assert(listed.contains(listed[at]));
            }
            lemma_precedes_total(listed[at], key);
            assert(precedes(key, listed[at]));
        }
        assert forall|x: int, y: int| 0 <= x < y < keys.len() implies #[trigger] precedes(
            keys[x],
            keys[y],
        ) by {
            if y < at {
                assert(precedes(listed[x], listed[y]));
            } else if y == at {
                assert(precedes(listed[x], key));
            } else if x < at {
                assert(precedes(listed[x], listed[y - 1]));
            } else if x == at {
                if y - 1 > at {
                    assert(precedes(listed[at], listed[y - 1]));
                    lemma_precedes_transitive(key, listed[at], listed[y - 1]);
                }
            } else {
                assert(precedes(listed[x - 1], listed[y - 1]));
            }
        }
        assert forall|k: Seq<char>| keys.contains(k) <==> members.contains_key(k) by {
            if keys.contains(k) {
                let i = choose|i: int| 0 <= i < keys.len() && keys[i] == k;
                if i < at {
                    assert(listed[i] == k);
                    assert(listed.contains(k));
                } else if i > at {
                    assert(listed[i - 1] == k);
                    assert(listed.contains(k));
                }
            }
            if members.contains_key(k) {
                if k == key {
                    assert(keys[at] == k);
                } else {
                    assert(rest.contains_key(k));
                    assert(listed.contains(k));
                    let i = choose|i: int| 0 <= i < listed.len() && listed[i] == k;
                    if i < at {
                        assert(keys[i] == k);
                    } else {
                        assert(keys[i + 1] == k);
                    }
                }
            }
        }
        keys
    }
}

/// The place of a key in a listing: behind all that come before it.
proof fn lemma_place(listed: Seq<Seq<char>>, key: Seq<char>, n: int) -> (at: int)
    requires
        in_order(listed),
        0 <= n <= listed.len(),
    ensures
        0 <= at <= n,
        forall|i: int| 0 <= i < at ==> precedes(#[trigger] listed[i], key),
        at < n ==> !precedes(listed[at], key),
    decreases n,
{
    if n == 0 {
        0
    } else {
        let at = lemma_place(listed, key, n - 1);
        if at == n - 1 && precedes(listed[at], key) {
            n
        } else {
            at
        }
    }
}

/// Adding keys to distinct columns keeps them distinct, and adds exactly the keys.
proof fn lemma_with_keys(columns: Seq<Seq<char>>, keys: Seq<Seq<char>>)
    ensures
        columns.no_duplicates() ==> with_keys(columns, keys).no_duplicates(),
        columns.is_prefix_of(with_keys(columns, keys)),
        forall|key: Seq<char>| #[trigger]
            with_keys(columns, keys).contains(key) <==> columns.contains(key) || keys.contains(key),
    decreases keys.len(),
{
    let after = with_keys(columns, keys);
    if keys.len() == 0 {
        assert(after =~= columns);
    } else {
        let rest = keys.drop_last();
        let before = with_keys(columns, rest);
        lemma_with_keys(columns, rest);
        assert forall|key: Seq<char>| #[trigger]
            after.contains(key) <==> columns.contains(key) || keys.contains(key) by {
            assert(keys.contains(key) <==> rest.contains(key) || key == keys.last()) by {
                if keys.contains(key) {
                    let i = choose|i: int| 0 <= i < keys.len() && keys[i] == key;
                    if i < rest.len() {
                        assert(rest[i] == key);
                    }
                }
                if rest.contains(key) {
                    let i = choose|i: int| 0 <= i < rest.len() && rest[i] == key;
                    assert(keys[i] == key);
                }
                assert(keys[keys.len() - 1] == keys.last());
            }
            assert(after.contains(key) <==> before.contains(key) || key == keys.last()) by {
                if !before.contains(keys.last()) {
                    assert(after[before.len() as int] == keys.last());
                    if before.contains(key) {
                        let i = choose|i: int| 0 <= i < before.len() && before[i] == key;
                        assert(after[i] == key);
                    }
                    if after.contains(key) {
                        let i = choose|i: int| 0 <= i < after.len() && after[i] == key;
                        if i < before.len() {
                            assert(before[i] == key);
                        }
                    }
                }
            }
        }
        if columns.no_duplicates() && !before.contains(keys.last()) {
            assert forall|i: int, j: int|
                0 <= i < after.len() && 0 <= j < after.len() && i != j implies after[i]
                != after[j] by {
                if i < before.len() {
                    assert(before.contains(before[i]));
                }
                if j < before.len() {
                    assert(before.contains(before[j]));
                }
            }
        }
    }
}

/// No column comes twice.
pub proof fn law_columns_are_distinct(records: Seq<RecordView>)
    ensures
        columns_of(records).no_duplicates(),
    decreases records.len(),
{
    if records.len() > 0 {
        law_columns_are_distinct(records.drop_last());
        lemma_with_keys(columns_of(records.drop_last()), sorted_keys(records.last()));
    }
}

/// The columns are the keys of the records: each key of a record is a column, and each column is
/// a key of some record.
pub proof fn law_columns_are_the_keys(records: Seq<RecordView>, column: Seq<char>)
    requires
        forall|i: int| 0 <= i < records.len() ==> (#[trigger] records[i]).dom().finite(),
    ensures
        columns_of(records).contains(column) <==> exists|i: int|
            0 <= i < records.len() && (#[trigger] records[i]).contains_key(column),
    decreases records.len(),
{
    if records.len() > 0 {
        let rest = records.drop_last();
        let last = records.len() - 1;
        assert forall|i: int| 0 <= i < rest.len() implies (
        #[trigger] rest[i]).dom().finite() by {
            assert(records[i] == rest[i]);
        }
        law_columns_are_the_keys(rest, column);
        assert(records[last].dom().finite());
        law_keys_can_be_listed(records.last());
        lemma_with_keys(columns_of(rest), sorted_keys(records.last()));
        if columns_of(records).contains(column) {
            if columns_of(rest).contains(column) {
                let i = choose|i: int|
                    0 <= i < rest.len() && (#[trigger] rest[i]).contains_key(column);
                assert(records[i].contains_key(column));
            } else {
                assert(records[last].contains_key(column));
            }
        }
        if exists|i: int| 0 <= i < records.len() && (#[trigger] records[i]).contains_key(column) {
            let i = choose|i: int|
                0 <= i < records.len() && (#[trigger] records[i]).contains_key(column);
            if i < last {
                assert(rest[i].contains_key(column));
            }
        }
    }
}

/// The columns of a first record come in the order of strings.
pub proof fn law_first_record_gives_sorted_columns(record: RecordView)
    requires
        record.dom().finite(),
    ensures
        columns_of(seq![record]) == sorted_keys(record),
        in_order(columns_of(seq![record])),
{
    let one = seq![record];
    let keys = sorted_keys(record);
    law_keys_can_be_listed(record);
    assert(one.drop_last() =~= Seq::<RecordView>::empty());
    assert(columns_of(one.drop_last()) =~= Seq::<Seq<char>>::empty());
    lemma_keys_all_new(keys);
}

/// Keys in order are all new to an empty list of columns.
proof fn lemma_keys_all_new(keys: Seq<Seq<char>>)
    requires
        in_order(keys),
    ensures
        with_keys(Seq::empty(), keys) == keys,
    decreases keys.len(),
{
    if keys.len() == 0 {
        assert(keys =~= Seq::<Seq<char>>::empty());
    } else {
        let rest = keys.drop_last();
        assert forall|i: int, j: int| 0 <= i < j < rest.len() implies #[trigger] precedes(
            rest[i],
            rest[j],
        ) by {
            assert(precedes(keys[i], keys[j]));
        }
        lemma_keys_all_new(rest);
        if rest.contains(keys.last()) {
            let i = choose|i: int| 0 <= i < rest.len() && rest[i] == keys.last();
            assert(precedes(keys[i], keys[keys.len() - 1]));
            lemma_precedes_irreflexive(keys.last());
        }
        assert(rest.push(keys.last()) =~= keys);
    }
}

/// The outcome of a query has as many rows as were delivered, up to the number wanted, and each
/// row has a value for each column; it is cut off exactly when more were delivered than wanted.
pub proof fn law_output_shape(delivered: Seq<RecordView>, cap: nat)
    ensures
        output_of(delivered, cap).rows.len() == (if delivered.len() <= cap {
            delivered.len()
        } else {
            cap
        }),
        forall|at: int|
            0 <= at < output_of(delivered, cap).rows.len() ==> (#[trigger] output_of(
                delivered,
                cap,
            ).rows[at]).len() == output_of(delivered, cap).columns.len(),
        output_of(delivered, cap).truncated <==> delivered.len() > cap,
{
}

/// The columns of the first records come first among those of all.
proof fn lemma_columns_grow(records: Seq<RecordView>, n: int)
    requires
        0 <= n <= records.len(),
    ensures
        columns_of(records.take(n)).is_prefix_of(columns_of(records)),
    decreases records.len(),
{
    if n < records.len() {
        let rest = records.drop_last();
        lemma_columns_grow(rest, n);
        assert(rest.take(n) =~= records.take(n));
        lemma_with_keys(columns_of(rest), sorted_keys(records.last()));
    } else {
        assert(records.take(n) =~= records);
    }
}

/// Keys in order add those that are new, in their order.
proof fn lemma_new_keys(columns: Seq<Seq<char>>, keys: Seq<Seq<char>>) -> (new: Seq<Seq<char>>)
    requires
        in_order(keys),
    ensures
        with_keys(columns, keys) == columns + new,
        in_order(new),
        forall|key: Seq<char>| #[trigger]
            new.contains(key) <==> keys.contains(key) && !columns.contains(key),
    decreases keys.len(),
{
    if keys.len() == 0 {
        let new = Seq::<Seq<char>>::empty();
        assert(columns + new =~= columns);
        new
    } else {
        let rest = keys.drop_last();
        let last = keys.last();
        assert forall|i: int, j: int| 0 <= i < j < rest.len() implies #[trigger] precedes(
            rest[i],
            rest[j],
        ) by {
            assert(precedes(keys[i], keys[j]));
        }
        let before = lemma_new_keys(columns, rest);
        assert(!rest.contains(last)) by {
            if rest.contains(last) {
                let i = choose|i: int| 0 <= i < rest.len() && rest[i] == last;
                assert(precedes(keys[i], keys[keys.len() - 1]));
                lemma_precedes_irreflexive(last);
            }
        }
        lemma_with_keys(columns, rest);
        assert forall|key: Seq<char>|
            keys.contains(key) <==> rest.contains(key) || key == last by {
            if keys.contains(key) {
                let i = choose|i: int| 0 <= i < keys.len() && keys[i] == key;
                if i < rest.len() {
                    assert(rest[i] == key);
                }
            }
            if rest.contains(key) {
                let i = choose|i: int| 0 <= i < rest.len() && rest[i] == key;
                assert(keys[i] == key);
            }
            assert(keys[keys.len() - 1] == last);
        }
        if columns.contains(last) {
            before
        } else {
            let new = before.push(last);
            assert((columns + before).push(last) =~= columns + new);
            assert forall|i: int, j: int| 0 <= i < j < new.len() implies #[trigger] precedes(
                new[i],
                new[j],
            ) by {
                if j < before.len() {
                    assert(precedes(before[i], before[j]));
                } else {
                    assert(before.contains(before[i]));
                    let k = choose|k: int| 0 <= k < rest.len() && rest[k] == before[i];
                    assert(precedes(keys[k], keys[keys.len() - 1]));
                }
            }
            assert forall|key: Seq<char>| #[trigger]
                new.contains(key) <==> keys.contains(key) && !columns.contains(key) by {
                if before.contains(key) {
                    let i = choose|i: int| 0 <= i < before.len() && before[i] == key;
                    assert(new[i] == key);
                }
                if new.contains(key) {
                    let i = choose|i: int| 0 <= i < new.len() && new[i] == key;
                    if i < before.len() {
                        assert(before[i] == key);
                    }
                }
                assert(new[before.len() as int] == last);
            }
            new
        }
    }
}

/// One more record leaves the columns that are there in their places and adds its new keys behind
/// them, in the order of strings.
pub proof fn law_new_columns_come_last(records: Seq<RecordView>, record: RecordView) -> (new: Seq<
    Seq<char>,
>)
    requires
        record.dom().finite(),
    ensures
        columns_of(Seq::empty()) == Seq::<Seq<char>>::empty(),
        columns_of(records.push(record)) == columns_of(records) + new,
        in_order(new),
        forall|key: Seq<char>| #[trigger]
            new.contains(key) <==> record.contains_key(key) && !columns_of(records).contains(key),
{
    law_keys_can_be_listed(record);
    assert(records.push(record).drop_last() =~= records);
    lemma_new_keys(columns_of(records), sorted_keys(record))
}

/// The keys of a record are listed completely, each once and in the order of strings.
pub proof fn law_listing_of_keys(members: Map<Seq<char>, JsonView>)
    requires
        members.dom().finite(),
    ensures
        forall|key: Seq<char>| #[trigger]
            sorted_keys(members).contains(key) <==> members.contains_key(key),
        forall|i: int, j: int|
            0 <= i < j < sorted_keys(members).len() ==> #[trigger] precedes(
                sorted_keys(members)[i],
                sorted_keys(members)[j],
            ),
        sorted_keys(members).no_duplicates(),
{
    law_keys_can_be_listed(members);
    let keys = sorted_keys(members);
    assert forall|i: int, j: int| 0 <= i < keys.len() && 0 <= j < keys.len() && i != j implies keys[i]
        != keys[j] by {
        lemma_precedes_irreflexive(keys[i]);
        if i < j {
            assert(precedes(keys[i], keys[j]));
        } else {
            assert(precedes(keys[j], keys[i]));
        }
    }
}

/// Who wants more records gets the same table with more columns and rows: the columns and the rows
/// that fewer records give come first, and each of those rows begins as it did.
pub proof fn law_larger_caps_extend_the_table(delivered: Seq<RecordView>, fewer: nat, more: nat)
    requires
        fewer <= more,
    ensures
        output_of(delivered, fewer).columns.is_prefix_of(output_of(delivered, more).columns),
        output_of(delivered, fewer).rows.len() <= output_of(delivered, more).rows.len(),
        forall|at: int|
            0 <= at < output_of(delivered, fewer).rows.len() ==> (#[trigger] output_of(
                delivered,
                fewer,
            ).rows[at]).is_prefix_of(output_of(delivered, more).rows[at]),
        output_of(delivered, more).truncated ==> output_of(delivered, fewer).truncated,
{
    let small = output_of(delivered, fewer);
    let large = output_of(delivered, more);
    let kept = if delivered.len() <= more {
        delivered
    } else {
        delivered.take(more as int)
    };
    let n = small.rows.len() as int;
    lemma_columns_grow(kept, n);
    assert(kept.take(n) =~= if delivered.len() <= fewer {
        delivered
    } else {
        delivered.take(fewer as int)
    });
    assert forall|at: int| 0 <= at < n implies (#[trigger] small.rows[at]).is_prefix_of(
        large.rows[at],
    ) by {
        assert(kept.take(n)[at] == kept[at]);
        assert forall|c: int| 0 <= c < small.columns.len() implies small.rows[at][c]
            == large.rows[at][c] by {
            assert(small.columns[c] == large.columns[c]);
        }
    }
}

/// Where a kept record has no value for a column, its row has null.
pub proof fn law_missing_values_are_null(
    delivered: Seq<RecordView>,
    cap: nat,
    at: int,
    column: int,
)
    requires
        0 <= at < delivered.len(),
        at < cap,
        0 <= column < output_of(delivered, cap).columns.len(),
        !delivered[at].contains_key(output_of(delivered, cap).columns[column]),
    ensures
        output_of(delivered, cap).rows[at][column] == JsonView::Null,
{
}

/// No value of a kept record is lost: it stands in the record's row under the column of its key.
pub proof fn law_values_are_kept(
    delivered: Seq<RecordView>,
    cap: nat,
    at: int,
    key: Seq<char>,
) -> (column: int)
    requires
        forall|i: int| 0 <= i < delivered.len() ==> (#[trigger] delivered[i]).dom().finite(),
        0 <= at < delivered.len(),
        at < cap,
        delivered[at].contains_key(key),
    ensures
        0 <= column < output_of(delivered, cap).columns.len(),
        output_of(delivered, cap).columns[column] == key,
        output_of(delivered, cap).rows[at][column] == delivered[at][key],
{
    let kept = if delivered.len() <= cap {
        delivered
    } else {
        delivered.take(cap as int)
    };
    assert(kept[at] == delivered[at]);
    assert forall|i: int| 0 <= i < kept.len() implies (#[trigger] kept[i]).dom().finite() by {
        assert(kept[i] == delivered[i]);
    }
    law_columns_are_the_keys(kept, key);
    assert(kept[at].contains_key(key));
    let columns = columns_of(kept);
    let column = choose|column: int| 0 <= column < columns.len() && columns[column] == key;
    column
}

/// Reads a query that delivers `delivered`, step by step until the reading ends.
pub open spec fn read_through(state: CollectorView, delivered: Seq<RecordView>) -> ReadStepView
    decreases delivered.len(),
{
    if delivered.len() == 0 {
        state.fetched(Ok(false))
    } else {
        match state.fetched(Ok(true)) {
            ReadStepView::Decode(state) => read_through(
                state.kept(delivered[0]),
                delivered.drop_first(),
            ),
            step => step,
        }
    }
}

/// Reading the rows of a query one at a time gives the outcome of all of them together.
pub proof fn law_reading_row_by_row(delivered: Seq<RecordView>, cap: nat)
    ensures
        read_through(fresh_collector(cap), delivered) == ReadStepView::Done(
            Ok(output_of(delivered, cap)),
        ),
{
    let start = fresh_collector(cap);
    lemma_read_through(start, delivered);
    assert(start.records + delivered =~= delivered);
}

proof fn lemma_read_through(state: CollectorView, delivered: Seq<RecordView>)
    requires
        state.records.len() <= state.cap,
    ensures
        read_through(state, delivered) == ReadStepView::Done(
            Ok(output_of(state.records + delivered, state.cap)),
        ),
    decreases delivered.len(),
{
    let all = state.records + delivered;
    if delivered.len() == 0 {
        assert(all =~= state.records);
    } else if state.wants_more() {
        let next = state.kept(delivered[0]);
        lemma_read_through(next, delivered.drop_first());
        assert(next.records + delivered.drop_first() =~= all);
    } else {
        assert(all.take(state.cap as int) =~= state.records);
    }
}

/// A row beyond those wanted is never decoded, so it cannot make the reading fail; a row that is
/// wanted is decoded before the next one is fetched.
pub proof fn law_only_wanted_rows_are_decoded(state: CollectorView)
    ensures
        state.wants_more() ==> state.fetched(Ok(true)) == ReadStepView::Decode(state),
        !state.wants_more() ==> state.fetched(Ok(true)) == ReadStepView::Done(
            Ok(state.output(true)),
        ),
{
}

/// A statement that could not be executed, a row that could not be fetched and one that could not
/// be decoded end the reading with the text of the error. A statement that was executed starts it
/// with no records, and a record that was decoded is kept behind the others.
pub proof fn law_reading_step_by_step(
    cap: nat,
    state: CollectorView,
    record: Object,
    text: String,
)
    ensures
        executed_step(cap, Err(text)) == ReadStepView::Done(Err(Fault::Execute(text))),
        executed_step(cap, Ok(())) is Fetch,
        executed_step(cap, Ok(()))->Fetch_0.cap == cap,
        executed_step(cap, Ok(()))->Fetch_0.records.len() == 0,
        state.fetched(Err(text)) == ReadStepView::Done(Err(Fault::Fetch(text))),
        state.decoded(Err(text)) == ReadStepView::Done(Err(Fault::Decode(text))),
        state.decoded(Ok(record)) is Fetch,
        state.decoded(Ok(record))->Fetch_0.cap == state.cap,
        state.decoded(Ok(record))->Fetch_0.records == state.records.push(record@),
{
}

/// The reading ends at the last row with all records that were kept, and at the first row too many
/// with the mark that rows were left out; the table has the same columns and rows either way.
pub proof fn law_reading_ends_with_the_records(state: CollectorView)
    ensures
        state.fetched(Ok(false)) == ReadStepView::Done(Ok(state.output(false))),
        state.records.len() < state.cap ==> state.fetched(Ok(true)) == ReadStepView::Decode(state),
        state.records.len() >= state.cap ==> state.fetched(Ok(true)) == ReadStepView::Done(
            Ok(state.output(true)),
        ),
        !state.output(false).truncated,
        state.output(true).truncated,
        state.output(true).columns == state.output(false).columns,
        state.output(true).rows == state.output(false).rows,
        state.output(true).columns == columns_of(state.records),
        state.output(true).rows.len() == state.records.len(),
{
}

/// An outcome without columns and rows leaves nothing out.
pub proof fn law_empty_outcome()
    ensures
        no_output().columns.len() == 0,
        no_output().rows.len() == 0,
        !no_output().truncated,
{
}

/// The view of an outcome has every column and every cell in its place, and the views of records
/// are those of each of them.
pub proof fn law_view_of_an_outcome(output: QueryOutput, records: Seq<Object>)
    ensures
        output@.columns.len() == output.columns@.len(),
        forall|i: int|
            0 <= i < output.columns@.len() ==> #[trigger] output@.columns[i]
                == output.columns@[i]@,
        output@.rows.len() == output.rows@.len(),
        forall|i: int|
            0 <= i < output.rows@.len() ==> (#[trigger] output@.rows[i]).len()
                == output.rows@[i]@.len(),
        forall|i: int, j: int|
            0 <= i < output.rows@.len() && 0 <= j < output.rows@[i]@.len()
                ==> #[trigger] output@.rows[i][j] == output.rows@[i]@[j]@,
        output@.truncated == output.truncated,
        record_views(records).len() == records.len(),
        forall|i: int|
            0 <= i < records.len() ==> #[trigger] record_views(records)[i] == records[i]@,
{
}

/// The number that a decimal numeral stands for.
pub open spec fn numeral_value(numeral: Seq<char>) -> nat
    decreases numeral.len(),
{
    if numeral.len() == 0 {
        0
    } else {
        10 * numeral_value(numeral.drop_last()) + (numeral.last() as nat - 48) as nat
    }
}

/// The decimal numeral of a number stands for that number.
pub proof fn law_numerals_read_back(n: nat)
    ensures
        numeral_value(decimal(n)) == n,
    decreases n,
{
    let numeral = decimal(n);
    if n < 10 {
        assert(numeral.drop_last() =~= Seq::<char>::empty());
        assert(numeral_value(Seq::empty()) == 0);
        assert(digit(n) as nat == n + 48);
    } else {
        law_numerals_read_back(n / 10);
        assert(numeral.drop_last() =~= decimal(n / 10));
        assert(digit(n % 10) as nat == n % 10 + 48);
    }
}

} // verus!
