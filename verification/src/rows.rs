//! Rows of a query: how the records that a server delivers become a table.

use crate::fault::Fault;
use crate::json::{sorted_keys, views, Json, JsonView, Object};
use crate::text::{same, texts};
use vstd::prelude::*;

verus! {

/// A record: its value under each of its keys.
pub type RecordView = Map<Seq<char>, JsonView>;

/// What the outcome of a query is.
pub struct OutputView {
    pub columns: Seq<Seq<char>>,
    pub rows: Seq<Seq<JsonView>>,
    pub truncated: bool,
}

/// The outcome of a query: its columns, its rows with a value for each column, and whether rows
/// were left out.
#[derive(Debug, PartialEq, Eq)]
pub struct QueryOutput {
    pub columns: Vec<String>,
    pub rows: Vec<Vec<Json>>,
    pub truncated: bool,
}

/// The views of a sequence of rows.
pub open spec fn row_views(rows: Seq<Vec<Json>>) -> Seq<Seq<JsonView>> {
    rows.map_values(|row: Vec<Json>| views(row@))
}

/// The views of a sequence of records.
pub open spec fn record_views(records: Seq<Object>) -> Seq<RecordView> {
    records.map_values(|record: Object| record@)
}

impl QueryOutput {
    /// The outcome as a mathematical object.
    pub open spec fn view(&self) -> OutputView {
        OutputView {
            columns: texts(self.columns@),
            rows: row_views(self.rows@),
            truncated: self.truncated,
        }
    }
}

impl Default for QueryOutput {
    /// The outcome without columns and rows.
    fn default() -> (r: Self)
        ensures
            r@ == no_output(),
    {
        let r = QueryOutput { columns: Vec::new(), rows: Vec::new(), truncated: false };
        assert(texts(r.columns@) =~= Seq::<Seq<char>>::empty());
        assert(row_views(r.rows@) =~= Seq::<Seq<JsonView>>::empty());
        r
    }
}

/// The outcome without columns and rows.
pub open spec fn no_output() -> OutputView {
    OutputView { columns: Seq::empty(), rows: Seq::empty(), truncated: false }
}

/// `columns` followed by those of `keys` that are new, in their order.
pub open spec fn with_keys(columns: Seq<Seq<char>>, keys: Seq<Seq<char>>) -> Seq<Seq<char>>
    decreases keys.len(),
{
    if keys.len() == 0 {
        columns
    } else {
        let before = with_keys(columns, keys.drop_last());
        if before.contains(keys.last()) {
            before
        } else {
            before.push(keys.last())
        }
    }
}

/// The columns of a table of `records`: their keys in the order in which they turn up.
pub open spec fn columns_of(records: Seq<RecordView>) -> Seq<Seq<char>>
    decreases records.len(),
{
    if records.len() == 0 {
        Seq::empty()
    } else {
        with_keys(columns_of(records.drop_last()), sorted_keys(records.last()))
    }
}

/// The value of a record under a column; null where it has none.
pub open spec fn cell(record: RecordView, column: Seq<char>) -> JsonView {
    if record.contains_key(column) {
        record[column]
    } else {
        JsonView::Null
    }
}

/// The values of a record under each of `columns`.
pub open spec fn row_of(record: RecordView, columns: Seq<Seq<char>>) -> Seq<JsonView> {
    columns.map_values(|column: Seq<char>| cell(record, column))
}

/// The table of `records`.
pub open spec fn table_of(records: Seq<RecordView>) -> Seq<Seq<JsonView>> {
    records.map_values(|record: RecordView| row_of(record, columns_of(records)))
}

/// The outcome of a query that delivers `delivered` where at most `cap` records are wanted.
pub open spec fn output_of(delivered: Seq<RecordView>, cap: nat) -> OutputView {
    let kept = if delivered.len() <= cap {
        delivered
    } else {
        delivered.take(cap as int)
    };
    OutputView {
        columns: columns_of(kept),
        rows: table_of(kept),
        truncated: delivered.len() > cap,
    }
}

/// How far a query has been read: how many records are wanted, and those that were kept.
pub struct CollectorView {
    pub cap: nat,
    pub records: Seq<RecordView>,
}

/// What comes next in reading a query: fetch a row, decode the row that was fetched, or nothing
/// more.
pub enum ReadStepView {
    Fetch(CollectorView),
    Decode(CollectorView),
    Done(Result<OutputView, Fault>),
}

impl CollectorView {
    /// Whether another record is wanted.
    pub open spec fn wants_more(self) -> bool {
        self.records.len() < self.cap
    }

    /// The outcome, given whether rows were left out.
    pub open spec fn output(self, truncated: bool) -> OutputView {
        OutputView {
            columns: columns_of(self.records),
            rows: table_of(self.records),
            truncated,
        }
    }

    /// What fetching a row leads to: `true` stands for a row, `false` for the end. A row is decoded
    /// only when it is wanted; the first one too many ends the reading.
    pub open spec fn fetched(self, outcome: Result<bool, String>) -> ReadStepView {
        match outcome {
            Err(text) => ReadStepView::Done(Err(Fault::Fetch(text))),
            Ok(false) => ReadStepView::Done(Ok(self.output(false))),
            Ok(true) => if self.wants_more() {
                ReadStepView::Decode(self)
            } else {
                ReadStepView::Done(Ok(self.output(true)))
            },
        }
    }

    /// What decoding the row that was fetched leads to.
    pub open spec fn decoded(self, outcome: Result<Object, String>) -> ReadStepView {
        match outcome {
            Ok(record) => ReadStepView::Fetch(self.kept(record@)),
            Err(text) => ReadStepView::Done(Err(Fault::Decode(text))),
        }
    }

    /// The state after a record was kept.
    pub open spec fn kept(self, record: RecordView) -> CollectorView {
        CollectorView { records: self.records.push(record), ..self }
    }
}

/// The state before the first row.
pub open spec fn fresh_collector(cap: nat) -> CollectorView {
    CollectorView { cap, records: Seq::empty() }
}

/// What executing a statement leads to of which at most `cap` records are wanted.
pub open spec fn executed_step(cap: nat, outcome: Result<(), String>) -> ReadStepView {
    match outcome {
        Ok(_) => ReadStepView::Fetch(fresh_collector(cap)),
        Err(text) => ReadStepView::Done(Err(Fault::Execute(text))),
    }
}

/// The records of a query that were kept so far, with their columns.
struct RowCollector {
    cap: usize,
    columns: Vec<String>,
    records: Vec<Object>,
}

/// A query whose next row is to be fetched.
pub struct Fetching {
    collector: RowCollector,
}

/// A query of which a row was fetched that is to be decoded.
pub struct Decoding {
    collector: RowCollector,
}

/// What comes next in reading a query: fetch a row, decode the row that was fetched, or nothing
/// more.
pub enum ReadStep {
    Fetch(Fetching),
    Decode(Decoding),
    Done(Result<QueryOutput, Fault>),
}

impl ReadStep {
    /// The step as a mathematical object.
    pub open spec fn view(&self) -> ReadStepView {
        match self {
            ReadStep::Fetch(fetching) => ReadStepView::Fetch(fetching@),
            ReadStep::Decode(decoding) => ReadStepView::Decode(decoding@),
            ReadStep::Done(Ok(output)) => ReadStepView::Done(Ok(output@)),
            ReadStep::Done(Err(fault)) => ReadStepView::Done(Err(*fault)),
        }
    }
}

/// Adds to `columns` those of `keys` that are new, in their order.
fn add_columns(columns: &mut Vec<String>, keys: &Vec<String>)
    ensures
        texts(final(columns)@) == with_keys(texts(old(columns)@), texts(keys@)),
{
    let ghost before = texts(columns@);
    let ghost all = texts(keys@);
    let n: usize = keys.len();
    let mut i: usize = 0;
    assert(with_keys(before, all.take(0)) == before);
    while i < n
        invariant
            i <= n,
            n == keys@.len(),
            all == texts(keys@),
            texts(columns@) == with_keys(before, all.take(i as int)),
        decreases n - i,
    {
        let key = keys[i].as_str();
        let ghost so_far = columns@;
        let m: usize = columns.len();
        let mut j: usize = 0;
        let mut known = false;
        while j < m && !known
            invariant
                j <= m,
                m == columns@.len(),
                columns@ == so_far,
                known ==> texts(columns@).contains(key@),
                !known ==> forall|k: int| 0 <= k < j ==> (#[trigger] columns@[k])@ != key@,
            decreases m - j, !known as int,
        {
            if same(columns[j].as_str(), key) {
                assert(texts(columns@)[j as int] == key@);
                known = true;
            } else {
                j = j + 1;
            }
        }
        assert(all.take(i + 1).drop_last() =~= all.take(i as int));
        assert(all.take(i + 1).last() == key@);
        if !known {
            assert(!texts(columns@).contains(key@)) by {
                if texts(columns@).contains(key@) {
                    let k = choose|k: int| 0 <= k < m && texts(columns@)[k] == key@;
                    assert(columns@[k]@ == key@);
                }
            }
            columns.push(keys[i].clone());
            assert(texts(columns@) =~= texts(so_far).push(key@));
        }
        i = i + 1;
    }
    assert(all.take(n as int) =~= all);
}

impl RowCollector {
    /// How far the query has been read.
    spec fn view(&self) -> CollectorView {
        CollectorView { cap: self.cap as nat, records: record_views(self.records@) }
    }

    /// The columns are those of the records.
    spec fn consistent(self) -> bool {
        texts(self.columns@) == columns_of(record_views(self.records@))
    }

    /// A query of which at most `cap` records are wanted, before its first row.
    fn new(cap: usize) -> (r: Self)
        ensures
            r.consistent(),
            r@ == fresh_collector(cap as nat),
    {
        let columns: Vec<String> = Vec::new();
        let records: Vec<Object> = Vec::new();
        assert(texts(columns@) =~= Seq::<Seq<char>>::empty());
        assert(record_views(records@) =~= Seq::<RecordView>::empty());
        RowCollector { cap, columns, records }
    }

    /// Keeps a record.
    fn push(&mut self, record: Object)
        requires
            old(self).consistent(),
        ensures
            final(self).consistent(),
            final(self)@ == old(self)@.kept(record@),
    {
        let ghost before = self.records@;
        let keys = record.keys();
        add_columns(&mut self.columns, &keys);
        self.records.push(record);
        proof {
            let all = record_views(self.records@);
            assert(all =~= record_views(before).push(record@));
            assert(all.drop_last() =~= record_views(before));
        }
    }

    /// The outcome, given whether rows were left out.
    fn finish(self, truncated: bool) -> (r: QueryOutput)
        requires
            self.consistent(),
        ensures
            r@ == self@.output(truncated),
    {
        let ghost all = record_views(self.records@);
        let ghost columns = columns_of(all);
        let n: usize = self.records.len();
        let m: usize = self.columns.len();
        let mut rows: Vec<Vec<Json>> = Vec::new();
        let mut i: usize = 0;
        while i < n
            invariant
                i <= n,
                n == self.records@.len(),
                m == self.columns@.len(),
                all == record_views(self.records@),
                columns == texts(self.columns@),
                rows@.len() == i,
                forall|k: int|
                    0 <= k < i ==> views((#[trigger] rows@[k])@) == row_of(all[k], columns),
            decreases n - i,
        {
            let record = &self.records[i];
            let mut row: Vec<Json> = Vec::new();
            let mut j: usize = 0;
            while j < m
                invariant
                    j <= m,
                    m == self.columns@.len(),
                    columns == texts(self.columns@),
                    row@.len() == j,
                    forall|k: int| 0 <= k < j ==> (#[trigger] row@[k])@ == cell(record@, columns[k]),
                decreases m - j,
            {
                let value = match record.get(self.columns[j].as_str()) {
                    Some(json) => json.clone(),
                    None => Json::Null,
                };
                row.push(value);
                j = j + 1;
            }
            assert forall|k: int| 0 <= k < m implies views(row@)[k] == row_of(record@, columns)[k] by {
                assert(row@[k]@ == cell(record@, columns[k]));
            }
            assert(views(row@) =~= row_of(record@, columns));
            rows.push(row);
            i = i + 1;
        }
        assert(row_views(rows@) =~= table_of(all)) by {
            assert forall|k: int| 0 <= k < n implies row_views(rows@)[k] == table_of(all)[k] by {
                assert(views(rows@[k]@) == row_of(all[k], columns));
            }
        }
        QueryOutput { columns: self.columns, rows, truncated }
    }
}

/// Starts to read a statement of which at most `cap` records are wanted, once it was executed.
pub fn executed(cap: usize, outcome: Result<(), String>) -> (r: ReadStep)
    ensures
        r@ == (match outcome {
            Ok(_) => ReadStepView::Fetch(fresh_collector(cap as nat)),
            Err(text) => ReadStepView::Done(Err(Fault::Execute(text))),
        }),
        r@ == executed_step(cap as nat, outcome),
{
    match outcome {
        Ok(_) => ReadStep::Fetch(Fetching { collector: RowCollector::new(cap) }),
        Err(text) => ReadStep::Done(Err(Fault::Execute(text))),
    }
}

impl Fetching {
    /// How far the query has been read.
    pub closed spec fn view(&self) -> CollectorView {
        self.collector@
    }

    #[verifier::type_invariant]
    spec fn consistent(self) -> bool {
        self.collector.consistent()
    }

    /// Goes on once fetching a row was tried: `true` stands for a row, `false` for the end.
    pub fn fetched(self, outcome: Result<bool, String>) -> (r: ReadStep)
        ensures
            r@ == self@.fetched(outcome),
    {
        proof {
            use_type_invariant(&self);
        }
        match outcome {
            Err(text) => ReadStep::Done(Err(Fault::Fetch(text))),
            Ok(found) => if !found {
                ReadStep::Done(Ok(self.collector.finish(false)))
            } else if self.collector.records.len() < self.collector.cap {
                ReadStep::Decode(Decoding { collector: self.collector })
            } else {
                ReadStep::Done(Ok(self.collector.finish(true)))
            },
        }
    }
}

impl Decoding {
    /// How far the query has been read.
    pub closed spec fn view(&self) -> CollectorView {
        self.collector@
    }

    #[verifier::type_invariant]
    spec fn consistent(self) -> bool {
        self.collector.consistent()
    }

    /// Goes on once decoding the row was tried.
    pub fn decoded(self, outcome: Result<Object, String>) -> (r: ReadStep)
        ensures
            r@ == (match outcome {
                Ok(record) => ReadStepView::Fetch(self@.kept(record@)),
                Err(text) => ReadStepView::Done(Err(Fault::Decode(text))),
            }),
            r@ == self@.decoded(outcome),
    {
        proof {
            use_type_invariant(&self);
        }
        match outcome {
            Ok(record) => {
                let mut collector = self.collector;
                collector.push(record);
                ReadStep::Fetch(Fetching { collector })
            },
            Err(text) => ReadStep::Done(Err(Fault::Decode(text))),
        }
    }
}

} // verus!
