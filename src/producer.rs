use vstd::prelude::*;

use crate::codec::{encode, end_of_stream, ipc_stream_of};
use crate::engine::{
    aggregate_outcome, best, first_named, first_named_from, model_cells, AggregateMethod,
    AggregateTask,
};
use crate::error::AggregateError;
use crate::framing::stream_framing_ok;
use crate::table::{cells_of, table_fits, Column, ColumnModel, TableBatch};

verus! {

/// The row count that the producer serves.
pub const RECORDS_COUNT: usize = 5000000;

/// The values of a generated column: row `k` holds `k`, or 0 where it is null.
pub open spec fn generated_values(n: nat) -> Seq<i32> {
    Seq::new(n, |k: int| if k % 3 == 0 { 0i32 } else { k as i32 })
}

/// The validity of a generated column: every third row, from row 0, is null.
pub open spec fn generated_validity(n: nat) -> Seq<bool> {
    Seq::new(n, |k: int| k % 3 != 0)
}

/// The generated table of `n` rows: two nullable columns with one pattern.
pub open spec fn generated_model(n: nat) -> Seq<ColumnModel> {
    seq![
        ("column1"@, true, Some((generated_values(n), generated_validity(n)))),
        ("column2"@, true, Some((generated_values(n), generated_validity(n)))),
    ]
}

/// The small fixed table: `[10, 20, 30]` and `[30, 20, 10]`, no nulls.
pub open spec fn small_model() -> Seq<ColumnModel> {
    seq![
        ("column1"@, false, Some((seq![10i32, 20, 30], seq![true, true, true]))),
        ("column2"@, false, Some((seq![30i32, 20, 10], seq![true, true, true]))),
    ]
}

fn generated_column(name: &str, n: usize) -> (r: Column)
    requires
        n <= 2147483648,
    ensures
        r.name@ == name@,
        r.nullable,
        r.values@ == generated_values(n as nat),
        r.validity@ == generated_validity(n as nat),
{
    let mut values: Vec<i32> = Vec::with_capacity(n);
    let mut validity: Vec<bool> = Vec::with_capacity(n);
    let mut i: usize = 0;
    while i < n
        invariant
            n <= 2147483648,
            i <= n,
            values@ == generated_values(i as nat),
            validity@ == generated_validity(i as nat),
        decreases n - i,
    {
        if i % 3 != 0 {
            values.push(i as i32);
            validity.push(true);
        } else {
            values.push(0);
            validity.push(false);
        }
        i += 1;
        assert(values@ =~= generated_values(i as nat));
        assert(validity@ =~= generated_validity(i as nat));
    }
    Column { name: name.to_owned(), nullable: true, values, validity }
}

/// The generated table of `n` rows: row `k` is null in both columns where
/// `k % 3 == 0`, else holds `k` in both.
pub fn generated_batch(n: usize) -> (r: TableBatch)
    requires
        n <= 2147483648,
    ensures
        r.wf(),
        r.model() == generated_model(n as nat),
{
    let c1 = generated_column("column1", n);
    let c2 = generated_column("column2", n);
    let columns = vec![c1, c2];
    let r = TableBatch { columns };
    assert(r.model() =~= generated_model(n as nat));
    r
}

/// The small fixed table of three rows.
pub fn small_batch() -> (r: TableBatch)
    ensures
        r.wf(),
        r.model() == small_model(),
{
    let c1 = Column {
        name: "column1".to_owned(),
        nullable: false,
        values: vec![10, 20, 30],
        validity: vec![true, true, true],
    };
    let c2 = Column {
        name: "column2".to_owned(),
        nullable: false,
        values: vec![30, 20, 10],
        validity: vec![true, true, true],
    };
    let r = TableBatch { columns: vec![c1, c2] };
    assert(r.model() =~= small_model());
    assert(table_fits(r.model()));
    r
}

/// The response body that the producer serves: the generated table of
/// `rows` rows, encoded.
pub fn produce_data(rows: usize) -> (r: Result<Vec<u8>, AggregateError>)
    requires
        rows <= 2147483648,
    ensures
        r matches Ok(bytes) && bytes@ == ipc_stream_of(generated_model(rows as nat)) + end_of_stream(),
        r is Ok ==> (rows < 0x8000_0000 ==> forall|rest: Seq<u8>|
            #[trigger] stream_framing_ok(ipc_stream_of(generated_model(rows as nat)) + rest)),
{
    let batch = generated_batch(rows);
    encode(&batch)
}

/// The small fixed table, encoded.
pub fn produce_small_data() -> (r: Result<Vec<u8>, AggregateError>)
    ensures
        r matches Ok(bytes) && bytes@ == ipc_stream_of(small_model()) + end_of_stream(),
        r is Ok ==> forall|rest: Seq<u8>| #[trigger] stream_framing_ok(ipc_stream_of(small_model()) + rest),
{
    let batch = small_batch();
    encode(&batch)
}

/// The largest row below `n` that the generated table does not leave null.
pub open spec fn last_valid_row(n: nat) -> int {
    if (n - 1) % 3 != 0 {
        n - 1
    } else {
        n - 2
    }
}

proof fn lemma_generated_best(m: AggregateTask, c: Seq<Option<i32>>, n: nat, k: nat)
    requires
        m.method == AggregateMethod::MaxSum,
        k <= n <= 1073741824,
        c.len() == n,
        forall|q: int| 0 <= q < n ==> #[trigger] c[q] == if q % 3 == 0 {
            None::<i32>
        } else {
            Some(q as i32)
        },
    ensures
        k < 2 ==> best(m.method, m.strategy, c, c, k) is None,
        k >= 2 ==> best(m.method, m.strategy, c, c, k) == Some(2 * last_valid_row(k)),
    decreases k,
{
    if k > 0 {
        lemma_generated_best(m, c, n, (k - 1) as nat);
        let q = k - 1;
        assert(c[q] == if q % 3 == 0 { None::<i32> } else { Some(q as i32) });
    }
}

/// Over the generated table of `n` rows, `MaxSum` gives twice the largest row
/// index that is not null (0 where there is none), for either strategy.
pub proof fn lemma_generated_max_sum(n: nat, task: AggregateTask)
    requires
        task.method == AggregateMethod::MaxSum,
        n <= 1073741824,
    ensures
        aggregate_outcome(generated_model(n), task) == Ok::<i32, AggregateError>(
            if n < 2 {
                0
            } else {
                (2 * last_valid_row(n)) as i32
            },
        ),
{
    let t = generated_model(n);
    reveal_strlit("column1");
    reveal_strlit("column2");
    assert("column1"@[6] != "column2"@[6]);
    assert(first_named(t, "column1"@) == Some(0int));
    assert(first_named_from(t, "column2"@, 1) == Some(1int));
    assert(first_named(t, "column2"@) == Some(1int));
    let c = model_cells(t[0]);
    assert(model_cells(t[1]) == c);
    assert forall|q: int| 0 <= q < n implies #[trigger] c[q] == if q % 3 == 0 {
        None::<i32>
    } else {
        Some(q as i32)
    } by {
        assert(c == cells_of(generated_values(n), generated_validity(n)));
    }
    lemma_generated_best(task, c, n, n);
}

} // verus!
