use vstd::prelude::*;

use crate::error::AggregateError;
use crate::table::{cells_of, table_fits, Column, ColumnModel, TableBatch};

verus! {

/// The reduction of an aggregate query. Both methods reduce with a maximum:
/// `MaxSum` over the sums `a + b`, `MinSum` over the negated sums `-(a + b)`,
/// so `MinSum` yields the negation of the smallest sum.
#[derive(Clone, Copy, Debug, PartialEq, Eq)]
pub enum AggregateMethod {
    MinSum,
    MaxSum,
}

/// How the engine selects the rows that it reduces.
#[derive(Clone, Copy, Debug, PartialEq, Eq)]
pub enum Strategy {
    /// Every row where both columns hold a value.
    Direct,
    /// Every row where both columns hold a value greater than zero.
    Filtered,
}

/// An aggregate query over the columns named `column1` and `column2`.
#[derive(Clone, Copy, Debug)]
pub struct AggregateTask {
    pub method: AggregateMethod,
    pub strategy: Strategy,
}

impl AggregateTask {
    /// A query that runs the filtered strategy.
    pub fn new(method: AggregateMethod) -> (r: Self)
        ensures
            r.method == method,
            r.strategy == Strategy::Filtered,
    {
        AggregateTask { method, strategy: Strategy::Filtered }
    }

    /// A query that runs the given strategy.
    pub fn with_strategy(method: AggregateMethod, strategy: Strategy) -> (r: Self)
        ensures
            r.method == method,
            r.strategy == strategy,
    {
        AggregateTask { method, strategy }
    }
}

/// The combined value of one row.
pub open spec fn combine(m: AggregateMethod, a: i32, b: i32) -> int {
    match m {
        AggregateMethod::MaxSum => a + b,
        AggregateMethod::MinSum => -(a + b),
    }
}

/// Whether a row takes part in the reduction: a null on either side drops it.
pub open spec fn admits(s: Strategy, x: Option<i32>, y: Option<i32>) -> bool {
    match (x, y) {
        (Some(a), Some(b)) => match s {
            Strategy::Direct => true,
            Strategy::Filtered => a > 0 && b > 0,
        },
        _ => false,
    }
}

/// The largest combined value over the admitted rows among the first `n`,
/// or `None` where no row among them is admitted.
pub open spec fn best(
    m: AggregateMethod,
    s: Strategy,
    c1: Seq<Option<i32>>,
    c2: Seq<Option<i32>>,
    n: nat,
) -> Option<int>
    decreases n,
{
    if n == 0 {
        None
    } else {
        let prev = best(m, s, c1, c2, (n - 1) as nat);
        let k = n - 1;
        if admits(s, c1[k], c2[k]) {
            let v = combine(m, c1[k].unwrap(), c2[k].unwrap());
            match prev {
                None => Some(v),
                Some(p) => Some(if p >= v { p } else { v }),
            }
        } else {
            prev
        }
    }
}

/// The reduced value of two columns: 0 where no row is admitted.
pub open spec fn reduced(m: AggregateMethod, s: Strategy, c1: Seq<Option<i32>>, c2: Seq<Option<i32>>) -> int {
    match best(m, s, c1, c2, c1.len()) {
        None => 0,
        Some(v) => v,
    }
}

/// The outcome of reducing two columns: the reduced value, or
/// `ComputeError` where it does not fit a 32-bit integer.
pub open spec fn reduce_outcome(
    m: AggregateMethod,
    s: Strategy,
    c1: Seq<Option<i32>>,
    c2: Seq<Option<i32>>,
) -> Result<i32, AggregateError> {
    let v = reduced(m, s, c1, c2);
    if i32::MIN <= v <= i32::MAX {
        Ok(v as i32)
    } else {
        Err(AggregateError::ComputeError)
    }
}

proof fn lemma_best_ignores_row(
    m: AggregateMethod,
    s: Strategy,
    c1: Seq<Option<i32>>,
    c2: Seq<Option<i32>>,
    j: int,
    k: nat,
)
    requires
        c1.len() == c2.len(),
        0 <= j < c1.len(),
        c1[j] is None || c2[j] is None,
        k <= c1.len(),
    ensures
        best(m, s, c1, c2, k) == best(m, s, c1.update(j, None), c2.update(j, None), k),
    decreases k,
{
    if k > 0 {
        lemma_best_ignores_row(m, s, c1, c2, j, (k - 1) as nat);
    }
}

/// A row where either column is null takes no part in the reduction, under
/// either strategy: the result is the same as with the row null on both
/// sides, whatever the other column holds there.
pub proof fn lemma_null_row_excluded(
    m: AggregateMethod,
    s: Strategy,
    c1: Seq<Option<i32>>,
    c2: Seq<Option<i32>>,
    j: int,
)
    requires
        c1.len() == c2.len(),
        0 <= j < c1.len(),
        c1[j] is None || c2[j] is None,
    ensures
        reduced(m, s, c1, c2) == reduced(m, s, c1.update(j, None), c2.update(j, None)),
        reduce_outcome(m, s, c1, c2) == reduce_outcome(m, s, c1.update(j, None), c2.update(j, None)),
{
    lemma_best_ignores_row(m, s, c1, c2, j, c1.len());
}

proof fn lemma_best_positive_rows(
    m: AggregateMethod,
    c1: Seq<Option<i32>>,
    c2: Seq<Option<i32>>,
    k: nat,
)
    requires
        c1.len() == c2.len(),
        k <= c1.len(),
        forall|q: int|
            0 <= q < c1.len() && #[trigger] c1[q] is Some && #[trigger] c2[q] is Some ==> c1[q].unwrap()
                > 0 && c2[q].unwrap() > 0,
    ensures
        best(m, Strategy::Filtered, c1, c2, k) == best(m, Strategy::Direct, c1, c2, k),
    decreases k,
{
    if k > 0 {
        lemma_best_positive_rows(m, c1, c2, (k - 1) as nat);
        let q = k - 1;
        assert(c1[q] is Some && c2[q] is Some ==> c1[q].unwrap() > 0 && c2[q].unwrap() > 0);
    }
}

/// Where every row that holds values on both sides holds positive values,
/// the filtered strategy gives what the direct strategy gives.
pub proof fn lemma_filter_keeps_positive_rows(
    m: AggregateMethod,
    c1: Seq<Option<i32>>,
    c2: Seq<Option<i32>>,
)
    requires
        c1.len() == c2.len(),
        forall|q: int|
            0 <= q < c1.len() && #[trigger] c1[q] is Some && #[trigger] c2[q] is Some ==> c1[q].unwrap()
                > 0 && c2[q].unwrap() > 0,
    ensures
        reduce_outcome(m, Strategy::Filtered, c1, c2) == reduce_outcome(m, Strategy::Direct, c1, c2),
{
    lemma_best_positive_rows(m, c1, c2, c1.len());
}

proof fn lemma_best_same_prefix(
    m: AggregateMethod,
    s: Strategy,
    c1: Seq<Option<i32>>,
    c2: Seq<Option<i32>>,
    d1: Seq<Option<i32>>,
    d2: Seq<Option<i32>>,
    k: nat,
)
    requires
        k <= c1.len(),
        k <= c2.len(),
        k <= d1.len(),
        k <= d2.len(),
        forall|q: int| 0 <= q < k ==> c1[q] == d1[q] && c2[q] == d2[q],
    ensures
        best(m, s, c1, c2, k) == best(m, s, d1, d2, k),
    decreases k,
{
    if k > 0 {
        lemma_best_same_prefix(m, s, c1, c2, d1, d2, (k - 1) as nat);
    }
}

proof fn lemma_best_remove_row(
    m: AggregateMethod,
    s: Strategy,
    c1: Seq<Option<i32>>,
    c2: Seq<Option<i32>>,
    j: int,
    k: nat,
)
    requires
        c1.len() == c2.len(),
        0 <= j < k <= c1.len(),
        c1[j] is None || c2[j] is None,
    ensures
        best(m, s, c1, c2, k) == best(m, s, c1.remove(j), c2.remove(j), (k - 1) as nat),
    decreases k,
{
    if k == j + 1 {
        lemma_best_same_prefix(m, s, c1, c2, c1.remove(j), c2.remove(j), j as nat);
    } else {
        lemma_best_remove_row(m, s, c1, c2, j, (k - 1) as nat);
        assert(c1.remove(j)[k - 2] == c1[k - 1]);
        assert(c2.remove(j)[k - 2] == c2[k - 1]);
    }
}

/// Deleting a row where either column is null leaves the reduction as it
/// is, under either strategy: such a row contributes no combined value.
pub proof fn lemma_null_row_deleted(
    m: AggregateMethod,
    s: Strategy,
    c1: Seq<Option<i32>>,
    c2: Seq<Option<i32>>,
    j: int,
)
    requires
        c1.len() == c2.len(),
        0 <= j < c1.len(),
        c1[j] is None || c2[j] is None,
    ensures
        reduced(m, s, c1, c2) == reduced(m, s, c1.remove(j), c2.remove(j)),
        reduce_outcome(m, s, c1, c2) == reduce_outcome(m, s, c1.remove(j), c2.remove(j)),
{
    lemma_best_remove_row(m, s, c1, c2, j, c1.len());
}

/// Reduces two columns of equal length row by row.
pub fn reduce_columns(m: AggregateMethod, s: Strategy, c1: &Column, c2: &Column) -> (r: Result<
    i32,
    AggregateError,
>)
    requires
        c1.values.len() == c1.validity.len(),
        c2.values.len() == c2.validity.len(),
        c1.values.len() == c2.values.len(),
    ensures
        r == reduce_outcome(m, s, c1.cells(), c2.cells()),
{
    let n = c1.values.len();
    let mut acc: Option<i64> = None;
    let mut i: usize = 0;
    while i < n
        invariant
            n == c1.values.len(),
            c1.values.len() == c1.validity.len(),
            c2.values.len() == c2.validity.len(),
            c1.values.len() == c2.values.len(),
            i <= n,
            match acc {
                None => best(m, s, c1.cells(), c2.cells(), i as nat) is None,
                Some(a) => best(m, s, c1.cells(), c2.cells(), i as nat) == Some(a as int),
            },
        decreases n - i,
    {
        let x = c1.get(i);
        let y = c2.get(i);
        let take = match (x, y) {
            (Some(a), Some(b)) => match s {
                Strategy::Direct => true,
                Strategy::Filtered => a > 0 && b > 0,
            },
            _ => false,
        };
        if take {
            let a = x.unwrap() as i64;
            let b = y.unwrap() as i64;
            let v: i64 = match m {
                AggregateMethod::MaxSum => a + b,
                AggregateMethod::MinSum => -(a + b),
            };
            acc = match acc {
                None => Some(v),
                Some(p) => Some(if p >= v { p } else { v }),
            };
        }
        i += 1;
    }
    assert(c1.cells().len() == n);
    match acc {
        None => Ok(0),
        Some(a) => {
            if i32::MIN as i64 <= a && a <= i32::MAX as i64 {
                Ok(a as i32)
            } else {
                Err(AggregateError::ComputeError)
            }
        },
    }
}

/// The index of the first column with the given name, from `i` on.
pub open spec fn first_named_from(t: Seq<ColumnModel>, name: Seq<char>, i: nat) -> Option<int>
    decreases t.len() - i,
{
    if i >= t.len() {
        None
    } else if t[i as int].0 == name {
        Some(i as int)
    } else {
        first_named_from(t, name, i + 1)
    }
}

proof fn lemma_first_named_from_bounds(t: Seq<ColumnModel>, name: Seq<char>, i: nat)
    ensures
        first_named_from(t, name, i) matches Some(j) ==> i <= j < t.len() && t[j].0 == name,
    decreases t.len() - i,
{
    if i < t.len() && t[i as int].0 != name {
        lemma_first_named_from_bounds(t, name, i + 1);
    }
}

pub open spec fn first_named(t: Seq<ColumnModel>, name: Seq<char>) -> Option<int> {
    first_named_from(t, name, 0)
}

/// The cells of a modelled column.
pub open spec fn model_cells(c: ColumnModel) -> Seq<Option<i32>> {
    match c.2 {
        Some(d) => cells_of(d.0, d.1),
        None => Seq::empty(),
    }
}

/// What an aggregate query over a table gives: `ShapeError` where the
/// columns are not `Int32` columns of one row count, else the reduction of
/// the first columns named `column1` and `column2`, or `ConverError` where
/// one of them is missing.
pub open spec fn aggregate_outcome(t: Seq<ColumnModel>, task: AggregateTask) -> Result<i32, AggregateError> {
    if !table_fits(t) {
        Err(AggregateError::ShapeError)
    } else {
        match (first_named(t, "column1"@), first_named(t, "column2"@)) {
            (Some(i), Some(j)) => reduce_outcome(
                task.method,
                task.strategy,
                model_cells(t[i]),
                model_cells(t[j]),
            ),
            _ => Err(AggregateError::ConverError),
        }
    }
}

/// On a table whose present values are all positive, an aggregate query
/// gives the same outcome under the filtered and the direct strategy.
pub proof fn lemma_table_filter_matches_direct(t: Seq<ColumnModel>, m: AggregateMethod)
    requires
        forall|i: int, q: int|
            0 <= i < t.len() && 0 <= q < model_cells(t[i]).len() && (#[trigger] model_cells(
                t[i],
            )[q]) is Some ==> model_cells(t[i])[q].unwrap() > 0,
    ensures
        aggregate_outcome(t, AggregateTask { method: m, strategy: Strategy::Filtered })
            == aggregate_outcome(t, AggregateTask { method: m, strategy: Strategy::Direct }),
{
    if table_fits(t) {
        lemma_first_named_from_bounds(t, "column1"@, 0);
        lemma_first_named_from_bounds(t, "column2"@, 0);
        if let (Some(i), Some(j)) = (first_named(t, "column1"@), first_named(t, "column2"@)) {
            assert(crate::table::column_fits(t[i], crate::table::declared_rows(t)));
            assert(crate::table::column_fits(t[j], crate::table::declared_rows(t)));
            let c1 = model_cells(t[i]);
            let c2 = model_cells(t[j]);
            assert forall|q: int|
                0 <= q < c1.len() && #[trigger] c1[q] is Some && #[trigger] c2[q] is Some implies c1[q].unwrap()
                    > 0 && c2[q].unwrap() > 0 by {
                assert(model_cells(t[i])[q] is Some);
                assert(model_cells(t[j])[q] is Some);
            }
            lemma_filter_keeps_positive_rows(m, c1, c2);
        }
    }
}

/// The table with row `j` deleted from every column.
pub open spec fn delete_row(t: Seq<ColumnModel>, j: int) -> Seq<ColumnModel> {
    t.map_values(
        |c: ColumnModel|
            (
                c.0,
                c.1,
                match c.2 {
                    Some(d) => Some((d.0.remove(j), d.1.remove(j))),
                    None => None,
                },
            ),
    )
}

proof fn lemma_first_named_delete(t: Seq<ColumnModel>, j: int, name: Seq<char>, i: nat)
    ensures
        first_named_from(delete_row(t, j), name, i) == first_named_from(t, name, i),
    decreases t.len() - i,
{
    if i < t.len() {
        lemma_first_named_delete(t, j, name, i + 1);
    }
}

/// Deleting, from a well-formed table, a row where `column1` or `column2`
/// is null leaves the outcome of every aggregate query as it is.
pub proof fn lemma_table_null_row_deleted(t: Seq<ColumnModel>, task: AggregateTask, j: int)
    requires
        table_fits(t),
        0 <= j < crate::table::declared_rows(t),
        first_named(t, "column1"@) matches Some(i) && first_named(t, "column2"@) matches Some(k) && (
        model_cells(t[i])[j] is None || model_cells(t[k])[j] is None),
    ensures
        aggregate_outcome(t, task) == aggregate_outcome(delete_row(t, j), task),
{
    let u = delete_row(t, j);
    let n = crate::table::declared_rows(t);
    lemma_first_named_from_bounds(t, "column1"@, 0);
    lemma_first_named_from_bounds(t, "column2"@, 0);
    lemma_first_named_delete(t, j, "column1"@, 0);
    lemma_first_named_delete(t, j, "column2"@, 0);
    assert(crate::table::column_fits(t[0], n));
    assert(crate::table::declared_rows(u) == n - 1);
    assert forall|q: int| 0 <= q < u.len() implies crate::table::column_fits(
        #[trigger] u[q],
        crate::table::declared_rows(u),
    ) by {
        assert(crate::table::column_fits(t[q], n));
        let d = t[q].2.unwrap();
        assert forall|k: int| 0 <= k < n - 1 && !t[q].1 implies #[trigger] d.1.remove(j)[k] by {
            if k < j {
                assert(d.1[k]);
            } else {
                assert(d.1[k + 1]);
            }
        }
    }
    let i = first_named(t, "column1"@).unwrap();
    let k = first_named(t, "column2"@).unwrap();
    assert(crate::table::column_fits(t[i], n));
    assert(crate::table::column_fits(t[k], n));
    let c1 = model_cells(t[i]);
    let c2 = model_cells(t[k]);
    assert(model_cells(u[i]) =~= c1.remove(j));
    assert(model_cells(u[k]) =~= c2.remove(j));
    lemma_null_row_deleted(task.method, task.strategy, c1, c2, j);
}

/// The index of the first column of the batch with the given name.
fn find_column(batch: &TableBatch, name: &String) -> (r: Option<usize>)
    ensures
        match r {
            Some(i) => first_named(batch.model(), name@) == Some(i as int),
            None => first_named(batch.model(), name@) is None,
        },
{
    let n = batch.columns.len();
    let mut i: usize = n;
    let mut found: Option<usize> = None;
    while i > 0
        invariant
            n == batch.columns.len(),
            i <= n,
            match found {
                Some(j) => first_named_from(batch.model(), name@, i as nat) == Some(j as int),
                None => first_named_from(batch.model(), name@, i as nat) is None,
            },
        decreases i,
    {
        i -= 1;
        if batch.columns[i].name == *name {
            found = Some(i);
        }
    }
    found
}

/// Runs an aggregate query over a batch.
pub fn aggregate(batch: &TableBatch, task: AggregateTask) -> (r: Result<i32, AggregateError>)
    ensures
        r == aggregate_outcome(batch.model(), task),
{
    if !batch.check_fits() {
        return Err(AggregateError::ShapeError);
    }
    let first = "column1".to_owned();
    let second = "column2".to_owned();
    match (find_column(batch, &first), find_column(batch, &second)) {
        (Some(i), Some(j)) => {
            proof {
                lemma_first_named_from_bounds(batch.model(), first@, 0);
                lemma_first_named_from_bounds(batch.model(), second@, 0);
            }
            let c1 = &batch.columns[i];
            let c2 = &batch.columns[j];
            proof {
                assert(crate::table::column_fits(batch.model()[i as int], batch.rows()));
                assert(crate::table::column_fits(batch.model()[j as int], batch.rows()));
            }
            reduce_columns(task.method, task.strategy, c1, c2)
        },
        _ => Err(AggregateError::ConverError),
    }
}

} // verus!
