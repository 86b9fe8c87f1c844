use columnar_agg::engine::{aggregate, reduce_columns, AggregateMethod, AggregateTask, Strategy};
use columnar_agg::error::AggregateError;
use columnar_agg::producer::{generated_batch, small_batch};
use columnar_agg::table::{Column, TableBatch};

fn column(name: &str, cells: &[Option<i32>]) -> Column {
    Column {
        name: name.to_string(),
        nullable: true,
        values: cells.iter().map(|c| c.unwrap_or(0)).collect(),
        validity: cells.iter().map(|c| c.is_some()).collect(),
    }
}

fn table(a: &[Option<i32>], b: &[Option<i32>]) -> TableBatch {
    TableBatch::try_new(vec![column("column1", a), column("column2", b)]).unwrap()
}

fn run(t: &TableBatch, m: AggregateMethod, s: Strategy) -> Result<i32, AggregateError> {
    aggregate(t, AggregateTask::with_strategy(m, s))
}

#[test]
fn small_batch_direct_max_sum() {
    assert_eq!(run(&small_batch(), AggregateMethod::MaxSum, Strategy::Direct), Ok(40));
}

#[test]
fn small_batch_direct_min_sum() {
    assert_eq!(run(&small_batch(), AggregateMethod::MinSum, Strategy::Direct), Ok(-40));
}

#[test]
fn small_batch_filtered_matches_direct() {
    let t = small_batch();
    assert_eq!(run(&t, AggregateMethod::MaxSum, Strategy::Filtered), Ok(40));
    assert_eq!(run(&t, AggregateMethod::MinSum, Strategy::Filtered), Ok(-40));
}

#[test]
fn min_sum_is_negated_smallest_sum() {
    let t = table(&[Some(1), Some(5), Some(9)], &[Some(2), Some(5), Some(1)]);
    assert_eq!(run(&t, AggregateMethod::MinSum, Strategy::Direct), Ok(-3));
    assert_eq!(run(&t, AggregateMethod::MaxSum, Strategy::Direct), Ok(10));
}

#[test]
fn null_on_one_side_drops_the_row() {
    let t = table(&[Some(100), Some(1), None], &[None, Some(2), Some(500)]);
    assert_eq!(run(&t, AggregateMethod::MaxSum, Strategy::Direct), Ok(3));
    assert_eq!(run(&t, AggregateMethod::MaxSum, Strategy::Filtered), Ok(3));
    assert_eq!(run(&t, AggregateMethod::MinSum, Strategy::Direct), Ok(-3));
}

#[test]
fn all_null_rows_give_zero() {
    let t = table(&[None, Some(4)], &[Some(3), None]);
    assert_eq!(run(&t, AggregateMethod::MaxSum, Strategy::Direct), Ok(0));
    assert_eq!(run(&t, AggregateMethod::MinSum, Strategy::Filtered), Ok(0));
}

#[test]
fn filter_drops_non_positive_rows() {
    let t = table(&[Some(-5), Some(3), Some(4)], &[Some(10), Some(0), Some(1)]);
    assert_eq!(run(&t, AggregateMethod::MaxSum, Strategy::Direct), Ok(5));
    assert_eq!(run(&t, AggregateMethod::MaxSum, Strategy::Filtered), Ok(5));
    assert_eq!(run(&t, AggregateMethod::MinSum, Strategy::Direct), Ok(-3));
    assert_eq!(run(&t, AggregateMethod::MinSum, Strategy::Filtered), Ok(-5));
}

#[test]
fn filter_that_drops_everything_gives_zero() {
    let t = table(&[Some(-1), Some(0)], &[Some(5), Some(5)]);
    assert_eq!(run(&t, AggregateMethod::MaxSum, Strategy::Filtered), Ok(0));
    assert_eq!(run(&t, AggregateMethod::MaxSum, Strategy::Direct), Ok(5));
}

#[test]
fn sum_beyond_i32_is_compute_error() {
    let t = table(&[Some(i32::MAX)], &[Some(1)]);
    assert_eq!(run(&t, AggregateMethod::MaxSum, Strategy::Direct), Err(AggregateError::ComputeError));
    assert_eq!(run(&t, AggregateMethod::MinSum, Strategy::Direct), Ok(i32::MIN));
    let u = table(&[Some(i32::MIN)], &[Some(0)]);
    assert_eq!(run(&u, AggregateMethod::MinSum, Strategy::Direct), Err(AggregateError::ComputeError));
    assert_eq!(run(&u, AggregateMethod::MaxSum, Strategy::Direct), Ok(i32::MIN));
}

#[test]
fn missing_column_is_conver_error() {
    let t = TableBatch::try_new(vec![column("column1", &[Some(1)]), column("other", &[Some(2)])]).unwrap();
    assert_eq!(run(&t, AggregateMethod::MaxSum, Strategy::Direct), Err(AggregateError::ConverError));
}

#[test]
fn columns_are_found_by_name() {
    let t = TableBatch::try_new(vec![column("column2", &[Some(1)]), column("column1", &[Some(7)])]).unwrap();
    assert_eq!(run(&t, AggregateMethod::MaxSum, Strategy::Direct), Ok(8));
}

#[test]
fn generated_batch_max_sum() {
    let t = generated_batch(7);
    assert_eq!(run(&t, AggregateMethod::MaxSum, Strategy::Direct), Ok(10));
    let t = generated_batch(10);
    assert_eq!(run(&t, AggregateMethod::MaxSum, Strategy::Filtered), Ok(16));
    let t = generated_batch(9);
    assert_eq!(run(&t, AggregateMethod::MaxSum, Strategy::Filtered), Ok(16));
    let t = generated_batch(1);
    assert_eq!(run(&t, AggregateMethod::MaxSum, Strategy::Direct), Ok(0));
}

#[test]
fn generated_batch_min_sum() {
    let t = generated_batch(10);
    assert_eq!(run(&t, AggregateMethod::MinSum, Strategy::Direct), Ok(-2));
}

#[test]
fn reduce_columns_directly() {
    let a = column("x", &[Some(2), None, Some(6)]);
    let b = column("y", &[Some(3), Some(9), Some(-1)]);
    assert_eq!(reduce_columns(AggregateMethod::MaxSum, Strategy::Direct, &a, &b), Ok(5));
    assert_eq!(reduce_columns(AggregateMethod::MaxSum, Strategy::Filtered, &a, &b), Ok(5));
    assert_eq!(reduce_columns(AggregateMethod::MinSum, Strategy::Direct, &a, &b), Ok(-5));
}

#[test]
fn task_new_uses_filtered_strategy() {
    let task = AggregateTask::new(AggregateMethod::MinSum);
    assert_eq!(task.strategy, Strategy::Filtered);
    assert_eq!(task.method, AggregateMethod::MinSum);
}

#[test]
fn unequal_columns_are_shape_error() {
    let t = TableBatch { columns: vec![column("column1", &[Some(1), Some(2)]), column("column2", &[Some(1)])] };
    assert_eq!(run(&t, AggregateMethod::MaxSum, Strategy::Direct), Err(AggregateError::ShapeError));
}
