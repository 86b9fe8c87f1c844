use std::sync::Arc;

use arrow::array::Int32Array;
use arrow::datatypes::{DataType, Field, Schema};
use arrow::ipc::writer::StreamWriter;
use arrow::record_batch::RecordBatch;
use columnar_agg::codec::{batch_from_raw, decode, encode, RawColumn};
use columnar_agg::error::AggregateError;
use columnar_agg::framing::check_stream_framing;
use columnar_agg::producer::{generated_batch, small_batch};
use columnar_agg::table::{Column, TableBatch};

fn assert_same(a: &TableBatch, b: &TableBatch) {
    assert_eq!(a.num_columns(), b.num_columns());
    assert_eq!(a.num_rows(), b.num_rows());
    for i in 0..a.num_columns() {
        let (x, y) = (a.column(i), b.column(i));
        assert_eq!(x.name, y.name);
        assert_eq!(x.nullable, y.nullable);
        assert_eq!(x.validity, y.validity);
        assert_eq!(x.values, y.values);
    }
}

#[test]
fn round_trip_small_batch() {
    let batch = small_batch();
    let bytes = encode(&batch).unwrap();
    assert!(bytes.len() > 0);
    let back = decode(&bytes).unwrap();
    assert_same(&batch, &back);
    assert_eq!(back.column(0).values, vec![10, 20, 30]);
    assert_eq!(back.column(1).values, vec![30, 20, 10]);
}

#[test]
fn round_trip_generated_batch_keeps_nulls() {
    let batch = generated_batch(10);
    let bytes = encode(&batch).unwrap();
    let back = decode(&bytes).unwrap();
    assert_same(&batch, &back);
    let col = back.column(0);
    assert_eq!(col.get(0), None);
    assert_eq!(col.get(1), Some(1));
    assert_eq!(col.get(3), None);
    assert_eq!(col.get(9), None);
    assert_eq!(col.get(8), Some(8));
}

#[test]
fn round_trip_zero_rows() {
    let batch = generated_batch(0);
    let bytes = encode(&batch).unwrap();
    let back = decode(&bytes).unwrap();
    assert_eq!(back.num_rows(), 0);
    assert_eq!(back.num_columns(), 2);
    assert_eq!(back.column(1).name, "column2");
}

#[test]
fn round_trip_negative_and_zero_values() {
    let c = Column {
        name: "column1".to_string(),
        nullable: true,
        values: vec![i32::MIN, -1, 0, 7, i32::MAX],
        validity: vec![true, true, false, true, true],
    };
    let batch = TableBatch::try_new(vec![c]).unwrap();
    let back = decode(&encode(&batch).unwrap()).unwrap();
    assert_same(&batch, &back);
    assert_eq!(back.column(0).get(2), None);
    assert_eq!(back.column(0).get(0), Some(i32::MIN));
}

#[test]
fn decode_garbage_is_decoding_error() {
    let r = decode(&[1, 2, 3, 4, 5]);
    assert!(matches!(r, Err(AggregateError::DecodingError(_))));
    let r = decode(&[]);
    assert!(matches!(r, Err(AggregateError::DecodingError(_))));
}

#[test]
fn decode_truncated_stream_fails() {
    let bytes = encode(&generated_batch(10)).unwrap();
    let r = decode(&bytes[..bytes.len() / 2]);
    assert!(r.is_err());
}

fn int32_schema() -> Arc<Schema> {
    Arc::new(Schema::new(vec![
        Field::new("column1", DataType::Int32, false),
        Field::new("column2", DataType::Int32, false),
    ]))
}

#[test]
fn decode_schema_only_stream_has_no_batch() {
    let mut out: Vec<u8> = Vec::new();
    {
        let mut w = StreamWriter::try_new(&mut out, &int32_schema()).unwrap();
        w.finish().unwrap();
    }
    assert_eq!(decode(&out).err(), Some(AggregateError::UnknownDecodingError));
}

#[test]
fn decode_reads_only_the_first_batch() {
    let schema = int32_schema();
    let first = RecordBatch::try_new(
        schema.clone(),
        vec![Arc::new(Int32Array::from(vec![1, 2])), Arc::new(Int32Array::from(vec![3, 4]))],
    )
    .unwrap();
    let second = RecordBatch::try_new(
        schema.clone(),
        vec![Arc::new(Int32Array::from(vec![5, 6, 7])), Arc::new(Int32Array::from(vec![8, 9, 10]))],
    )
    .unwrap();
    let mut out: Vec<u8> = Vec::new();
    {
        let mut w = StreamWriter::try_new(&mut out, &schema).unwrap();
        w.write(&first).unwrap();
        w.write(&second).unwrap();
        w.finish().unwrap();
    }
    let t = decode(&out).unwrap();
    assert_eq!(t.num_rows(), 2);
    assert_eq!(t.column(0).values, vec![1, 2]);
    assert_eq!(t.column(1).values, vec![3, 4]);
}

#[test]
fn decode_non_int32_column_is_shape_error() {
    let schema = Arc::new(Schema::new(vec![Field::new("column1", DataType::Int64, false)]));
    let b = RecordBatch::try_new(schema.clone(), vec![Arc::new(arrow::array::Int64Array::from(vec![1i64]))])
        .unwrap();
    let mut out: Vec<u8> = Vec::new();
    {
        let mut w = StreamWriter::try_new(&mut out, &schema).unwrap();
        w.write(&b).unwrap();
        w.finish().unwrap();
    }
    assert_eq!(decode(&out).err(), Some(AggregateError::ShapeError));
}

fn raw(name: &str, nullable: bool, values: Vec<i32>, validity: Vec<bool>) -> RawColumn {
    RawColumn { name: name.to_string(), nullable, data: Some((values, validity)) }
}

#[test]
fn mismatched_row_counts_are_shape_error() {
    let r = batch_from_raw(vec![
        raw("column1", false, vec![1, 2, 3], vec![true; 3]),
        raw("column2", false, vec![1, 2], vec![true; 2]),
    ]);
    assert_eq!(r.err(), Some(AggregateError::ShapeError));
}

#[test]
fn bitmap_length_mismatch_is_shape_error() {
    let r = batch_from_raw(vec![raw("column1", true, vec![1, 2, 3], vec![true; 2])]);
    assert_eq!(r.err(), Some(AggregateError::ShapeError));
}

#[test]
fn null_in_non_nullable_column_is_shape_error() {
    let r = batch_from_raw(vec![raw("column1", false, vec![1, 2], vec![true, false])]);
    assert_eq!(r.err(), Some(AggregateError::ShapeError));
}

#[test]
fn missing_int32_data_is_shape_error() {
    let r = batch_from_raw(vec![RawColumn { name: "column1".to_string(), nullable: false, data: None }]);
    assert_eq!(r.err(), Some(AggregateError::ShapeError));
}

#[test]
fn well_formed_raw_columns_make_a_batch() {
    let t = batch_from_raw(vec![
        raw("column1", true, vec![1, 0], vec![true, false]),
        raw("column2", false, vec![4, 5], vec![true, true]),
    ])
    .unwrap();
    assert_eq!(t.num_rows(), 2);
    assert_eq!(t.column(0).get(1), None);
    assert_eq!(t.column(1).get(1), Some(5));
}

#[test]
fn try_new_rejects_unequal_columns() {
    let a = Column { name: "a".to_string(), nullable: false, values: vec![1], validity: vec![true] };
    let b = Column { name: "b".to_string(), nullable: false, values: vec![1, 2], validity: vec![true, true] };
    assert!(TableBatch::try_new(vec![a, b]).is_none());
}

#[test]
fn encoded_streams_pass_the_framing_check() {
    assert!(check_stream_framing(&encode(&small_batch()).unwrap()));
    assert!(check_stream_framing(&encode(&generated_batch(10)).unwrap()));
    assert!(check_stream_framing(&encode(&generated_batch(0)).unwrap()));
    assert!(!check_stream_framing(&[]));
    assert!(!check_stream_framing(&[0xFF, 0xFF, 0xFF, 0xFF, 0, 0, 0, 0]));
}

#[test]
fn corrupted_bytes_never_panic() {
    let bytes = encode(&generated_batch(10)).unwrap();
    for i in 0..bytes.len() {
        for v in [0x00u8, 0x7F, 0xFF] {
            let mut b = bytes.clone();
            b[i] = v;
            if let Ok(t) = decode(&b) {
                assert!(t.num_columns() <= 2);
            }
        }
    }
}

#[test]
fn round_trip_with_trailing_bytes() {
    let mut bytes = encode(&small_batch()).unwrap();
    let n = bytes.len();
    bytes.truncate(n - 8);
    bytes.extend_from_slice(&encode(&generated_batch(4)).unwrap());
    let t = decode(&bytes).unwrap();
    assert_same(&small_batch(), &t);
}

#[test]
fn every_single_byte_corruption_is_handled() {
    let bytes = encode(&generated_batch(5)).unwrap();
    for i in 0..bytes.len() {
        for v in (0..=255u8).step_by(5) {
            let mut b = bytes.clone();
            b[i] = v;
            if let Ok(t) = decode(&b) {
                assert!(t.num_columns() <= 2);
            }
        }
    }
}
