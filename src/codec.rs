use std::sync::Arc;

use arrow::array::{Array, ArrayRef, AsArray, Int32Array};
use arrow::buffer::NullBuffer;
use arrow::datatypes::{DataType, Field, Int32Type, Schema};
use arrow::ipc::reader::StreamReader;
use arrow::ipc::writer::StreamWriter;
use arrow::record_batch::RecordBatch;
use vstd::prelude::*;

use crate::error::AggregateError;
use crate::framing::{check_stream_framing, stream_framing_ok};
use crate::table::{declared_rows, table_fits, Column, ColumnModel, TableBatch};

verus! {

/// The bytes of an arrow IPC stream's schema message and batch message
/// for the given columns, without the end-of-stream marker. Arrow writes the
/// value buffers in the machine's byte order and declares little endian, so
/// this is a function of the columns on a little-endian machine.
pub uninterp spec fn ipc_stream_of(t: Seq<ColumnModel>) -> Seq<u8>;

/// The end-of-stream marker: the continuation marker and a zero length.
pub open spec fn end_of_stream() -> Seq<u8> {
    seq![255u8, 255, 255, 255, 0, 0, 0, 0]
}

/// The model of a list of columns.
pub open spec fn columns_model(cs: Seq<Column>) -> Seq<ColumnModel> {
    cs.map_values(|c: Column| c.model())
}

/// A column as the decoder hands it out: `data` is `None` where the column's
/// element type is not `Int32`.
pub struct RawColumn {
    pub name: String,
    pub nullable: bool,
    pub data: Option<(Vec<i32>, Vec<bool>)>,
}

impl RawColumn {
    pub open spec fn model(&self) -> ColumnModel {
        (
            self.name@,
            self.nullable,
            match self.data {
                Some(d) => Some((d.0@, d.1@)),
                None => None,
            },
        )
    }
}

pub open spec fn raw_model(cs: Seq<RawColumn>) -> Seq<ColumnModel> {
    cs.map_values(|c: RawColumn| c.model())
}

/// Relies on `RecordBatch::try_new` over one `Field` (`Int32`) and one
/// `Int32Array::new` (values and a `NullBuffer` of the validity flags) per
/// column, then on arrow's `StreamWriter` (`try_new`, `write`, `finish`) into
/// a `Vec`. `try_new` fails only on zero columns, unequal lengths or a null in
/// a non-nullable field; writing to a `Vec` does not fail. The bytes are a
/// schema message (`Int` fields), one batch message whose buffers lie inside
/// its body, and the end-of-stream marker.
#[verifier::external_body]
fn write_ipc_stream(columns: &Vec<Column>) -> (r: Result<Vec<u8>, String>)
    requires
        forall|i: int|
            0 <= i < columns@.len() ==> #[trigger] columns@[i].values@.len()
                == columns@[i].validity@.len(),
    ensures
        columns@.len() > 0 && table_fits(columns_model(columns@)) ==> r is Ok,
        r matches Ok(b) ==> b@ == ipc_stream_of(columns_model(columns@)) + end_of_stream(),
        r matches Ok(b) ==> (declared_rows(columns_model(columns@)) < 0x8000_0000 ==> forall|
            rest: Seq<u8>,
        | #[trigger] stream_framing_ok(b@.subrange(0, b@.len() - 8) + rest)),
{
    let fields: Vec<Field> = columns.iter().map(|c| Field::new(c.name.as_str(), DataType::Int32, c.nullable)).collect();
    let arrays: Vec<ArrayRef> = columns.iter().map(|c| Arc::new(Int32Array::new(c.values.clone().into(), Some(NullBuffer::from(c.validity.clone())))) as ArrayRef).collect();
    let mut out = Vec::new();
    RecordBatch::try_new(Arc::new(Schema::new(fields)), arrays).and_then(|b| {
        let mut w = StreamWriter::try_new(&mut out, &b.schema())?;
        w.write(&b)?;
        w.finish()
    }).map_err(|e| e.to_string())?;
    Ok(out)
}

/// Relies on arrow's `StreamReader` (`try_new`, then `next` once), then on
/// `RecordBatch::schema`/`columns` and `AsArray::as_primitive_opt` to hand
/// out each column. It reads the schema message and the first batch
/// message and looks at nothing after it; on bytes that start with what
/// `StreamWriter` wrote for some columns, it gives back those columns. It
/// slices each buffer out of the body unchecked, which is why the framing
/// must be checked first.
#[verifier::external_body]
fn read_first_ipc_batch(bytes: &[u8]) -> (r: Result<Option<Vec<RawColumn>>, String>)
    requires
        stream_framing_ok(bytes@),
    ensures
        match r {
            Ok(Some(cols)) => forall|t: Seq<ColumnModel>|
                table_fits(t) && t.len() > 0 && (#[trigger] ipc_stream_of(t)).is_prefix_of(bytes@)
                    ==> raw_model(cols@) == t,
            _ => forall|t: Seq<ColumnModel>|
                table_fits(t) && t.len() > 0 ==> !(#[trigger] ipc_stream_of(t)).is_prefix_of(bytes@),
        },
{
    let batch = StreamReader::try_new(bytes, None).and_then(|mut r| r.next().transpose()).map_err(|e| e.to_string())?;
    Ok(batch.map(|b| b.schema().fields().iter().zip(b.columns()).map(|(f, a)| RawColumn {
        name: f.name().clone(),
        nullable: f.is_nullable(),
        data: a.as_primitive_opt::<Int32Type>().map(|p| (p.values().to_vec(), p.iter().map(|v| v.is_some()).collect())),
    }).collect()))
}

/// Turns decoded columns into a table batch. It succeeds exactly when every
/// column holds `Int32` values, all columns have one row count, and no column
/// declared non-nullable holds a null; it fails with `ShapeError` otherwise.
pub fn batch_from_raw(raw: Vec<RawColumn>) -> (r: Result<TableBatch, AggregateError>)
    ensures
        table_fits(raw_model(raw@)) ==> (r matches Ok(t) && t.model() == raw_model(raw@)),
        !table_fits(raw_model(raw@)) ==> r == Err::<TableBatch, AggregateError>(
            AggregateError::ShapeError,
        ),
{
    let ghost whole = raw_model(raw@);
    let mut rest = raw;
    let mut columns: Vec<Column> = Vec::new();
    while rest.len() > 0
        invariant
            columns_model(columns@) + raw_model(rest@) == whole,
            whole == raw_model(raw@),
            forall|i: int| 0 <= i < columns@.len() ==> (#[trigger] columns_model(columns@)[i]).2 is Some,
        decreases rest.len(),
    {
        let ghost before = rest@;
        let c = rest.remove(0);
        assert(raw_model(before) == seq![c.model()] + raw_model(rest@));
        match c.data {
            Some((values, validity)) => {
                let ghost prev = columns@;
                columns.push(Column { name: c.name, nullable: c.nullable, values, validity });
                assert(columns_model(columns@) == columns_model(prev) + seq![c.model()]);
            },
            None => {
                let k = columns.len();
                assert(columns_model(columns@).len() == k);
                assert(whole[k as int] == c.model());
                assert(k < whole.len());
                assert(!crate::table::column_fits(whole[k as int], crate::table::declared_rows(whole)));
                assert(!table_fits(whole));
                return Err(AggregateError::ShapeError);
            },
        }
    }
    assert(columns_model(columns@) == whole);
    match TableBatch::try_new(columns) {
        Some(t) => Ok(t),
        None => Err(AggregateError::ShapeError),
    }
}

/// Turns what the stream reader gave back into a batch: its error becomes
/// `DecodingError`, a stream without a batch message `UnknownDecodingError`,
/// and decoded columns go through `batch_from_raw`.
pub fn batch_from_read(read: Result<Option<Vec<RawColumn>>, String>) -> (r: Result<
    TableBatch,
    AggregateError,
>)
    ensures
        read matches Err(m) ==> r == Err::<TableBatch, AggregateError>(
            AggregateError::DecodingError(m),
        ),
        read matches Ok(None) ==> r == Err::<TableBatch, AggregateError>(
            AggregateError::UnknownDecodingError,
        ),
        read matches Ok(Some(raw)) ==> (table_fits(raw_model(raw@)) ==> (r matches Ok(t) && t.model()
            == raw_model(raw@))),
        read matches Ok(Some(raw)) ==> (!table_fits(raw_model(raw@)) ==> r == Err::<
            TableBatch,
            AggregateError,
        >(AggregateError::ShapeError)),
{
    match read {
        Err(m) => Err(AggregateError::DecodingError(m)),
        Ok(None) => Err(AggregateError::UnknownDecodingError),
        Ok(Some(raw)) => batch_from_raw(raw),
    }
}

/// Encodes a batch as a stream: one schema message, one batch message and
/// the end-of-stream marker. A batch with at least one column always encodes.
pub fn encode(batch: &TableBatch) -> (r: Result<Vec<u8>, AggregateError>)
    requires
        batch.wf(),
    ensures
        batch.columns@.len() > 0 ==> r is Ok,
        r matches Ok(bytes) ==> bytes@ == ipc_stream_of(batch.model()) + end_of_stream(),
        r matches Ok(bytes) ==> (batch.rows() < 0x8000_0000 ==> forall|rest: Seq<u8>|
            #[trigger] stream_framing_ok(ipc_stream_of(batch.model()) + rest)),
        r matches Err(e) ==> e is EncodingError,
{
    proof {
        assert forall|i: int| 0 <= i < batch.columns@.len() implies #[trigger] batch.columns@[i].values@.len()
            == batch.columns@[i].validity@.len() by {
            assert(crate::table::column_fits(batch.model()[i], batch.rows()));
        }
    }
    match write_ipc_stream(&batch.columns) {
        Err(m) => Err(AggregateError::EncodingError(m)),
        Ok(bytes) => {
            proof {
                let head = ipc_stream_of(batch.model());
                assert(bytes@.subrange(0, bytes@.len() - 8) =~= head);
            }
            Ok(bytes)
        },
    }
}

/// Decodes a stream: checks its framing, then reads the schema message and
/// exactly one batch message, ignoring anything after it. A field whose type
/// is not an integer type fails the framing check and gives `DecodingError`;
/// an integer column other than `Int32` gives `ShapeError`. Bytes that start
/// with the encoding of a well-formed batch decode to that same batch: the
/// same schema, row count, values and validity.
pub fn decode(bytes: &[u8]) -> (r: Result<TableBatch, AggregateError>)
    ensures
        r matches Ok(t) ==> t.wf(),
        r matches Err(e) ==> (e is DecodingError || e is UnknownDecodingError || e is ShapeError),
        !stream_framing_ok(bytes@) ==> r matches Err(AggregateError::DecodingError(_)),
        forall|t: Seq<ColumnModel>|
            table_fits(t) && t.len() > 0 && stream_framing_ok(bytes@) && (#[trigger] ipc_stream_of(
                t,
            )).is_prefix_of(bytes@) ==> (r matches Ok(d) && d.model() == t),
{
    if !check_stream_framing(bytes) {
        return Err(AggregateError::DecodingError("malformed stream framing".to_owned()));
    }
    batch_from_read(read_first_ipc_batch(bytes))
}

} // verus!
