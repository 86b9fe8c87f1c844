use vstd::prelude::*;

verus! {

/// Why fetching, decoding or aggregating failed.
#[derive(Debug, PartialEq, Eq)]
pub enum AggregateError {
    /// The transport did not deliver the data; carries its diagnostic.
    RequestFailed(String),
    /// The bytes are not a well-framed stream; carries the decoder's message.
    DecodingError(String),
    /// The stream holds a schema but no batch message.
    UnknownDecodingError,
    /// The batch could not be written; carries the encoder's message.
    EncodingError(String),
    /// The columns do not have the expected element type or row counts.
    ShapeError,
    /// A column that the query reads is missing from the batch.
    ConverError,
    /// The query's result does not fit a 32-bit integer.
    ComputeError,
}

} // verus!
