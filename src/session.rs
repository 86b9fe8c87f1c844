use vstd::prelude::*;

use crate::codec::{decode, ipc_stream_of};
use crate::framing::stream_framing_ok;
use crate::engine::{aggregate, aggregate_outcome, AggregateTask};
use crate::error::AggregateError;
use crate::table::{declared_rows, table_fits, ColumnModel, TableBatch};

verus! {

/// A client-side session: Empty, or Loaded with exactly one decoded batch.
pub struct Dataset {
    internal: Option<TableBatch>,
}

impl Dataset {
    /// The batch that the session holds, if any.
    pub closed spec fn state(&self) -> Option<Seq<ColumnModel>> {
        match self.internal {
            Some(t) => Some(t.model()),
            None => None,
        }
    }

    /// A held batch is well formed.
    pub closed spec fn wf(&self) -> bool {
        match self.internal {
            Some(t) => t.wf(),
            None => true,
        }
    }

    /// An Empty session.
    pub fn new() -> (r: Self)
        ensures
            r.wf(),
            r.state() is None,
    {
        Dataset { internal: None }
    }

    /// Takes what the transport delivered: on a transport failure, reports
    /// `RequestFailed` with its diagnostic; else decodes the bytes, holds the
    /// batch in place of any earlier one and returns its row count. On any
    /// failure the session keeps what it held.
    pub fn fetch_data(&mut self, response: Result<Vec<u8>, String>) -> (r: Result<
        usize,
        AggregateError,
    >)
        requires
            old(self).wf(),
        ensures
            final(self).wf(),
            r is Err ==> final(self).state() == old(self).state(),
            r matches Ok(n) ==> (final(self).state() matches Some(t) && table_fits(t) && n
                == declared_rows(t)),
            response matches Err(msg) ==> r == Err::<usize, AggregateError>(
                AggregateError::RequestFailed(msg),
            ),
            response matches Ok(bytes) ==> (!stream_framing_ok(bytes@) ==> r matches Err(
                AggregateError::DecodingError(_),
            )),
            response matches Ok(bytes) ==> forall|t: Seq<ColumnModel>|
                table_fits(t) && t.len() > 0 && stream_framing_ok(bytes@) && (#[trigger] ipc_stream_of(
                    t,
                )).is_prefix_of(bytes@) ==> (r == Ok::<usize, AggregateError>(
                    declared_rows(t) as usize,
                ) && final(self).state() == Some(t)),
    {
        match response {
            Err(msg) => Err(AggregateError::RequestFailed(msg)),
            Ok(bytes) => match decode(bytes.as_slice()) {
                Err(e) => Err(e),
                Ok(batch) => {
                    let rows = batch.num_rows();
                    self.internal = Some(batch);
                    Ok(rows)
                },
            },
        }
    }

    /// Runs a query: 0 on an Empty session, else what the engine gives on
    /// the held batch. The session is left as it is.
    pub fn aggregate_data(&self, task: AggregateTask) -> (r: Result<i32, AggregateError>)
        requires
            self.wf(),
        ensures
            r == match self.state() {
                None => Ok(0),
                Some(t) => aggregate_outcome(t, task),
            },
    {
        match &self.internal {
            Some(batch) => aggregate(batch, task),
            None => Ok(0),
        }
    }

    /// The row count of the held batch, or 0 when Empty.
    pub fn row_count(&self) -> (r: usize)
        requires
            self.wf(),
        ensures
            r == match self.state() {
                None => 0,
                Some(t) => declared_rows(t),
            },
    {
        match &self.internal {
            Some(batch) => batch.num_rows(),
            None => 0,
        }
    }
}

} // verus!
