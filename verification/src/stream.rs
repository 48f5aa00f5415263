use vstd::prelude::*;

use crate::error::CyphrError;
use crate::record::Row;
use crate::traits::FromCyphr;

verus! {

/// `r` is what a stream yields for one item pulled from the driver: the
/// end stays the end, a driver error becomes a `Neo4j` error, and a row is
/// read as `T`.
pub open spec fn item_read<T: FromCyphr>(
    item: Option<Result<Row, neo4rs::Error>>,
    r: Option<Result<T, CyphrError>>,
) -> bool {
    match item {
        None => r is None,
        Some(Err(e)) => r == Some(Err::<T, CyphrError>(CyphrError::Neo4j(e))),
        Some(Ok(row)) => r matches Some(x) && T::record_converts(row@, x),
    }
}

/// What a stream of results yields for one item pulled from the driver.
pub fn next_item<T: FromCyphr>(item: Option<Result<Row, neo4rs::Error>>) -> (r: Option<Result<T, CyphrError>>)
    ensures
        item_read(item, r),
{
    match item {
        None => None,
        Some(Err(e)) => Some(Err(CyphrError::Neo4j(e))),
        Some(Ok(row)) => Some(T::from_record(&row)),
    }
}

/// A stream over rows `rows` followed by the end yields, call after call,
/// each row read as `T` (a row that does not convert does not end the
/// stream), then `None`.
pub proof fn lemma_stream_reads<T: FromCyphr>(
    rows: Seq<Row>,
    outs: Seq<Option<Result<T, CyphrError>>>,
)
    requires
        outs.len() == rows.len() + 1,
        forall|k: int|
            0 <= k < rows.len() ==> item_read(
                Some(Ok::<Row, neo4rs::Error>(rows[k])),
                #[trigger] outs[k],
            ),
        item_read(None::<Result<Row, neo4rs::Error>>, outs[rows.len() as int]),
    ensures
        forall|k: int|
            0 <= k < rows.len() ==> (#[trigger] outs[k] matches Some(x) && T::record_converts(
                rows[k]@,
                x,
            )),
        outs[rows.len() as int] is None,
{
}

} // verus!
