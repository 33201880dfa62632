//! The messages with which data is refused.

use crate::text::{decimal, i64_text, usize_text};
use vstd::prelude::*;
use vstd::string::StringExecFns;

verus! {

/// What [`get_upto_discard_error`] writes.
pub open spec fn upto_discard_message(hours: int) -> Seq<char> {
    "Too old data, only last "@ + decimal(hours)
        + " hours data can be ingested. Data discarded. You can adjust ingestion max time by setting the environment variable ZO_INGEST_ALLOWED_UPTO=<max_hours>"@
}

/// The message for records that are older than the ingestion window of `ingest_allowed_upto`
/// hours.
pub fn get_upto_discard_error(ingest_allowed_upto: i64) -> (r: String)
    ensures
        r@ == upto_discard_message(ingest_allowed_upto as int),
{
    let mut message = "Too old data, only last ".to_string();
    message.append(i64_text(ingest_allowed_upto).as_str());
    message.append(
        " hours data can be ingested. Data discarded. You can adjust ingestion max time by setting the environment variable ZO_INGEST_ALLOWED_UPTO=<max_hours>",
    );
    message
}

/// What [`get_request_columns_limit_error`] writes.
pub open spec fn columns_limit_message(stream: Seq<char>, found: int, limit: int) -> Seq<char> {
    "Got "@ + decimal(found) + " columns for stream "@ + stream + ", only "@ + decimal(limit)
        + " columns accept. Data discarded. You can adjust ingestion columns limit by setting the environment variable ZO_COLS_PER_RECORD_LIMIT=<max_columns>"@
}

/// The message for records with more columns than a record may have.
pub fn get_request_columns_limit_error(
    stream_name: &str,
    num_fields: usize,
    req_cols_per_record_limit: usize,
) -> (r: String)
    ensures
        r@ == columns_limit_message(
            stream_name@,
            num_fields as int,
            req_cols_per_record_limit as int,
        ),
{
    let mut message = "Got ".to_string();
    message.append(usize_text(num_fields).as_str());
    message.append(" columns for stream ");
    message.append(stream_name);
    message.append(", only ");
    message.append(usize_text(req_cols_per_record_limit).as_str());
    message.append(
        " columns accept. Data discarded. You can adjust ingestion columns limit by setting the environment variable ZO_COLS_PER_RECORD_LIMIT=<max_columns>",
    );
    message
}

} // verus!
