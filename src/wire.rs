//! The calls into serde_json, base64 and std's case mapping that the library
//! relies on, each with the contract it is trusted to meet.
use vstd::prelude::*;
use crate::table::strings_view;

verus! {

#[verifier::external_type_specification]
#[verifier::external_body]
pub struct ExJsonError(serde_json::Error);

/// The column list that a schema descriptor names under `columnNames`, or
/// `None` where the bytes are no JSON document or that member is no list of
/// strings.
pub uninterp spec fn schema_columns(chunk: Seq<u8>) -> Option<Seq<Seq<char>>>;

/// The compact JSON text of each element of the array that a row chunk holds,
/// or `None` where the bytes are no JSON array.
pub uninterp spec fn row_cells(chunk: Seq<u8>) -> Option<Seq<Seq<char>>>;

/// Unicode lower-casing of a text.
pub uninterp spec fn lower_of(s: Seq<char>) -> Seq<char>;

/// The standard base64 encoding (with padding) of a byte string.
pub uninterp spec fn base64_of(b: Seq<u8>) -> Seq<char>;

/// A text written as a JSON string literal: quoted and escaped.
pub uninterp spec fn json_string_text(s: Seq<char>) -> Seq<char>;

/// Relies on serde_json::from_slice, which reads the chunk as a JSON document,
/// and serde_json::from_value, which reads its `columnNames` member (JSON null
/// where it is missing) as a list of strings. Both depend on the bytes alone.
#[verifier::external_body]
pub(crate) fn parse_schema_columns(chunk: &[u8]) -> (r: Result<Vec<String>, serde_json::Error>)
    ensures
        r is Ok <==> schema_columns(chunk@) is Some,
        r matches Ok(names) ==> schema_columns(chunk@) == Some(strings_view(names@)),
{
    let doc: serde_json::Value = serde_json::from_slice(chunk)?;
    serde_json::from_value(doc["columnNames"].clone())
}

/// Relies on serde_json::from_slice, which reads the chunk as a JSON array,
/// and on the compact text that serde_json's `Display` gives each element.
#[verifier::external_body]
pub(crate) fn parse_row_cells(chunk: &[u8]) -> (r: Result<Vec<String>, serde_json::Error>)
    ensures
        r is Ok <==> row_cells(chunk@) is Some,
        r matches Ok(cells) ==> row_cells(chunk@) == Some(strings_view(cells@)),
{
    let cells: Vec<serde_json::Value> = serde_json::from_slice(chunk)?;
    Ok(cells.iter().map(|cell| cell.to_string()).collect())
}

/// Relies on str::to_lowercase, whose result depends on the characters alone.
#[verifier::external_body]
pub(crate) fn lowercase(s: &str) -> (r: String)
    ensures
        r@ == lower_of(s@),
{
    s.to_lowercase()
}

/// Relies on base64::encode_config with base64::STANDARD, which panics only
/// where the encoded length overflows `usize`.
#[verifier::external_body]
pub(crate) fn encode_base64(b: &[u8]) -> (r: String)
    requires
        b@.len() <= usize::MAX / 2,
    ensures
        r@ == base64_of(b@),
{
    base64::encode_config(b, base64::STANDARD)
}

/// Relies on the `Display` of serde_json::Value on a JSON string, which writes
/// it quoted and escaped.
#[verifier::external_body]
pub(crate) fn json_string(s: &str) -> (r: String)
    ensures
        r@ == json_string_text(s@),
{
    serde_json::Value::String(s.to_owned()).to_string()
}

} // verus!
