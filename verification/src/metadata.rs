//! Decoding the companion web API's track metadata responses.
//!
//! The API answers a track-id query with a JSON document: either a
//! not-found reply carrying `"code": 404`, or a record whose `item`
//! object holds the track's folder path and file name. Parsing the
//! document and projecting out those fields is serde_json's work, a
//! function of the body text alone; its outcome is named by the
//! `resp_*` spec functions, and both [`parse_lookup_response`] and
//! [`classify_response`] carry exact contracts over them.

use vstd::prelude::*;

verus! {

/// Outcome of a track metadata lookup: the track's file path and
/// title, or a not-found reply, which suppresses that tick's
/// track-change event.
#[derive(Debug)]
pub enum LookupResult {
    Found { path: String, title: String },
    NotFound,
}

/// Why a metadata response could not be used. Both cases mean the
/// response was not what this crate understands, which the caller
/// treats as a failed lookup: the tick's track-change event is
/// suppressed and the stored track state keeps its previous value.
#[derive(Clone, Copy, PartialEq, Eq, Structural, Debug)]
pub enum MetadataError {
    /// The response body is not a JSON document.
    BadJson,
    /// The response is no not-found reply, yet the folder path or the
    /// file name is missing.
    MissingField,
}

/// Whether serde_json parses the response body as a JSON document.
pub uninterp spec fn resp_is_json(body: Seq<char>) -> bool;

/// The integral `code` field of the parsed response, when the
/// document is an object with such a field.
pub uninterp spec fn resp_code_of(body: Seq<char>) -> Option<i64>;

/// The `item.FolderPath` text of the parsed response, when present.
pub uninterp spec fn resp_path_of(body: Seq<char>) -> Option<Seq<char>>;

/// The `item.FileNameL` text of the parsed response, when present.
pub uninterp spec fn resp_title_of(body: Seq<char>) -> Option<Seq<char>>;

/// Relies on serde_json: `from_str::<Value>` to parse the body, and
/// `Value::get`, `Value::as_i64`, `Value::as_str` to project out the
/// three fields the protocol speaks of. Parsing succeeds or fails on
/// the text alone, and the projections only move values out of the
/// parsed document, so all four results are functions of the body,
/// which the `resp_*` names state.
#[verifier::external_body]
fn extract_response_fields(body: &str) -> (r: Option<
    (Option<i64>, Option<String>, Option<String>),
>)
    ensures
        r is Some <==> resp_is_json(body@),
        r matches Some(f) ==> f.0 == resp_code_of(body@) && f.1.deep_view() == resp_path_of(body@)
            && f.2.deep_view() == resp_title_of(body@),
{
    let v: serde_json::Value = match serde_json::from_str(body) {
        Ok(v) => v,
        Err(_) => {
            return None;
        },
    };
    let code = v.get("code").and_then(|c| c.as_i64());
    let item = v.get("item");
    let path = item.and_then(|i| i.get("FolderPath")).and_then(|p| p.as_str()).map(str::to_owned);
    let title = item.and_then(|i| i.get("FileNameL")).and_then(|t| t.as_str()).map(str::to_owned);
    Some((code, path, title))
}

/// What a metadata response means, given its extracted fields: a
/// `"code"` of 404 is a not-found reply; any other response must
/// carry both the folder path and the file name, and a response
/// without them cannot be used.
pub fn classify_response(code: Option<i64>, path: Option<String>, title: Option<String>) -> (r:
    Result<LookupResult, MetadataError>)
    ensures
        code == Some(404i64) ==> r == Ok::<LookupResult, MetadataError>(LookupResult::NotFound),
        code != Some(404i64) && (path is None || title is None) ==> r == Err::<
            LookupResult,
            MetadataError,
        >(MetadataError::MissingField),
        code != Some(404i64) && path is Some && title is Some ==> (r matches Ok(
            LookupResult::Found { path: p, title: t },
        ) && p == path->0 && t == title->0),
{
    if let Some(c) = code {
        if c == 404 {
            return Ok(LookupResult::NotFound);
        }
    }
    match (path, title) {
        (Some(p), Some(t)) => Ok(LookupResult::Found { path: p, title: t }),
        _ => Err(MetadataError::MissingField),
    }
}

/// Decodes one metadata response body: a body that is no JSON cannot
/// be used; a `"code"` of 404 is a not-found reply; any other
/// document must carry both `item.FolderPath` and `item.FileNameL`,
/// which become the track's path and title.
pub fn parse_lookup_response(body: &str) -> (r: Result<LookupResult, MetadataError>)
    ensures
        !resp_is_json(body@) ==> r == Err::<LookupResult, MetadataError>(MetadataError::BadJson),
        resp_is_json(body@) && resp_code_of(body@) == Some(404i64) ==> r == Ok::<
            LookupResult,
            MetadataError,
        >(LookupResult::NotFound),
        resp_is_json(body@) && resp_code_of(body@) != Some(404i64) && (resp_path_of(body@) is None
            || resp_title_of(body@) is None) ==> r == Err::<LookupResult, MetadataError>(
            MetadataError::MissingField,
        ),
        resp_is_json(body@) && resp_code_of(body@) != Some(404i64) && resp_path_of(
            body@,
        ) is Some && resp_title_of(body@) is Some ==> (r matches Ok(
            LookupResult::Found { path: p, title: t },
        ) && p@ == resp_path_of(body@)->0 && t@ == resp_title_of(body@)->0),
{
    let fields = match extract_response_fields(body) {
        Some(f) => f,
        None => {
            return Err(MetadataError::BadJson);
        },
    };
    let (code, path, title) = fields;
    proof {
        assert(path.deep_view() == resp_path_of(body@));
        assert(title.deep_view() == resp_title_of(body@));
    }
    classify_response(code, path, title)
}

} // verus!
