//! What the library reads out of the JSON that the engine prints, and the
//! trusted calls into `serde_json` that read it.
use serde_json::Value;
use vstd::prelude::*;

verus! {

/// The fields of one progress report (one JSON object per line).
pub struct ProgressFields {
    /// `"status"`, when it is a string.
    pub status: Option<String>,
    /// `"downloaded_bytes"`, when it is a non-negative integer.
    pub downloaded_bytes: Option<u64>,
    /// `"total_bytes"`, when it is a non-negative integer.
    pub total_bytes: Option<u64>,
    /// `"total_bytes_estimate"`, when it is a number, cut to an integer as `f64 as u64` does.
    pub total_bytes_estimate: Option<u64>,
    /// `"speed"`, when it is a number, as the decimal text of its `f64` value.
    pub speed: Option<String>,
    /// `"eta"`, when it is a number, as the decimal text of its `f64` value.
    pub eta: Option<String>,
}

/// The scalar fields of a media description. For the three keys that name
/// the uploader, `None` means the key is absent and `Some(None)` that its
/// value is not a string.
pub struct MetadataFields {
    /// `"_type"`, when it is a string.
    pub kind: Option<String>,
    pub title: Option<String>,
    pub thumbnail: Option<String>,
    pub uploader: Option<Option<String>>,
    pub channel: Option<Option<String>>,
    pub uploader_id: Option<Option<String>>,
    pub extractor_key: Option<String>,
}

/// The number and the array fields of a media description.
pub struct MetadataDetails {
    /// `"duration"`, when it is a number, as the decimal text of its `f64` value.
    pub duration: Option<String>,
    /// When `"thumbnails"` is an array: the `"url"` of each of its elements, when that is a string.
    pub thumbnail_urls: Option<Vec<Option<String>>>,
    /// When `"entries"` is an array: for each of its elements, what `thumbnail_urls` is for it.
    pub entry_thumbnail_urls: Option<Vec<Option<Vec<Option<String>>>>>,
}

/// What `serde_json` reads out of one progress line; `None` when the line is not JSON.
pub uninterp spec fn progress_fields(line: Seq<char>) -> Option<ProgressFields>;

/// What `serde_json` reads out of a media description's scalar fields; `None` when the bytes are not JSON.
pub uninterp spec fn metadata_fields(stdout: Seq<u8>) -> Option<MetadataFields>;

/// What `serde_json` reads out of a media description's duration and arrays; `None` when the bytes are not JSON.
pub uninterp spec fn metadata_details(stdout: Seq<u8>) -> Option<MetadataDetails>;

/// Parses `line` with `serde_json::from_str` into a `serde_json::Value` and reads its
/// fields with `Value::get`, `as_str`, `as_u64` and `as_f64`; the result is `None` when
/// `from_str` fails. The contract claims only that the result is a function of the line's
/// characters.
#[verifier::external_body]
pub(crate) fn read_progress_fields(line: &str) -> (r: Option<ProgressFields>)
    ensures
        r == progress_fields(line@),
{
    let p: Value = serde_json::from_str(line).ok()?;
    Some(ProgressFields {
        status: p.get("status").and_then(Value::as_str).map(String::from),
        downloaded_bytes: p.get("downloaded_bytes").and_then(Value::as_u64),
        total_bytes: p.get("total_bytes").and_then(Value::as_u64),
        total_bytes_estimate: p.get("total_bytes_estimate").and_then(Value::as_f64).map(|f| f as u64),
        speed: p.get("speed").and_then(Value::as_f64).map(|f| f.to_string()),
        eta: p.get("eta").and_then(Value::as_f64).map(|f| f.to_string()),
    })
}

/// Parses `stdout` with `serde_json::from_slice` into a `serde_json::Value` and reads its
/// string fields with `Value::get` and `as_str`. The contract claims only that the
/// result is a function of the bytes.
#[verifier::external_body]
pub(crate) fn read_metadata_fields(stdout: &[u8]) -> (r: Option<MetadataFields>)
    ensures
        r == metadata_fields(stdout@),
{
    let v: Value = serde_json::from_slice(stdout).ok()?;
    Some(MetadataFields {
        kind: v.get("_type").and_then(Value::as_str).map(String::from),
        title: v.get("title").and_then(Value::as_str).map(String::from),
        thumbnail: v.get("thumbnail").and_then(Value::as_str).map(String::from),
        uploader: v.get("uploader").map(|x| x.as_str().map(String::from)),
        channel: v.get("channel").map(|x| x.as_str().map(String::from)),
        uploader_id: v.get("uploader_id").map(|x| x.as_str().map(String::from)),
        extractor_key: v.get("extractor_key").and_then(Value::as_str).map(String::from),
    })
}

/// Parses `stdout` with `serde_json::from_slice` into a `serde_json::Value` and reads its
/// `"duration"` (with `as_f64`), and the `"url"` of each element of its `"thumbnails"` array
/// and of the `"thumbnails"` array of each element of its `"entries"` array (with `Value::get`,
/// `as_array` and `as_str`). The contract claims only that the result is a function of the bytes.
#[verifier::external_body]
pub(crate) fn read_metadata_details(stdout: &[u8]) -> (r: Option<MetadataDetails>)
    ensures
        r == metadata_details(stdout@),
{
    let v: Value = serde_json::from_slice(stdout).ok()?;
    let urls = |t: &Value| -> Option<Vec<Option<String>>> {
        let list = t.get("thumbnails")?.as_array()?;
        Some(list.iter().map(|x| x.get("url").and_then(Value::as_str).map(String::from)).collect())
    };
    Some(MetadataDetails {
        duration: v.get("duration").and_then(Value::as_f64).map(|f| f.to_string()),
        thumbnail_urls: urls(&v),
        entry_thumbnail_urls: v.get("entries").and_then(Value::as_array).map(|e| e.iter().map(urls).collect()),
    })
}

} // verus!
