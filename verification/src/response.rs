//! HTTP responses as the engine hands them back, and the snapshot kept in history.
use vstd::prelude::*;
use vstd::utf8::{valid_utf8, decode_utf8};
use crate::json::{parse_json_value, json_to_string_pretty, json_parse, pretty_json};
use crate::validation::json_error;

verus! {

/// A received HTTP response.
#[derive(Clone, Debug)]
pub struct HttpResponse {
    pub status: u16,
    pub status_text: String,
    pub headers: Vec<(String, String)>,
    pub body: Vec<u8>,
    pub size_bytes: usize,
    pub elapsed_secs: u64,
    pub elapsed_subsec_nanos: u32,
}

/// `std::str::from_utf8`: the text of a byte slice when it is valid UTF-8, as the
/// standard library documents it.
#[verifier::external_body]
pub(crate) fn utf8_text(bytes: &[u8]) -> (r: Option<&str>)
    ensures
        r is Some == valid_utf8(bytes@),
        r matches Some(s) ==> s@ == decode_utf8(bytes@),
{
    std::str::from_utf8(bytes).ok()
}

/// Whether a status code is in the success range `200..300`.
pub open spec fn success_status(status: u16) -> bool {
    200 <= status < 300
}

/// The elapsed time in whole milliseconds, as `Duration::as_millis` gives it.
pub open spec fn elapsed_millis(secs: u64, nanos: u32) -> int {
    secs as int * 1000 + nanos as int / 1_000_000
}

impl HttpResponse {
    /// The body as UTF-8 text, if it is valid UTF-8.
    pub fn body_text(&self) -> (r: Option<&str>)
        ensures
            r is Some == valid_utf8(self.body@),
            r matches Some(s) ==> s@ == decode_utf8(self.body@),
    {
        utf8_text(self.body.as_slice())
    }

    /// The body re-printed as indented JSON, when it is UTF-8 text that parses as JSON.
    pub fn pretty_body(&self) -> (r: Option<String>)
        ensures
            r is Some <==> valid_utf8(self.body@) && json_error(decode_utf8(self.body@)) is None,
            r matches Some(s) ==> s@ == pretty_json(json_parse(decode_utf8(self.body@))),
    {
        let text = self.body_text()?;
        match parse_json_value(text) {
            Ok(v) => match json_to_string_pretty(&v) {
                Ok(s) => Some(s),
                Err(_) => None,
            },
            Err(_) => None,
        }
    }

    /// Whether the status is in `200..300`.
    pub fn is_success(&self) -> (r: bool)
        ensures
            r == success_status(self.status),
    {
        200 <= self.status && self.status < 300
    }
}

/// What history keeps of a response.
#[derive(Clone, Debug)]
pub struct ResponseSnapshot {
    pub status: u16,
    pub status_text: String,
    pub size_bytes: usize,
    pub elapsed_millis: u64,
    pub success: bool,
}

/// The mathematical value of a snapshot.
pub struct SnapshotView {
    pub status: u16,
    pub status_text: Seq<char>,
    pub size_bytes: usize,
    pub elapsed_millis: u64,
    pub success: bool,
}

impl View for ResponseSnapshot {
    type V = SnapshotView;

    open spec fn view(&self) -> SnapshotView {
        SnapshotView {
            status: self.status,
            status_text: self.status_text@,
            size_bytes: self.size_bytes,
            elapsed_millis: self.elapsed_millis,
            success: self.success,
        }
    }
}

impl ResponseSnapshot {
    /// The snapshot of a response: its status, status text, size, elapsed
    /// milliseconds (cut to 64 bits) and whether it succeeded.
    pub fn from_response(resp: &HttpResponse) -> (r: ResponseSnapshot)
        ensures
            r.status == resp.status,
            r.status_text@ == resp.status_text@,
            r.size_bytes == resp.size_bytes,
            r.elapsed_millis == elapsed_millis(resp.elapsed_secs, resp.elapsed_subsec_nanos) as u64,
            r.success == success_status(resp.status),
    {
        let millis: u128 = (resp.elapsed_secs as u128) * 1000 + (resp.elapsed_subsec_nanos as u128) / 1_000_000;
        ResponseSnapshot {
            status: resp.status,
            status_text: resp.status_text.clone(),
            size_bytes: resp.size_bytes,
            elapsed_millis: #[verifier::truncate] (millis as u64),
            success: resp.is_success(),
        }
    }

    /// The snapshot recorded for a request that failed before any response came.
    pub fn failed() -> (r: ResponseSnapshot)
        ensures
            r.status == 0,
            r.status_text@ == "Error"@,
            r.size_bytes == 0,
            r.elapsed_millis == 0,
            !r.success,
    {
        ResponseSnapshot {
            status: 0,
            status_text: crate::text::to_owned_string("Error"),
            size_bytes: 0,
            elapsed_millis: 0,
            success: false,
        }
    }

    /// A copy of this snapshot.
    pub fn duplicate(&self) -> (r: ResponseSnapshot)
        ensures
            r@ == self@,
    {
        ResponseSnapshot {
            status: self.status,
            status_text: self.status_text.clone(),
            size_bytes: self.size_bytes,
            elapsed_millis: self.elapsed_millis,
            success: self.success,
        }
    }
}

} // verus!
