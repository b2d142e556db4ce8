//! The response envelope of the management and synthesized responses, and
//! the mapping from a request's outcome to an HTTP status with a JSON body.

use vstd::prelude::*;
use crate::errors::MockError;
use crate::jsontext::json_quoted;

verus! {

/// A service as the listing endpoint reports it: its name and the methods
/// its stored documents announce.
pub struct ServiceInfo {
    pub name: String,
    pub methods: Vec<String>,
}

/// The uniform response envelope: success flag, payload, error message.
pub struct ApiResponse<T> {
    pub success: bool,
    pub data: Option<T>,
    pub error: Option<String>,
}

impl<T> ApiResponse<T> {
    /// A successful envelope carrying `data`.
    pub fn success(data: T) -> (r: ApiResponse<T>)
        ensures
            r.success == true,
            r.data == Some(data),
            r.error is None,
    {
        ApiResponse { success: true, data: Some(data), error: None }
    }

    /// A failed envelope carrying a message.
    pub fn error(message: &str) -> (r: ApiResponse<T>)
        ensures
            r.success == false,
            r.data is None,
            r.error matches Some(m) && m@ == message@,
    {
        ApiResponse { success: false, data: None, error: Some(String::from_str(message)) }
    }
}

/// The envelope text of a failure: `{"success":false,"data":null,"error":<quoted message>}`.
pub open spec fn error_envelope_text(message: Seq<char>) -> Seq<char> {
    "{\"success\":false,\"data\":null,\"error\":"@ + json_quoted(message) + "}"@
}

/// Serialize a failed envelope.
pub fn error_envelope(message: &str) -> (r: String)
    ensures
        r@ == error_envelope_text(message@),
{
    let q = crate::jsontext::json_quote(message);
    let out = String::from_str("{\"success\":false,\"data\":null,\"error\":").concat(
        q.as_str(),
    ).concat("}");
    proof {
        assert(out@ =~= error_envelope_text(message@));
    }
    out
}

/// The envelope text of a success whose payload is already JSON text:
/// `{"success":true,"data":<payload>,"error":null}`.
pub open spec fn success_envelope_text(data_json: Seq<char>) -> Seq<char> {
    "{\"success\":true,\"data\":"@ + data_json + ",\"error\":null}"@
}

/// Serialize a successful envelope around JSON payload text.
pub fn success_envelope(data_json: &str) -> (r: String)
    ensures
        r@ == success_envelope_text(data_json@),
{
    let out = String::from_str("{\"success\":true,\"data\":").concat(data_json).concat(
        ",\"error\":null}",
    );
    proof {
        assert(out@ =~= success_envelope_text(data_json@));
    }
    out
}

/// Map a request's outcome to its HTTP status and JSON body: a successful
/// synthesis is served verbatim with 200; an error is served under its
/// response category, wrapped in the failure envelope around its message.
pub fn respond(result: Result<String, MockError>) -> (r: (u16, String))
    ensures
        result matches Ok(body) ==> r.0 == 200 && r.1@ == body@,
        result matches Err(e) ==> r.0 == e.spec_status() && r.1@ == error_envelope_text(
            e.spec_message_text(),
        ),
{
    match result {
        Ok(body) => (200, body),
        Err(e) => {
            let msg = e.message();
            let status = e.status();
            (status, error_envelope(msg.as_str()))
        },
    }
}

} // verus!
