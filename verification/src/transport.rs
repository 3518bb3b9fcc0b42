//! Transport-level interpretation of one HTTP exchange.
//!
//! The network call itself happens outside; what is verified here is the
//! decision logic around it: the HTTP status is interpreted before any
//! attempt to decode the body, a non-success status becomes a typed
//! failure carrying status, reason phrase and request id, and a decoded
//! body with a service-level `errors` collection is a failure even under
//! HTTP 200.

use vstd::prelude::*;

use crate::error::CliError;
use crate::json::{spec_get, JsonValue};
use crate::text::{append_u64, dec_digits};

verus! {

use vstd::string::StringExecFns;

/// The canonical reason phrase for an HTTP status code, a fixed table
/// keyed by the code alone.
pub uninterp spec fn reason_of(status: int) -> Option<Seq<char>>;

/// Relies on reqwest's `StatusCode::from_u16` and
/// `StatusCode::canonical_reason`: the reason phrase is a fixed table
/// lookup depending on the numeric code alone.
#[verifier::external_body]
fn status_reason(status: u16) -> (r: Option<String>)
    ensures
        match r {
            Option::Some(s) => reason_of(status as int) == Option::Some(s@),
            Option::None => reason_of(status as int) is None,
        },
{
    match reqwest::StatusCode::from_u16(status) {
        Ok(code) => code.canonical_reason().map(|reason| reason.to_string()),
        Err(_) => None,
    }
}

/// The machine code for a failing HTTP status: authentication and
/// permission failures, a missing resource, rate limiting, or a generic
/// HTTP failure.
pub open spec fn http_error_code(status: u16) -> u8 {
    if status == 401 || status == 403 {
        3
    } else if status == 404 {
        2
    } else if status == 429 {
        4
    } else {
        1
    }
}

/// The reason phrase used in messages and details: the canonical one, or
/// a fixed fallback for unassigned codes.
pub open spec fn reason_text(status: u16) -> Seq<char> {
    match reason_of(status as int) {
        Option::Some(s) => s,
        Option::None => "Unknown error"@,
    }
}

/// The human message for a failing HTTP status.
pub open spec fn http_error_message(status: u16, context: Seq<char>) -> Seq<char> {
    if status == 401 {
        "Authentication failed - check your API key"@
    } else if status == 403 {
        "Access denied - "@ + context
    } else if status == 404 {
        context + " not found"@
    } else if status == 429 {
        "Rate limit exceeded"@
    } else {
        "HTTP "@ + dec_digits(status as int) + " "@ + reason_text(status)
    }
}

/// The diagnostic record attached to an HTTP failure: status code, reason
/// phrase, and the request id when the response carried one.
pub open spec fn http_details_wf(d: JsonValue, status: u16, request_id: Option<String>) -> bool {
    &&& d matches JsonValue::Obj(pairs)
    &&& pairs@.len() == 3
    &&& pairs@[0].0@ == "status"@
    &&& pairs@[0].1 == JsonValue::Int(status as i64)
    &&& pairs@[1].0@ == "reason"@
    &&& pairs@[1].1 matches JsonValue::Str(s) && s@ == reason_text(status)
    &&& pairs@[2].0@ == "request_id"@
    &&& match request_id {
        Option::Some(id) => pairs@[2].1 matches JsonValue::Str(s) && s@ == id@,
        Option::None => pairs@[2].1 is Null,
    }
}

/// Build the typed failure for a non-success HTTP status: the code and
/// message follow the status taxonomy, the server's retry hint is kept
/// for rate limiting only, and the diagnostic record is attached.
pub fn http_error(status: u16, retry_after: Option<u64>, request_id: Option<String>, context: &str)
    -> (r: CliError)
    ensures
        r.code == http_error_code(status),
        r.message@ == http_error_message(status, context@),
        r.retry_after == if status == 429 {
            retry_after
        } else {
            Option::<u64>::None
        },
        r.details matches Option::Some(d) && http_details_wf(d, status, request_id),
{
    let reason: String = match status_reason(status) {
        Option::Some(s) => s,
        Option::None => String::from_str("Unknown error"),
    };
    let message: String = if status == 401 {
        String::from_str("Authentication failed - check your API key")
    } else if status == 403 {
        let mut m = String::from_str("Access denied - ");
        m.append(context);
        m
    } else if status == 404 {
        let mut m = context.to_owned();
        m.append(" not found");
        m
    } else if status == 429 {
        String::from_str("Rate limit exceeded")
    } else {
        let mut m = String::from_str("HTTP ");
        append_u64(&mut m, status as u64);
        m.append(" ");
        m.append(reason.as_str());
        m
    };
    let mut pairs: Vec<(String, JsonValue)> = Vec::new();
    pairs.push((String::from_str("status"), JsonValue::Int(status as i64)));
    pairs.push((String::from_str("reason"), JsonValue::Str(reason)));
    pairs.push(
        (
            String::from_str("request_id"),
            match request_id {
                Option::Some(id) => JsonValue::Str(id),
                Option::None => JsonValue::Null,
            },
        ),
    );
    let err = CliError::new(http_error_code_exec(status), message.as_str());
    let err = if status == 429 {
        err.with_retry_after(retry_after)
    } else {
        err
    };
    err.with_details(JsonValue::Obj(pairs))
}

fn http_error_code_exec(status: u16) -> (r: u8)
    ensures
        r == http_error_code(status),
{
    if status == 401 || status == 403 {
        3
    } else if status == 404 {
        2
    } else if status == 429 {
        4
    } else {
        1
    }
}

/// The request body for one GraphQL call: the document, and the variable
/// bindings when there are any.
pub fn build_request_body(query: &str, variables: Option<JsonValue>) -> (r: JsonValue)
    ensures
        r matches JsonValue::Obj(pairs) && {
            &&& pairs@.len() == if variables is Some {
                2int
            } else {
                1int
            }
            &&& pairs@[0].0@ == "query"@
            &&& pairs@[0].1 matches JsonValue::Str(q) && q@ == query@
            &&& variables matches Option::Some(v) ==> pairs@[1].0@ == "variables"@
                && pairs@[1].1 == v
        },
{
    let mut pairs: Vec<(String, JsonValue)> = Vec::new();
    pairs.push((String::from_str("query"), JsonValue::Str(query.to_owned())));
    match variables {
        Option::Some(v) => {
            pairs.push((String::from_str("variables"), v));
        },
        Option::None => {},
    }
    JsonValue::Obj(pairs)
}

/// What interpreting a response yields for each shape of exchange.
pub open spec fn interpret_ok(status: u16, body_json: Option<JsonValue>) -> bool {
    &&& 200 <= status <= 299
    &&& body_json matches Option::Some(body) && spec_get(body, "errors"@) is None
}

/// Interpret one HTTP exchange, status before body: a non-success status
/// becomes the typed HTTP failure at once, with the decoded body (or the
/// raw text) as details when the body is non-empty; on success the decoded
/// body must exist and must not carry a service-level `errors` collection.
pub fn interpret_response(
    status: u16,
    retry_after: Option<u64>,
    request_id: Option<String>,
    body_text: &str,
    body_json: Option<JsonValue>,
    context: &str,
) -> (r: Result<JsonValue, CliError>)
    ensures
        r matches Result::Ok(body) ==> interpret_ok(status, body_json) && body_json
            == Option::Some(body),
        r is Ok <==> interpret_ok(status, body_json),
        !(200 <= status <= 299) ==> (r matches Result::Err(e) && {
            &&& e.code == http_error_code(status)
            &&& e.message@ == http_error_message(status, context@)
            &&& e.retry_after == if status == 429 {
                retry_after
            } else {
                Option::<u64>::None
            }
            &&& body_text@.len() > 0 && body_json is Some ==> e.details == body_json
            &&& body_text@.len() > 0 && body_json is None ==> (e.details matches Option::Some(d)
                && raw_body_details_wf(d, body_text@))
            &&& body_text@.len() == 0 ==> (e.details matches Option::Some(d) && http_details_wf(
                d,
                status,
                request_id,
            ))
        }),
        200 <= status <= 299 ==> (match body_json {
            Option::Some(body) => match spec_get(body, "errors"@) {
                Option::Some(errs) => r matches Result::Err(e) && e.code == 1 && e.message@
                    == "GraphQL error"@ && e.details == Option::Some(errs),
                Option::None => r == Result::<JsonValue, CliError>::Ok(body),
            },
            Option::None => r matches Result::Err(e) && e.code == 1 && e.message@
                == "Failed to decode response body"@,
        }),
{
    if status < 200 || status > 299 {
        let err = http_error(status, retry_after, request_id, context);
        if !body_text.is_empty() {
            let details = match body_json {
                Option::Some(v) => v,
                Option::None => {
                    let mut pairs: Vec<(String, JsonValue)> = Vec::new();
                    pairs.push((String::from_str("body"), JsonValue::Str(body_text.to_owned())));
                    JsonValue::Obj(pairs)
                },
            };
            return Result::Err(err.with_details(details));
        }
        return Result::Err(err);
    }
    let body = match body_json {
        Option::Some(v) => v,
        Option::None => {
            return Result::Err(CliError::new(1, "Failed to decode response body"));
        },
    };
    let has_errors = match body.get("errors") {
        Option::Some(_) => true,
        Option::None => false,
    };
    if has_errors {
        match crate::json::obj_take(body, "errors") {
            Option::Some(errs) => Result::Err(
                CliError::new(1, "GraphQL error").with_details(errs),
            ),
            Option::None => unreached(),
        }
    } else {
        Result::Ok(body)
    }
}

/// The fallback details for a failing response whose body could not be
/// decoded: the raw text under a single `body` key.
pub open spec fn raw_body_details_wf(d: JsonValue, text: Seq<char>) -> bool {
    &&& d matches JsonValue::Obj(pairs)
    &&& pairs@.len() == 1
    &&& pairs@[0].0@ == "body"@
    &&& pairs@[0].1 matches JsonValue::Str(s) && s@ == text
}

} // verus!
