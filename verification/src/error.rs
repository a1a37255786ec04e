use vstd::prelude::*;

use crate::json::{opt_view, Json, JsonV};
use crate::text::{concat, decimal, decimal_string};

verus! {

broadcast use vstd::string::group_string_axioms;

/// Client misconfiguration (missing credentials, bad URL, decode failure).
#[derive(Debug, Clone, PartialEq)]
pub struct ConfigError {
    pub message: String,
}

/// Transport failure or timeout, described by the transport's message.
#[derive(Debug, Clone, PartialEq)]
pub struct ConnectionError {
    pub message: String,
}

/// Non-2xx gateway response.
///
/// The gateway `/v2` error envelope is `{"error":{"code","message"}}`; when
/// present, `message` is rendered as `"code: message"` and `code` carries the
/// machine-readable code. Flat `error`/`message`/`detail` bodies still work.
#[derive(Debug, Clone, PartialEq)]
pub struct ApiError {
    pub status: u16,
    pub message: String,
    /// The gateway's machine-readable error code, when present
    /// (e.g. `lane_not_supported`).
    pub code: Option<String>,
    pub body: Json,
    pub request_id: String,
}

/// Top-level error returned by client calls.
#[derive(Debug, Clone, PartialEq)]
pub enum Error {
    Config(ConfigError),
    Connection(ConnectionError),
    Api(ApiError),
}

/// 401/403: credential missing, invalid, or lacking permission.
pub open spec fn status_is_authentication(status: u16) -> bool {
    status == 401 || status == 403
}

pub open spec fn status_is_not_found(status: u16) -> bool {
    status == 404
}

pub open spec fn status_is_validation(status: u16) -> bool {
    status == 400 || status == 422
}

pub open spec fn status_is_rate_limit(status: u16) -> bool {
    status == 429
}

pub open spec fn status_is_server(status: u16) -> bool {
    status >= 500
}

impl ApiError {
    /// 401/403 — credential missing, invalid, or lacking permission
    /// (`lane_not_supported` is 403).
    pub fn is_authentication(&self) -> (r: bool)
        ensures
            r == status_is_authentication(self.status),
    {
        self.status == 401 || self.status == 403
    }

    pub fn is_not_found(&self) -> (r: bool)
        ensures
            r == status_is_not_found(self.status),
    {
        self.status == 404
    }

    pub fn is_validation(&self) -> (r: bool)
        ensures
            r == status_is_validation(self.status),
    {
        self.status == 400 || self.status == 422
    }

    pub fn is_rate_limit(&self) -> (r: bool)
        ensures
            r == status_is_rate_limit(self.status),
    {
        self.status == 429
    }

    pub fn is_server(&self) -> (r: bool)
        ensures
            r == status_is_server(self.status),
    {
        self.status >= 500
    }
}

impl Error {
    pub fn is_authentication(&self) -> (r: bool)
        ensures
            r == (self is Api && status_is_authentication(self->Api_0.status)),
    {
        match self {
            Error::Api(api) => api.is_authentication(),
            _ => false,
        }
    }

    pub fn is_not_found(&self) -> (r: bool)
        ensures
            r == (self is Api && status_is_not_found(self->Api_0.status)),
    {
        match self {
            Error::Api(api) => api.is_not_found(),
            _ => false,
        }
    }

    pub fn is_validation(&self) -> (r: bool)
        ensures
            r == (self is Api && status_is_validation(self->Api_0.status)),
    {
        match self {
            Error::Api(api) => api.is_validation(),
            _ => false,
        }
    }

    pub fn is_rate_limit(&self) -> (r: bool)
        ensures
            r == (self is Api && status_is_rate_limit(self->Api_0.status)),
    {
        match self {
            Error::Api(api) => api.is_rate_limit(),
            _ => false,
        }
    }

    pub fn is_server(&self) -> (r: bool)
        ensures
            r == (self is Api && status_is_server(self->Api_0.status)),
    {
        match self {
            Error::Api(api) => api.is_server(),
            _ => false,
        }
    }
}

/// A status falls in at most one of the error classes.
pub proof fn law_status_classes_disjoint(status: u16)
    ensures
        status_is_authentication(status) ==> !status_is_not_found(status) && !status_is_validation(
            status,
        ) && !status_is_rate_limit(status) && !status_is_server(status),
        status_is_not_found(status) ==> !status_is_validation(status) && !status_is_rate_limit(
            status,
        ) && !status_is_server(status),
        status_is_validation(status) ==> !status_is_rate_limit(status) && !status_is_server(status),
        status_is_rate_limit(status) ==> !status_is_server(status),
{
}

/// The gateway's machine-readable error code (`{error:{code}}`), when present.
pub open spec fn error_code_of(body: JsonV) -> Option<Seq<char>> {
    match body.get("error"@) {
        Some(nested) => if nested.is_object() {
            nested.str_at("code"@)
        } else {
            None
        },
        None => None,
    }
}

/// A text value, when it is present and non-empty.
pub open spec fn non_empty(t: Option<Seq<char>>) -> Option<Seq<char>> {
    match t {
        Some(s) => if s.len() > 0 {
            Some(s)
        } else {
            None
        },
        None => None,
    }
}

/// The human-readable message of an error body: the `/v2` envelope
/// `{error:{code,message}}` renders as `code: message` (or whichever half is
/// present); otherwise the first non-empty string among `error`, `message`,
/// `detail`; otherwise a non-empty string body.
pub open spec fn message_of(body: JsonV) -> Option<Seq<char>> {
    if body.is_object() {
        let nested = body.get("error"@);
        let from_envelope: Option<Seq<char>> = match nested {
            Some(n) => if n.is_object() {
                match (n.str_at("code"@), n.str_at("message"@)) {
                    (Some(c), Some(m)) => Some(c + ": "@ + m),
                    (None, Some(m)) => Some(m),
                    (Some(c), None) => Some(c),
                    (None, None) => None,
                }
            } else {
                None
            },
            None => None,
        };
        if from_envelope is Some {
            from_envelope
        } else if non_empty(body.str_at("error"@)) is Some {
            non_empty(body.str_at("error"@))
        } else if non_empty(body.str_at("message"@)) is Some {
            non_empty(body.str_at("message"@))
        } else {
            non_empty(body.str_at("detail"@))
        }
    } else {
        non_empty(body.as_str())
    }
}

/// The gateway's machine-readable error code (`{error:{code}}`), when present.
pub fn error_code(body: &Json) -> (r: Option<String>)
    ensures
        opt_view(r) == error_code_of(body@),
{
    match body.get("error") {
        Some(nested) => if nested.is_object() {
            nested.str_at("code")
        } else {
            None
        },
        None => None,
    }
}

fn non_empty_at(body: &Json, key: &str) -> (r: Option<String>)
    ensures
        opt_view(r) == non_empty(body@.str_at(key@)),
{
    match body.str_at(key) {
        Some(s) => if s.as_str().is_empty() {
            None
        } else {
            Some(s)
        },
        None => None,
    }
}

/// The human-readable message of an error body (see [`message_of`]).
pub fn message_from_body(body: &Json) -> (r: Option<String>)
    ensures
        opt_view(r) == message_of(body@),
{
    if body.is_object() {
        if let Some(nested) = body.get("error") {
            if nested.is_object() {
                let code = nested.str_at("code");
                let message = nested.str_at("message");
                match (code, message) {
                    (Some(c), Some(m)) => {
                        let mut out = concat(c.as_str(), ": ");
                        out.append(m.as_str());
                        return Some(out);
                    },
                    (None, Some(m)) => {
                        return Some(m);
                    },
                    (Some(c), None) => {
                        return Some(c);
                    },
                    (None, None) => {},
                }
            }
        }
        if let Some(v) = non_empty_at(body, "error") {
            return Some(v);
        }
        if let Some(v) = non_empty_at(body, "message") {
            return Some(v);
        }
        non_empty_at(body, "detail")
    } else {
        match body.as_str() {
            Some(s) => if s.as_str().is_empty() {
                None
            } else {
                Some(s.clone())
            },
            None => None,
        }
    }
}

/// The message an [`ApiError`] carries for `status` and `body`.
pub open spec fn api_error_message(status: u16, body: JsonV) -> Seq<char> {
    match message_of(body) {
        Some(m) => m,
        None => "request failed with status "@ + decimal(status as nat),
    }
}

/// The typed error for a non-2xx response with decoded `body`.
pub fn api_error_from_response(status: u16, body: Json, request_id: String) -> (r: ApiError)
    ensures
        r.status == status,
        r.message@ == api_error_message(status, body@),
        opt_view(r.code) == error_code_of(body@),
        r.body@ == body@,
        r.request_id@ == request_id@,
{
    let message = match message_from_body(&body) {
        Some(m) => m,
        None => {
            let digits = decimal_string(status as u64);
            concat("request failed with status ", digits.as_str())
        },
    };
    let code = error_code(&body);
    ApiError { status, message, code, body, request_id }
}

} // verus!
