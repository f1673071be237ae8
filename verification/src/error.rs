//! The error taxonomy: one variant per failure class, each carrying its
//! detail text, with the exit code and the rendered message stated exactly.

use vstd::prelude::*;

verus! {

/// A failure class with its detail text.
#[derive(Debug, Clone)]
pub enum GogsError {
    /// A non-2xx response outside the named classes.
    ApiError(String),
    /// The server rejected the credentials.
    AuthError(String),
    /// The requested resource does not exist.
    NotFound(String),
    /// The server refused access to the resource.
    Forbidden(String),
    /// A missing or malformed profile or repository default.
    ConfigError(String),
    /// A malformed input, such as an `owner/repo` string or an empty
    /// required field.
    ValidationError(String),
    /// A transport failure or timeout.
    NetworkError(String),
    /// A response that could not be decoded.
    JsonError(String),
}

/// The message a given error renders to.
pub open spec fn spec_error_message(e: GogsError) -> Seq<char> {
    match e {
        GogsError::ApiError(s) => "API error: "@ + s@,
        GogsError::AuthError(s) => "Authentication failed: "@ + s@,
        GogsError::NotFound(s) => "Resource not found: "@ + s@,
        GogsError::Forbidden(s) => "Access denied: "@ + s@,
        GogsError::ConfigError(s) => "Configuration error: "@ + s@,
        GogsError::ValidationError(s) => "Validation error: "@ + s@,
        GogsError::NetworkError(s) => "Network error: "@ + s@,
        GogsError::JsonError(s) => "JSON error: "@ + s@,
    }
}

impl GogsError {
    /// The process exit code: 2 for the not-found class, 1 for the rest.
    pub fn exit_code(&self) -> (r: i32)
        ensures
            *self is NotFound ==> r == 2,
            !(*self is NotFound) ==> r == 1,
    {
        match self {
            GogsError::NotFound(_) => 2,
            _ => 1,
        }
    }

    /// The diagnostic line for this error.
    pub fn message(&self) -> (r: String)
        ensures
            r@ == spec_error_message(*self),
    {
        let mut out = String::new();
        match self {
            GogsError::ApiError(s) => {
                out.append("API error: ");
                out.append(s.as_str());
            },
            GogsError::AuthError(s) => {
                out.append("Authentication failed: ");
                out.append(s.as_str());
            },
            GogsError::NotFound(s) => {
                out.append("Resource not found: ");
                out.append(s.as_str());
            },
            GogsError::Forbidden(s) => {
                out.append("Access denied: ");
                out.append(s.as_str());
            },
            GogsError::ConfigError(s) => {
                out.append("Configuration error: ");
                out.append(s.as_str());
            },
            GogsError::ValidationError(s) => {
                out.append("Validation error: ");
                out.append(s.as_str());
            },
            GogsError::NetworkError(s) => {
                out.append("Network error: ");
                out.append(s.as_str());
            },
            GogsError::JsonError(s) => {
                out.append("JSON error: ");
                out.append(s.as_str());
            },
        }
        proof {
            assert(out@ =~= spec_error_message(*self));
        }
        out
    }
}

/// Classify a non-2xx HTTP status into an error, following the wire
/// protocol's mapping: 401 to the auth class, 404 to not-found carrying the
/// body, 403 to forbidden, anything else to the generic class carrying the
/// status and the body.
pub fn classify_status(status: u16, body: &str) -> (r: GogsError)
    ensures
        status == 401 ==> r is AuthError && r->AuthError_0@ == "Check your API token."@,
        status == 404 ==> r is NotFound && r->NotFound_0@ == body@,
        status == 403 ==> r is Forbidden && r->Forbidden_0@
            == "Check permissions for this resource."@,
        status != 401 && status != 404 && status != 403 ==> r is ApiError && r->ApiError_0@
            == crate::text::dec_rep(status as int) + ": "@ + body@,
{
    if status == 401 {
        GogsError::AuthError("Check your API token.".to_owned())
    } else if status == 404 {
        GogsError::NotFound(body.to_owned())
    } else if status == 403 {
        GogsError::Forbidden("Check permissions for this resource.".to_owned())
    } else {
        let mut s = String::new();
        crate::text::append_u64(&mut s, status as u64);
        s.append(": ");
        s.append(body);
        proof {
            assert(s@ =~= crate::text::dec_rep(status as int) + ": "@ + body@);
        }
        GogsError::ApiError(s)
    }
}

} // verus!
