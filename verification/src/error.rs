//! The errors of the library, and the HTTP status each one is answered with.
use vstd::prelude::*;

verus! {

#[verifier::external_type_specification]
#[verifier::external_body]
pub struct ExReqwestError(reqwest::Error);

#[derive(Debug)]
pub enum AppError {
    RouteNotFound(String),
    Config(String),
    Http(reqwest::Error),
    Cache(String),
    Parse(String),
    Render(String),
    Internal(String),
}

pub open spec fn spec_status_code(e: AppError) -> u16 {
    match e {
        AppError::RouteNotFound(_) => 404,
        AppError::Config(_) => 503,
        _ => 500,
    }
}

impl AppError {
    /// The HTTP status an error is answered with: 404 for an unknown route,
    /// 503 for a configuration problem, 500 for anything else.
    pub fn status_code(&self) -> (s: u16)
        ensures
            s == spec_status_code(*self),
    {
        match self {
            AppError::RouteNotFound(_) => 404,
            AppError::Config(_) => 503,
            _ => 500,
        }
    }
}

/// `Display` of a `reqwest::Error`.
#[verifier::external_body]
fn reqwest_error_text(e: &reqwest::Error) -> (s: String) {
    e.to_string()
}

/// The message of an error, for every variant but `Http`, whose message
/// carries the text of the HTTP client's error.
pub open spec fn spec_message(e: AppError) -> Seq<char> {
    match e {
        AppError::RouteNotFound(m) => "Route not found: "@ + m@,
        AppError::Config(m) => "Configuration error: "@ + m@,
        AppError::Cache(m) => "Cache error: "@ + m@,
        AppError::Parse(m) => "Parse error: "@ + m@,
        AppError::Render(m) => "Feed render error: "@ + m@,
        AppError::Internal(m) => m@,
        AppError::Http(_) => "HTTP request failed: "@,
    }
}

impl AppError {
    /// The message an error is answered with.
    pub fn message(&self) -> (s: String)
        ensures
            !(*self is Http) ==> s@ == spec_message(*self),
            *self is Http ==> s@.len() >= spec_message(*self).len() && s@.take(spec_message(*self).len() as int) == spec_message(*self),
    {
        let (prefix, rest) = match self {
            AppError::RouteNotFound(m) => ("Route not found: ", m.clone()),
            AppError::Config(m) => ("Configuration error: ", m.clone()),
            AppError::Http(e) => ("HTTP request failed: ", reqwest_error_text(e)),
            AppError::Cache(m) => ("Cache error: ", m.clone()),
            AppError::Parse(m) => ("Parse error: ", m.clone()),
            AppError::Render(m) => ("Feed render error: ", m.clone()),
            AppError::Internal(m) => ("", m.clone()),
        };
        let mut s = String::from_str(prefix);
        s.append(rest.as_str());
        proof {
            reveal_strlit("");
            if *self is Http {
                assert(s@.take(spec_message(*self).len() as int) =~= spec_message(*self));
            }
        }
        s
    }
}

} // verus!
