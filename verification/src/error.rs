//! The closed error taxonomy of the library.
//!
//! Every failure is reported once, to the immediate caller, as a value of
//! [`Error`]; nothing here panics and nothing retries.

use vstd::prelude::*;

use crate::text::push_str_chars;
use crate::text::string_from_chars;

verus! {

/// What can go wrong when talking to the API.
#[derive(Debug)]
pub enum Error {
    /// The transport failed; carries the transport's message text.
    HttpError(String),
    /// A document could not be parsed or decoded; carries a description.
    JsonError(String),
    /// The API answered with a non-success status; carries the status
    /// code and the raw body text.
    ApiError {
        /// The HTTP status code.
        status_code: u16,
        /// The raw body text.
        message: String,
    },
    /// A request could not be built.
    RequestError(String),
    /// No API key was given.
    MissingApiKey,
    /// A function-call argument was missing or of the wrong shape.
    FunctionCallError(String),
}

/// The ghost model of an error.
pub enum ErrorV {
    /// A transport failure.
    Http(Seq<char>),
    /// A parse or decode failure.
    Json(Seq<char>),
    /// A non-success API response.
    Api { status_code: u16, message: Seq<char> },
    /// A request that could not be built.
    Request(Seq<char>),
    /// A missing API key.
    MissingApiKey,
    /// A bad function-call argument.
    FunctionCall(Seq<char>),
}

impl View for Error {
    type V = ErrorV;

    open spec fn view(&self) -> ErrorV {
        match self {
            Error::HttpError(m) => ErrorV::Http(m@),
            Error::JsonError(m) => ErrorV::Json(m@),
            Error::ApiError { status_code, message } => ErrorV::Api {
                status_code: *status_code,
                message: message@,
            },
            Error::RequestError(m) => ErrorV::Request(m@),
            Error::MissingApiKey => ErrorV::MissingApiKey,
            Error::FunctionCallError(m) => ErrorV::FunctionCall(m@),
        }
    }
}

impl Clone for Error {
    fn clone(&self) -> (res: Self)
        ensures
            res@ == self@,
    {
        match self {
            Error::HttpError(m) => Error::HttpError(m.clone()),
            Error::JsonError(m) => Error::JsonError(m.clone()),
            Error::ApiError { status_code, message } => Error::ApiError {
                status_code: *status_code,
                message: message.clone(),
            },
            Error::RequestError(m) => Error::RequestError(m.clone()),
            Error::MissingApiKey => Error::MissingApiKey,
            Error::FunctionCallError(m) => Error::FunctionCallError(m.clone()),
        }
    }
}

/// The description of an error, as its kind's label followed by what the
/// error carries.
pub open spec fn message_model(e: ErrorV) -> Seq<char> {
    match e {
        ErrorV::Http(m) => "HTTP error: "@ + m,
        ErrorV::Json(m) => "JSON error: "@ + m,
        ErrorV::Api { status_code, message } => "Gemini API error: "@
            + crate::json::dec_int_str(status_code as int) + " - "@ + message,
        ErrorV::Request(m) => "Request building error: "@ + m,
        ErrorV::MissingApiKey => "Missing API key"@,
        ErrorV::FunctionCall(m) => "Function call error: "@ + m,
    }
}

impl Error {
    /// A plain-text description of the error.
    pub fn message(&self) -> (r: String)
        ensures
            r@ == message_model(self@),
    {
        let mut out: Vec<char> = Vec::new();
        match self {
            Error::HttpError(m) => {
                push_str_chars(&mut out, "HTTP error: ");
                push_str_chars(&mut out, m.as_str());
            }
            Error::JsonError(m) => {
                push_str_chars(&mut out, "JSON error: ");
                push_str_chars(&mut out, m.as_str());
            }
            Error::ApiError { status_code, message } => {
                push_str_chars(&mut out, "Gemini API error: ");
                crate::json::push_dec_u16(*status_code, &mut out);
                push_str_chars(&mut out, " - ");
                push_str_chars(&mut out, message.as_str());
            }
            Error::RequestError(m) => {
                push_str_chars(&mut out, "Request building error: ");
                push_str_chars(&mut out, m.as_str());
            }
            Error::MissingApiKey => {
                push_str_chars(&mut out, "Missing API key");
            }
            Error::FunctionCallError(m) => {
                push_str_chars(&mut out, "Function call error: ");
                push_str_chars(&mut out, m.as_str());
            }
        }
        proof {
            assert(out@ =~= message_model(self@));
        }
        string_from_chars(&out)
    }
}

} // verus!
