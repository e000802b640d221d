//! The failures of the service, by kind, with the words shown to the caller.

use crate::dates::DateErrorKind;
use vstd::prelude::*;
use vstd::string::StringExecFns;

verus! {

/// Who is to blame for a failure, which decides the class of the response.
#[derive(Clone, Copy, Debug, PartialEq, Eq, Structural)]
pub enum ErrorClass {
    /// The request, or what the solver wrote, cannot be used as it is.
    Client,
    /// The solver could not be reached, or answered with a failure.
    Upstream,
    /// The store refused or failed an operation.
    Store,
}

/// Why a request did not get through.
#[derive(Clone, Debug, PartialEq, Eq)]
pub enum ApiError {
    /// The payload of a scenario is no JSON document; `cause` holds the
    /// words of the parser.
    MalformedPayload { cause: String },
    /// A day of an assignment is no date in either accepted format.
    InvalidDate { token: String, cause: DateErrorKind },
    /// A shift name of an assignment is not known in the unit.
    UnknownShift { token: String },
    /// A nurse identifier of an assignment is not known in the unit.
    UnknownStaff { token: String },
    /// A total of the summary exceeds what its field can hold.
    TotalOutOfRange,
    /// The call to the solver failed; `cause` holds its own words.
    SolverFailed { cause: String },
    /// The store failed; `cause` holds its own words.
    StoreFailed { cause: String },
}

/// A `ApiError` with its texts as sequences of characters.
pub enum ApiErrorView {
    MalformedPayload { cause: Seq<char> },
    InvalidDate { token: Seq<char>, cause: DateErrorKind },
    UnknownShift { token: Seq<char> },
    UnknownStaff { token: Seq<char> },
    TotalOutOfRange,
    SolverFailed { cause: Seq<char> },
    StoreFailed { cause: Seq<char> },
}

impl View for ApiError {
    type V = ApiErrorView;

    open spec fn view(&self) -> ApiErrorView {
        match self {
            ApiError::MalformedPayload { cause } => ApiErrorView::MalformedPayload {
                cause: cause@,
            },
            ApiError::InvalidDate { token, cause } => ApiErrorView::InvalidDate {
                token: token@,
                cause: *cause,
            },
            ApiError::UnknownShift { token } => ApiErrorView::UnknownShift { token: token@ },
            ApiError::UnknownStaff { token } => ApiErrorView::UnknownStaff { token: token@ },
            ApiError::TotalOutOfRange => ApiErrorView::TotalOutOfRange,
            ApiError::SolverFailed { cause } => ApiErrorView::SolverFailed { cause: cause@ },
            ApiError::StoreFailed { cause } => ApiErrorView::StoreFailed { cause: cause@ },
        }
    }
}

impl ApiErrorView {
    /// The class of the failure: what the solver wrote and cannot be
    /// resolved is the client's; a failed call is the upstream's; the rest is
    /// the store's.
    pub open spec fn class(self) -> ErrorClass {
        match self {
            ApiErrorView::MalformedPayload { .. } => ErrorClass::Client,
            ApiErrorView::InvalidDate { .. } => ErrorClass::Client,
            ApiErrorView::UnknownShift { .. } => ErrorClass::Client,
            ApiErrorView::UnknownStaff { .. } => ErrorClass::Client,
            ApiErrorView::TotalOutOfRange => ErrorClass::Store,
            ApiErrorView::SolverFailed { .. } => ErrorClass::Upstream,
            ApiErrorView::StoreFailed { .. } => ErrorClass::Store,
        }
    }

    /// The words shown to the caller. They name the token that could not be
    /// used, or repeat the words of the underlying cause.
    pub open spec fn message(self) -> Seq<char> {
        match self {
            ApiErrorView::MalformedPayload { cause } => "malformed payload: "@ + cause,
            ApiErrorView::InvalidDate { token, cause } => "invalid date '"@ + token + "': "@
                + cause.text(),
            ApiErrorView::UnknownShift { token } => "Unknown shift name from solver: '"@ + token
                + "'"@,
            ApiErrorView::UnknownStaff { token } => "Unknown nurse identifier from solver: '"@
                + token + "'"@,
            ApiErrorView::TotalOutOfRange => "internal error: KPI total out of range"@,
            ApiErrorView::SolverFailed { cause } => "internal error: "@ + cause,
            ApiErrorView::StoreFailed { cause } => "internal error: "@ + cause,
        }
    }
}

impl ErrorClass {
    /// The HTTP status that answers a failure of this class.
    pub open spec fn status(self) -> u16 {
        match self {
            ErrorClass::Client => 400,
            ErrorClass::Upstream => 500,
            ErrorClass::Store => 500,
        }
    }

    /// The HTTP status that answers a failure of this class: 400 for the
    /// client's, 500 for the others.
    pub fn status_code(&self) -> (code: u16)
        ensures
            code == self.status(),
    {
        match self {
            ErrorClass::Client => 400,
            ErrorClass::Upstream => 500,
            ErrorClass::Store => 500,
        }
    }
}

impl ApiError {
    /// The class of the failure.
    pub fn class(&self) -> (class: ErrorClass)
        ensures
            class == self@.class(),
    {
        match self {
            ApiError::MalformedPayload { .. } => ErrorClass::Client,
            ApiError::InvalidDate { .. } => ErrorClass::Client,
            ApiError::UnknownShift { .. } => ErrorClass::Client,
            ApiError::UnknownStaff { .. } => ErrorClass::Client,
            ApiError::TotalOutOfRange => ErrorClass::Store,
            ApiError::SolverFailed { .. } => ErrorClass::Upstream,
            ApiError::StoreFailed { .. } => ErrorClass::Store,
        }
    }

    /// The words shown to the caller.
    pub fn message(&self) -> (words: String)
        ensures
            words@ == self@.message(),
    {
        match self {
            ApiError::MalformedPayload { cause } => {
                let mut words = String::from_str("malformed payload: ");
                words.append(cause.as_str());
                words
            },
            ApiError::InvalidDate { token, cause } => {
                let mut words = String::from_str("invalid date '");
                words.append(token.as_str());
                words.append("': ");
                words.append(cause.describe());
                words
            },
            ApiError::UnknownShift { token } => {
                let mut words = String::from_str("Unknown shift name from solver: '");
                words.append(token.as_str());
                words.append("'");
                words
            },
            ApiError::UnknownStaff { token } => {
                let mut words = String::from_str("Unknown nurse identifier from solver: '");
                words.append(token.as_str());
                words.append("'");
                words
            },
            ApiError::TotalOutOfRange => String::from_str("internal error: KPI total out of range"),
            ApiError::SolverFailed { cause } => {
                let mut words = String::from_str("internal error: ");
                words.append(cause.as_str());
                words
            },
            ApiError::StoreFailed { cause } => {
                let mut words = String::from_str("internal error: ");
                words.append(cause.as_str());
                words
            },
        }
    }
}

} // verus!
