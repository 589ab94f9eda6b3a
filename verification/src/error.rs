//! The errors of the web API and the HTTP answer (status code and message) that
//! each one is given.

use vstd::prelude::*;

verus! {

#[verifier::external_type_specification]
#[verifier::external_body]
pub struct ExAnyhowError(anyhow::Error);

/// An error of the Graph API client.
#[derive(Debug)]
pub enum GraphClientError {
    /// A request was answered with this (error) HTTP status code.
    Request(u16),
    /// Another failure, described by its message.
    Other(String),
}

/// An error of the database, described by its message.
#[derive(Debug)]
pub struct DatabaseError {
    pub message: String,
}

/// The errors the API answers with.
#[derive(Debug)]
pub enum AppError {
    GraphClient(GraphClientError),
    Database(DatabaseError),
    Other(anyhow::Error),
    BadRequest(String),
}

impl From<GraphClientError> for AppError {
    fn from(inner: GraphClientError) -> (res: Self)
        ensures
            res == AppError::GraphClient(inner),
    {
        AppError::GraphClient(inner)
    }
}

impl vstd::std_specs::convert::FromSpecImpl<GraphClientError> for AppError {
    open spec fn obeys_from_spec() -> bool {
        true
    }

    open spec fn from_spec(inner: GraphClientError) -> Self {
        AppError::GraphClient(inner)
    }
}

impl From<DatabaseError> for AppError {
    fn from(inner: DatabaseError) -> (res: Self)
        ensures
            res == AppError::Database(inner),
    {
        AppError::Database(inner)
    }
}

impl vstd::std_specs::convert::FromSpecImpl<DatabaseError> for AppError {
    open spec fn obeys_from_spec() -> bool {
        true
    }

    open spec fn from_spec(inner: DatabaseError) -> Self {
        AppError::Database(inner)
    }
}

impl From<anyhow::Error> for AppError {
    fn from(inner: anyhow::Error) -> (res: Self)
        ensures
            res == AppError::Other(inner),
    {
        AppError::Other(inner)
    }
}

impl vstd::std_specs::convert::FromSpecImpl<anyhow::Error> for AppError {
    open spec fn obeys_from_spec() -> bool {
        true
    }

    open spec fn from_spec(inner: anyhow::Error) -> Self {
        AppError::Other(inner)
    }
}

/// An HTTP error answer: a message and a status code.
#[derive(Debug)]
pub struct CustomError {
    message: String,
    status: u16,
}

pub struct CustomErrorView {
    pub message: Seq<char>,
    pub status: u16,
}

impl View for CustomError {
    type V = CustomErrorView;

    closed spec fn view(&self) -> CustomErrorView {
        CustomErrorView { message: self.message@, status: self.status }
    }
}

impl CustomError {
    pub fn new(message: String, status: u16) -> (res: Self)
        ensures
            res@ == (CustomErrorView { message: message@, status }),
    {
        CustomError { message, status }
    }

    /// The message of the answer.
    pub fn message(&self) -> (res: &str)
        ensures
            res@ == self@.message,
    {
        self.message.as_str()
    }

    /// The status code of the answer.
    pub fn status(&self) -> (res: u16)
        ensures
            res == self@.status,
    {
        self.status
    }
}

/// The message answered to a request that failed with `status`.
pub open spec fn request_error_message(status: u16) -> Seq<char> {
    if status == 401 {
        "Unauthorized"@
    } else if status == 403 {
        "Forbidden"@
    } else if status == 404 {
        "Not found"@
    } else {
        "An error occurred while processing the request"@
    }
}

/// The message answered to a failed request (by its status code).
pub fn request_error_text(status: u16) -> (res: String)
    ensures
        res@ == request_error_message(status),
{
    if status == 401 {
        "Unauthorized".to_owned()
    } else if status == 403 {
        "Forbidden".to_owned()
    } else if status == 404 {
        "Not found".to_owned()
    } else {
        "An error occurred while processing the request".to_owned()
    }
}

/// The text of an `anyhow` error (its `Display`). What it says rests on the error
/// it wraps, so nothing is stated of it.
#[verifier::external_body]
fn anyhow_message(err: &anyhow::Error) -> String {
    err.to_string()
}

impl AppError {
    /// The answer to this error: a failed request keeps its status code (500 for
    /// other Graph failures) with a message by status; a database failure or
    /// another error is a 500 with its message; a bad request is a 400 with its
    /// message.
    pub fn into_custom_error(self) -> (res: CustomError)
        ensures
            match self {
                AppError::GraphClient(GraphClientError::Request(status)) =>
                    res@ == (CustomErrorView { message: request_error_message(status), status }),
                AppError::GraphClient(GraphClientError::Other(m)) =>
                    res@ == (CustomErrorView { message: m@, status: 500 }),
                AppError::Database(err) => res@ == (CustomErrorView { message: err.message@, status: 500 }),
                AppError::Other(_) => res@.status == 500,
                AppError::BadRequest(m) => res@ == (CustomErrorView { message: m@, status: 400 }),
            },
    {
        let (status, message) = match self {
            AppError::GraphClient(GraphClientError::Request(status)) => (status, request_error_text(status)),
            AppError::Database(err) => (500, err.message),
            AppError::GraphClient(GraphClientError::Other(m)) => (500, m),
            AppError::Other(err) => (500, anyhow_message(&err)),
            AppError::BadRequest(message) => (400, message),
        };
        CustomError::new(message, status)
    }
}

} // verus!
