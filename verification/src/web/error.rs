//! How a request is refused.

use vstd::prelude::*;

verus! {

/// The HTTP status of an answer.
#[derive(Debug, Clone, Copy, PartialEq, Eq, Structural)]
pub enum StatusCode {
    Okay,
    Accepted,
    NoContent,
    PartialContent,
    NotModified,
    BadRequest,
    Unauthorized,
    Forbidden,
    NotFound,
    Conflict,
    PayloadTooLarge,
    RangeNotSatisfiable,
    TooManyRequests,
    InternalServerError,
    ServiceUnavailable,
}

impl StatusCode {
    /// The number that stands for a status.
    pub open spec fn number(self) -> u16 {
        match self {
            StatusCode::Okay => 200,
            StatusCode::Accepted => 202,
            StatusCode::NoContent => 204,
            StatusCode::PartialContent => 206,
            StatusCode::NotModified => 304,
            StatusCode::BadRequest => 400,
            StatusCode::Unauthorized => 401,
            StatusCode::Forbidden => 403,
            StatusCode::NotFound => 404,
            StatusCode::Conflict => 409,
            StatusCode::PayloadTooLarge => 413,
            StatusCode::RangeNotSatisfiable => 416,
            StatusCode::TooManyRequests => 429,
            StatusCode::InternalServerError => 500,
            StatusCode::ServiceUnavailable => 503,
        }
    }

    /// The number that stands for a status.
    pub fn as_u16(self) -> (n: u16)
        ensures
            n == self.number(),
    {
        match self {
            StatusCode::Okay => 200,
            StatusCode::Accepted => 202,
            StatusCode::NoContent => 204,
            StatusCode::PartialContent => 206,
            StatusCode::NotModified => 304,
            StatusCode::BadRequest => 400,
            StatusCode::Unauthorized => 401,
            StatusCode::Forbidden => 403,
            StatusCode::NotFound => 404,
            StatusCode::Conflict => 409,
            StatusCode::PayloadTooLarge => 413,
            StatusCode::RangeNotSatisfiable => 416,
            StatusCode::TooManyRequests => 429,
            StatusCode::InternalServerError => 500,
            StatusCode::ServiceUnavailable => 503,
        }
    }
}

/// A refusal: its status, and what the user is told.
#[derive(Debug)]
pub struct ApiError {
    pub status: StatusCode,
    pub message: String,
}

/// The model of [`ApiError`].
#[verifier::ext_equal]
pub struct ApiErrorModel {
    pub status: StatusCode,
    pub message: Seq<char>,
}

impl View for ApiError {
    type V = ApiErrorModel;

    open spec fn view(&self) -> ApiErrorModel {
        ApiErrorModel { status: self.status, message: self.message@ }
    }
}

impl ApiErrorModel {
    pub open spec fn new(status: StatusCode, message: Seq<char>) -> ApiErrorModel {
        ApiErrorModel { status, message }
    }

    /// A refusal of a request that makes no sense.
    pub open spec fn bad(message: Seq<char>) -> ApiErrorModel {
        ApiErrorModel { status: StatusCode::BadRequest, message }
    }
}

impl ApiError {
    pub fn new(status: StatusCode, message: &str) -> (error: ApiError)
        ensures
            error@ == ApiErrorModel::new(status, message@),
    {
        ApiError { status, message: message.to_owned() }
    }

    /// A refusal of a request that makes no sense.
    pub(crate) fn bad(message: String) -> (error: ApiError)
        ensures
            error@ == ApiErrorModel::bad(message@),
    {
        ApiError { status: StatusCode::BadRequest, message }
    }
}

/// Whether a check that could refuse gave the answer that was expected of it.
pub open spec fn checked<T: DeepView>(
    result: Result<T, ApiError>,
    expected: Result<T::V, ApiErrorModel>,
) -> bool {
    match expected {
        Ok(value) => result matches Ok(got) && got.deep_view() == value,
        Err(error) => result matches Err(got) && got@ == error,
    }
}

} // verus!
