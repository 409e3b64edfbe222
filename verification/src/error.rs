//! Structured errors returned by the device's JSON APIs: the raw error record
//! a response carries, and the itemized form the known error codes map to.

use vstd::prelude::*;

verus! {

/// The error record a JSON API response carries: a numeric code and an
/// optional message.
#[derive(Debug, Clone)]
pub struct RawJsonApiError {
    pub code: u32,
    pub message: Option<String>,
}

/// A structured API error: one variant per known error code, and the raw
/// record for any other code.
#[derive(Debug, Clone)]
pub enum ApiError {
    InvalidParameter,
    AccessForbidden,
    UnsupportedHttpMethod,
    UnsupportedApiVersion,
    UnsupportedApiMethod,
    InvalidJsonFormat,
    RequiredParameterIsMissing,
    InternalError,
    OtherError(Box<RawJsonApiError>),
}

/// The itemized error each raw error code maps to.
pub open spec fn api_error_of(e: RawJsonApiError) -> ApiError {
    if e.code == 1000 {
        ApiError::InvalidParameter
    } else if e.code == 2001 {
        ApiError::AccessForbidden
    } else if e.code == 2002 {
        ApiError::UnsupportedHttpMethod
    } else if e.code == 2003 {
        ApiError::UnsupportedApiVersion
    } else if e.code == 2004 {
        ApiError::UnsupportedApiMethod
    } else if e.code == 4000 {
        ApiError::InvalidJsonFormat
    } else if e.code == 4002 {
        ApiError::RequiredParameterIsMissing
    } else if e.code == 8000 {
        ApiError::InternalError
    } else {
        ApiError::OtherError(Box::new(e))
    }
}

impl From<RawJsonApiError> for ApiError {
    /// Map a raw error record to its itemized form by its code; an unknown
    /// code is kept whole.
    fn from(e: RawJsonApiError) -> (r: ApiError) {
        match e.code {
            1000 => ApiError::InvalidParameter,
            2001 => ApiError::AccessForbidden,
            2002 => ApiError::UnsupportedHttpMethod,
            2003 => ApiError::UnsupportedApiVersion,
            2004 => ApiError::UnsupportedApiMethod,
            4000 => ApiError::InvalidJsonFormat,
            4002 => ApiError::RequiredParameterIsMissing,
            8000 => ApiError::InternalError,
            _ => ApiError::OtherError(Box::new(e)),
        }
    }
}

impl vstd::std_specs::convert::FromSpecImpl<RawJsonApiError> for ApiError {
    open spec fn obeys_from_spec() -> bool {
        true
    }

    open spec fn from_spec(e: RawJsonApiError) -> ApiError {
        api_error_of(e)
    }
}

} // verus!
