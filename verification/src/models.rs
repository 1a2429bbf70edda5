use vstd::prelude::*;

verus! {

/// The error taxonomy of the service.  Every rejected operation reports
/// exactly one of these categories.
#[derive(Clone, Copy, Debug, PartialEq, Eq, Structural)]
pub enum ApiError {
    /// The request body is malformed.
    BadRequest,
    /// No user matches the submitted identity.
    Unauthorized,
    /// No session, credential mismatch, or a key that the caller does not own.
    Forbidden,
    /// A referenced key is absent.
    NotFound,
    /// The email is already registered.
    ConstraintViolation,
    /// The operation needs a dependent record that is missing or a key that
    /// is disabled.
    PreconditionFailed,
    /// The store or an outbound call failed.
    InternalError,
}

impl ApiError {
    /// The short machine-checkable reason string of the category.
    pub open spec fn reason_spec(self) -> Seq<char> {
        match self {
            ApiError::BadRequest => "bad request"@,
            ApiError::Unauthorized => "unauthorized"@,
            ApiError::Forbidden => "forbidden"@,
            ApiError::NotFound => "not found"@,
            ApiError::ConstraintViolation => "constraint violation"@,
            ApiError::PreconditionFailed => "precondition failed"@,
            ApiError::InternalError => "internal error"@,
        }
    }

    /// A short machine-checkable reason string; failures never leak
    /// internal error text.
    pub fn reason(&self) -> (r: &'static str)
        ensures
            r@ == self.reason_spec(),
    {
        match self {
            ApiError::BadRequest => "bad request",
            ApiError::Unauthorized => "unauthorized",
            ApiError::Forbidden => "forbidden",
            ApiError::NotFound => "not found",
            ApiError::ConstraintViolation => "constraint violation",
            ApiError::PreconditionFailed => "precondition failed",
            ApiError::InternalError => "internal error",
        }
    }
}

/// A stored user record: unique surrogate id, unique email, password digest
/// and the salt the digest was derived with.
pub struct Users {
    pub id: i32,
    pub email: String,
    pub pw_hash: String,
    pub salt: Vec<u8>,
}

/// A user record as handed to the store, before an id is assigned.
pub struct NewUser {
    pub email: String,
    pub pw_hash: String,
    pub salt: Vec<u8>,
}

/// A stored API key: surrogate id, owning user, globally unique key value,
/// and the enabled flag that gates the proxied action.
#[derive(Clone, Copy, Debug, PartialEq, Eq, Structural)]
pub struct ApiKey {
    pub id: i32,
    pub user_id: i32,
    pub key_value: u128,
    pub is_enabled: bool,
}

/// An API key as handed to the store, before an id is assigned.
#[derive(Clone, Copy, Debug, PartialEq, Eq, Structural)]
pub struct NewApiKey {
    pub user_id: i32,
    pub key_value: u128,
    pub is_enabled: bool,
}

/// A stored usage record: one row per successful proxied action.
#[derive(Clone, Copy, Debug, PartialEq, Eq, Structural)]
pub struct KeyRequests {
    pub id: i32,
    pub api_key_id: i32,
    pub date_time: i64,
}

/// A usage record as loaded for reporting.
#[derive(Clone, Copy, Debug, PartialEq, Eq, Structural)]
pub struct KeyRequestDTO {
    pub id: i32,
    pub api_key_id: i32,
    pub date_time: i64,
}

/// A usage record as handed to the store, before an id is assigned.
#[derive(Clone, Copy, Debug, PartialEq, Eq, Structural)]
pub struct NewKeyRequest {
    pub api_key_id: i32,
    pub date_time: i64,
}

/// A key together with the usage records that reference it.
pub struct KeysWithRequests {
    pub user_id: i32,
    pub key_value: u128,
    pub is_enabled: bool,
    pub requests: Vec<NewKeyRequest>,
}

/// Credentials submitted to register or to log in.
pub struct SignInSignUp {
    pub email: String,
    pub password: String,
}

/// The body of a key-management or proxied-action request.
#[derive(Clone, Copy, Debug, PartialEq, Eq, Structural)]
pub struct ApiKeyRequest {
    pub api_key: u128,
}

} // verus!
