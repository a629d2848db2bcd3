use vstd::prelude::*;

verus! {

/// Every failure the relay core can report.
#[derive(Clone, Debug, PartialEq, Eq)]
pub enum MyError {
    LoginFail,
    // Authentication.
    AuthFailNoAuthTokenCookie,
    AuthFailExpiredTokenCookie,
    AuthFailTokenWrongFormat,
    AuthFailInvalidTimestamp,
    AuthFailCtxNotInRequestExt,
    // Storage.
    PoolCreationFail { error: String },
    ClientCreationFail { error: String },
    Database { error: String },
    DatabaseRowNotFound { error: String },
    // Request bodies.
    BytesRejection { error: String },
    ProtobufDecodeError { error: String },
    // Authorization.
    UserDoesNotOwnDevice { user_id: i32, device_id: i32 },
    // Relay.
    NoSenderFoundForUser { user_id: i32 },
    FailedToSendWakeUpProto { error: String },
    // Locking.
    ConnectedClientsLockFailed,
}

/// The coarse category under which an error is shown to a caller.
#[allow(non_camel_case_types)]
#[derive(Clone, Copy, Debug, PartialEq, Eq, Structural)]
pub enum ClientError {
    LOGIN_FAIL,
    NO_AUTH,
    DATABASE_ERROR,
    INVALID_PARAMS,
    SERVICE_ERROR,
}

pub const STATUS_BAD_REQUEST: u16 = 400;
pub const STATUS_FORBIDDEN: u16 = 403;
pub const STATUS_NOT_FOUND: u16 = 404;
pub const STATUS_UNPROCESSABLE_ENTITY: u16 = 422;
pub const STATUS_INTERNAL_SERVER_ERROR: u16 = 500;

/// True of the four ways a session token can fail, and of a missing context.
pub open spec fn is_auth_failure(e: MyError) -> bool {
    ||| e is AuthFailNoAuthTokenCookie
    ||| e is AuthFailExpiredTokenCookie
    ||| e is AuthFailTokenWrongFormat
    ||| e is AuthFailInvalidTimestamp
    ||| e is AuthFailCtxNotInRequestExt
}

/// The HTTP status and the category that a caller sees for an error.
pub open spec fn client_view(e: MyError) -> (u16, ClientError) {
    match e {
        MyError::LoginFail => (STATUS_FORBIDDEN, ClientError::LOGIN_FAIL),
        MyError::AuthFailNoAuthTokenCookie
        | MyError::AuthFailExpiredTokenCookie
        | MyError::AuthFailTokenWrongFormat
        | MyError::AuthFailInvalidTimestamp
        | MyError::AuthFailCtxNotInRequestExt => (STATUS_FORBIDDEN, ClientError::NO_AUTH),
        MyError::Database { .. } => (STATUS_INTERNAL_SERVER_ERROR, ClientError::DATABASE_ERROR),
        MyError::DatabaseRowNotFound { .. } => (STATUS_BAD_REQUEST, ClientError::INVALID_PARAMS),
        MyError::BytesRejection { .. } | MyError::ProtobufDecodeError { .. } => (
            STATUS_UNPROCESSABLE_ENTITY,
            ClientError::INVALID_PARAMS,
        ),
        MyError::UserDoesNotOwnDevice { .. } => (STATUS_BAD_REQUEST, ClientError::INVALID_PARAMS),
        MyError::NoSenderFoundForUser { .. } => (STATUS_NOT_FOUND, ClientError::INVALID_PARAMS),
        _ => (STATUS_INTERNAL_SERVER_ERROR, ClientError::SERVICE_ERROR),
    }
}

impl MyError {
    /// What the caller is told about this error: a status code and a coarse
    /// category, never the internal detail.
    pub fn client_status_and_error(&self) -> (r: (u16, ClientError))
        ensures
            r == client_view(*self),
            is_auth_failure(*self) ==> r == (STATUS_FORBIDDEN, ClientError::NO_AUTH),
    {
        match self {
            MyError::LoginFail => (STATUS_FORBIDDEN, ClientError::LOGIN_FAIL),
            MyError::AuthFailNoAuthTokenCookie
            | MyError::AuthFailTokenWrongFormat
            | MyError::AuthFailInvalidTimestamp
            | MyError::AuthFailExpiredTokenCookie
            | MyError::AuthFailCtxNotInRequestExt => (STATUS_FORBIDDEN, ClientError::NO_AUTH),
            MyError::Database { .. } => (
                STATUS_INTERNAL_SERVER_ERROR,
                ClientError::DATABASE_ERROR,
            ),
            MyError::DatabaseRowNotFound { .. } => (
                STATUS_BAD_REQUEST,
                ClientError::INVALID_PARAMS,
            ),
            MyError::BytesRejection { .. } => (
                STATUS_UNPROCESSABLE_ENTITY,
                ClientError::INVALID_PARAMS,
            ),
            MyError::ProtobufDecodeError { .. } => (
                STATUS_UNPROCESSABLE_ENTITY,
                ClientError::INVALID_PARAMS,
            ),
            MyError::UserDoesNotOwnDevice { .. } => (
                STATUS_BAD_REQUEST,
                ClientError::INVALID_PARAMS,
            ),
            MyError::NoSenderFoundForUser { .. } => (
                STATUS_NOT_FOUND,
                ClientError::INVALID_PARAMS,
            ),
            MyError::FailedToSendWakeUpProto { .. } => (
                STATUS_INTERNAL_SERVER_ERROR,
                ClientError::SERVICE_ERROR,
            ),
            MyError::ConnectedClientsLockFailed => (
                STATUS_INTERNAL_SERVER_ERROR,
                ClientError::SERVICE_ERROR,
            ),
            MyError::ClientCreationFail { .. } => (
                STATUS_INTERNAL_SERVER_ERROR,
                ClientError::SERVICE_ERROR,
            ),
            MyError::PoolCreationFail { .. } => (
                STATUS_INTERNAL_SERVER_ERROR,
                ClientError::SERVICE_ERROR,
            ),
        }
    }
}

impl ClientError {
    /// The category's name as it appears in an error body.
    pub fn as_str(&self) -> (r: &'static str)
        ensures
            *self == ClientError::LOGIN_FAIL ==> r@ == "LOGIN_FAIL"@,
            *self == ClientError::NO_AUTH ==> r@ == "NO_AUTH"@,
            *self == ClientError::DATABASE_ERROR ==> r@ == "DATABASE_ERROR"@,
            *self == ClientError::INVALID_PARAMS ==> r@ == "INVALID_PARAMS"@,
            *self == ClientError::SERVICE_ERROR ==> r@ == "SERVICE_ERROR"@,
    {
        match self {
            ClientError::LOGIN_FAIL => "LOGIN_FAIL",
            ClientError::NO_AUTH => "NO_AUTH",
            ClientError::DATABASE_ERROR => "DATABASE_ERROR",
            ClientError::INVALID_PARAMS => "INVALID_PARAMS",
            ClientError::SERVICE_ERROR => "SERVICE_ERROR",
        }
    }
}

} // verus!
