use vstd::prelude::*;

verus! {

/// Caller-supplied credentials: a username and a credential secret (a
/// password hash, never a plain password).
#[derive(Debug, Clone, PartialEq, Eq)]
pub struct User {
    pub username: String,
    pub password_hash: String,
}

/// A `register` call. `user` is `None` when the caller left the field unset.
#[derive(Debug, Clone, PartialEq, Eq)]
pub struct RegisterRequest {
    pub user: Option<User>,
}

/// A `login` call. `user` is `None` when the caller left the field unset.
#[derive(Debug, Clone, PartialEq, Eq)]
pub struct LoginRequest {
    pub user: Option<User>,
}

/// The domain-level failure of `register`.
#[derive(Debug, Clone, Copy, PartialEq, Eq, Structural)]
pub enum RegisterError {
    UsernameTaken,
}

/// The domain-level failure of `login`. An unknown user and a wrong secret
/// give the same value.
#[derive(Debug, Clone, Copy, PartialEq, Eq, Structural)]
pub enum LoginError {
    InvalidCredentials,
}

/// The reply to a `register` call that was well formed.
#[derive(Debug, Clone, Copy, PartialEq, Eq, Structural)]
pub struct RegisterResponse {
    pub error: Option<RegisterError>,
}

/// Either a session token or the domain-level failure of `login`.
#[derive(Debug, Clone, PartialEq, Eq)]
pub enum LoginResult {
    Token(String),
    Error(LoginError),
}

impl View for LoginResult {
    type V = Result<Seq<char>, LoginError>;

    open spec fn view(&self) -> Result<Seq<char>, LoginError> {
        match self {
            LoginResult::Token(t) => Ok(t@),
            LoginResult::Error(e) => Err(*e),
        }
    }
}

/// The reply to a `login` call that was well formed.
#[derive(Debug, Clone, PartialEq, Eq)]
pub struct LoginResponse {
    pub result: Option<LoginResult>,
}

/// A transport-level fault: the request itself was malformed.
#[derive(Debug, Clone, Copy, PartialEq, Eq, Structural)]
pub enum Fault {
    /// A required field of the request was unset.
    InvalidArgument,
}

} // verus!
