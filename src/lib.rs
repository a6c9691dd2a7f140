//! A credential service core: a store that maps usernames to credential
//! secrets, and the `register` / `login` operations over it.
mod authenticator;
pub mod laws;
mod protocol;
mod store;
mod token;

pub use protocol::{
    Fault, LoginError, LoginRequest, LoginResponse, LoginResult, RegisterError,
    RegisterRequest, RegisterResponse, User,
};
pub use authenticator::Authenticator;
pub use store::CredentialStore;
pub use token::{PlaceholderTokens, TokenIssuer, PLACEHOLDER_TOKEN};
