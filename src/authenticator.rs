use vstd::prelude::*;

use crate::protocol::{
    Fault, LoginError, LoginRequest, LoginResponse, LoginResult, RegisterError, RegisterRequest,
    RegisterResponse,
};
use crate::store::CredentialStore;
use crate::token::TokenIssuer;

verus! {

/// One registration of `username` with `secret` against the mapping `m`:
/// the next mapping, and whether the username was free (the call succeeded).
pub open spec fn register_step(
    m: Map<Seq<char>, Seq<char>>,
    username: Seq<char>,
    secret: Seq<char>,
) -> (Map<Seq<char>, Seq<char>>, bool) {
    if m.contains_key(username) {
        (m, false)
    } else {
        (m.insert(username, secret), true)
    }
}

/// Whether `secret` is exactly the secret stored for `username` in `m`.
pub open spec fn credentials_match(
    m: Map<Seq<char>, Seq<char>>,
    username: Seq<char>,
    secret: Seq<char>,
) -> bool {
    m.contains_key(username) && m[username] == secret
}

/// What a login of `username` with `secret` against `m` yields, where `token`
/// is the token issued for that username.
pub open spec fn login_outcome(
    m: Map<Seq<char>, Seq<char>>,
    username: Seq<char>,
    secret: Seq<char>,
    token: Seq<char>,
) -> Result<Seq<char>, LoginError> {
    if credentials_match(m, username, secret) {
        Ok(token)
    } else {
        Err(LoginError::InvalidCredentials)
    }
}

/// The register / login service: it owns the credential store and the token
/// issuer. Callers that share it between concurrent requests put it behind a
/// reader/writer lock: `register_user` takes it exclusively, `login_user`
/// shared.
pub struct Authenticator<T: TokenIssuer> {
    store: CredentialStore,
    issuer: T,
}

impl<T: TokenIssuer> Authenticator<T> {
    /// The registered usernames and their secrets.
    pub closed spec fn credentials(&self) -> Map<Seq<char>, Seq<char>> {
        self.store@
    }

    /// The issuer of session tokens.
    pub closed spec fn issuer(&self) -> T {
        self.issuer
    }

    /// Well-formedness of the owned store.
    pub closed spec fn wf(&self) -> bool {
        self.store.wf()
    }

    /// A service with no registered user.
    pub fn new(issuer: T) -> (r: Self)
        ensures
            r.wf(),
            r.credentials() == Map::<Seq<char>, Seq<char>>::empty(),
            r.issuer() == issuer,
    {
        Authenticator { store: CredentialStore::new(), issuer }
    }

    /// Registers a user. A request without a user is a transport fault; a
    /// taken username is reported in the response and changes nothing;
    /// otherwise the secret is stored verbatim.
    pub fn register_user(&mut self, request: RegisterRequest) -> (r: Result<
        RegisterResponse,
        Fault,
    >)
        requires
            old(self).wf(),
        ensures
            final(self).wf(),
            final(self).issuer() == old(self).issuer(),
            match request.user {
                None => r == Err::<RegisterResponse, Fault>(Fault::InvalidArgument)
                    && final(self).credentials() == old(self).credentials(),
                Some(u) => {
                    let (m, added) = register_step(
                        old(self).credentials(),
                        u.username@,
                        u.password_hash@,
                    );
                    &&& final(self).credentials() == m
                    &&& r == Ok::<RegisterResponse, Fault>(
                        RegisterResponse {
                            error: if added {
                                None
                            } else {
                                Some(RegisterError::UsernameTaken)
                            },
                        },
                    )
                },
            },
    {
        match request.user {
            None => Err(Fault::InvalidArgument),
            Some(user) => {
                if self.store.insert_if_absent(user.username, user.password_hash) {
                    Ok(RegisterResponse { error: None })
                } else {
                    Ok(RegisterResponse { error: Some(RegisterError::UsernameTaken) })
                }
            },
        }
    }

    /// Checks a user's secret. A request without a user is a transport
    /// fault; otherwise the response carries a token when the secret is the
    /// stored one, and `InvalidCredentials` both for an unknown user and for
    /// a wrong secret.
    pub fn login_user(&self, request: LoginRequest) -> (r: Result<LoginResponse, Fault>)
        requires
            self.wf(),
        ensures
            match request.user {
                None => r == Err::<LoginResponse, Fault>(Fault::InvalidArgument),
                Some(u) => r matches Ok(resp) && resp.result matches Some(res) && res@
                    == login_outcome(
                    self.credentials(),
                    u.username@,
                    u.password_hash@,
                    self.issuer().token_for(u.username@),
                ),
            },
    {
        match request.user {
            None => Err(Fault::InvalidArgument),
            Some(user) => {
                let granted = match self.store.lookup(&user.username) {
                    Some(stored) => stored == user.password_hash,
                    None => false,
                };
                if granted {
                    let token = self.issuer.issue_token(&user.username);
                    Ok(LoginResponse { result: Some(LoginResult::Token(token)) })
                } else {
                    Ok(
                        LoginResponse {
                            result: Some(LoginResult::Error(LoginError::InvalidCredentials)),
                        },
                    )
                }
            },
        }
    }
}

} // verus!
