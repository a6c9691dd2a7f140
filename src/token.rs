use vstd::prelude::*;

verus! {

/// The token handed out on every successful login until real signed tokens
/// take its place.
pub const PLACEHOLDER_TOKEN: &'static str = "some-nice-token-that-should-eventually-be-a-json-webtoken";

/// Issues the session token for a user who has just logged in.
pub trait TokenIssuer {
    /// The token issued for `username`.
    spec fn token_for(&self, username: Seq<char>) -> Seq<char>;

    fn issue_token(&self, username: &String) -> (r: String)
        ensures
            r@ == self.token_for(username@),
    ;
}

/// Issues the same fixed, unsigned token to everyone.
#[derive(Debug, Clone, Copy, PartialEq, Eq, Structural)]
pub struct PlaceholderTokens;

impl TokenIssuer for PlaceholderTokens {
    open spec fn token_for(&self, username: Seq<char>) -> Seq<char> {
        PLACEHOLDER_TOKEN@
    }

    fn issue_token(&self, username: &String) -> (r: String) {
        PLACEHOLDER_TOKEN.to_owned()
    }
}

} // verus!
