use authentication::{
    Authenticator, CredentialStore, Fault, LoginError, LoginRequest, LoginResponse, LoginResult,
    PlaceholderTokens, RegisterError, RegisterRequest, RegisterResponse, TokenIssuer, User,
    PLACEHOLDER_TOKEN,
};

fn user(name: &str, secret: &str) -> User {
    User { username: name.to_string(), password_hash: secret.to_string() }
}

fn register(a: &mut Authenticator<PlaceholderTokens>, name: &str, secret: &str) -> Result<RegisterResponse, Fault> {
    a.register_user(RegisterRequest { user: Some(user(name, secret)) })
}

fn login(a: &Authenticator<PlaceholderTokens>, name: &str, secret: &str) -> Result<LoginResponse, Fault> {
    a.login_user(LoginRequest { user: Some(user(name, secret)) })
}

fn granted() -> Result<LoginResponse, Fault> {
    Ok(LoginResponse { result: Some(LoginResult::Token(PLACEHOLDER_TOKEN.to_string())) })
}

fn refused() -> Result<LoginResponse, Fault> {
    Ok(LoginResponse { result: Some(LoginResult::Error(LoginError::InvalidCredentials)) })
}

fn registered() -> Result<RegisterResponse, Fault> {
    Ok(RegisterResponse { error: None })
}

fn taken() -> Result<RegisterResponse, Fault> {
    Ok(RegisterResponse { error: Some(RegisterError::UsernameTaken) })
}

#[test]
fn alice_scenario() {
    let mut a = Authenticator::new(PlaceholderTokens);
    assert_eq!(register(&mut a, "alice", "h1"), registered());
    assert_eq!(register(&mut a, "alice", "h2"), taken());
    assert_eq!(login(&a, "alice", "h1"), granted());
    assert_eq!(login(&a, "alice", "h2"), refused());
    assert_eq!(login(&a, "bob", "x"), refused());
}

#[test]
fn later_registrations_of_a_name_are_all_taken() {
    let mut a = Authenticator::new(PlaceholderTokens);
    assert_eq!(register(&mut a, "carol", "c0"), registered());
    assert_eq!(register(&mut a, "dave", "d0"), registered());
    for secret in ["c0", "c1", "c2", ""] {
        assert_eq!(register(&mut a, "carol", secret), taken());
    }
    assert_eq!(register(&mut a, "dave", "d1"), taken());
    assert_eq!(login(&a, "carol", "c0"), granted());
    assert_eq!(login(&a, "dave", "d0"), granted());
}

#[test]
fn secret_survives_later_registrations() {
    let mut a = Authenticator::new(PlaceholderTokens);
    assert_eq!(register(&mut a, "erin", "secret"), registered());
    assert_eq!(register(&mut a, "frank", "other"), registered());
    assert_eq!(register(&mut a, "erin", "changed"), taken());
    assert_eq!(login(&a, "erin", "secret"), granted());
    assert_eq!(login(&a, "erin", "changed"), refused());
    assert_eq!(login(&a, "erin", "secre"), refused());
    assert_eq!(login(&a, "erin", ""), refused());
}

#[test]
fn unknown_user_and_wrong_secret_look_alike() {
    let mut a = Authenticator::new(PlaceholderTokens);
    assert_eq!(register(&mut a, "grace", "g"), registered());
    let unknown = login(&a, "heidi", "g");
    let wrong = login(&a, "grace", "x");
    assert_eq!(unknown, refused());
    assert_eq!(unknown, wrong);
}

#[test]
fn login_on_empty_service_is_refused() {
    let a = Authenticator::new(PlaceholderTokens);
    assert_eq!(login(&a, "", ""), refused());
    assert_eq!(login(&a, "ivan", "i"), refused());
}

#[test]
fn missing_user_is_invalid_argument() {
    let mut a = Authenticator::new(PlaceholderTokens);
    assert_eq!(a.register_user(RegisterRequest { user: None }), Err(Fault::InvalidArgument));
    assert_eq!(a.login_user(LoginRequest { user: None }), Err(Fault::InvalidArgument));
    // nothing was stored by the malformed request
    assert_eq!(register(&mut a, "judy", "j"), registered());
}

#[test]
fn missing_user_after_registrations_is_invalid_argument() {
    let mut a = Authenticator::new(PlaceholderTokens);
    assert_eq!(register(&mut a, "ken", "k"), registered());
    assert_eq!(a.login_user(LoginRequest { user: None }), Err(Fault::InvalidArgument));
    assert_eq!(a.register_user(RegisterRequest { user: None }), Err(Fault::InvalidArgument));
    assert_eq!(login(&a, "ken", "k"), granted());
}

#[test]
fn same_name_race_has_one_winner_in_every_order() {
    let secrets = ["s0", "s1", "s2", "s3"];
    let orders = [[0, 1, 2, 3], [3, 2, 1, 0], [2, 0, 3, 1], [1, 3, 0, 2]];
    for order in orders {
        let mut a = Authenticator::new(PlaceholderTokens);
        let mut wins = 0;
        let mut losses = 0;
        for &k in order.iter() {
            let r = register(&mut a, "mallory", secrets[k]);
            if r == registered() {
                wins += 1;
            } else {
                assert_eq!(r, taken());
                losses += 1;
            }
        }
        assert_eq!(wins, 1);
        assert_eq!(losses, secrets.len() - 1);
        let first = secrets[order[0]];
        assert_eq!(login(&a, "mallory", first), granted());
        for s in secrets {
            if s != first {
                assert_eq!(login(&a, "mallory", s), refused());
            }
        }
    }
}

#[test]
fn secret_is_stored_verbatim() {
    let mut a = Authenticator::new(PlaceholderTokens);
    let hash = "$argon2id$v=19$m=65536,t=3,p=4$c2FsdA$aGFzaA";
    assert_eq!(register(&mut a, "niaj", hash), registered());
    assert_eq!(login(&a, "niaj", hash), granted());
    assert_eq!(login(&a, "niaj", "$argon2id$v=19$m=65536,t=3,p=4$c2FsdA$aGFzaB"), refused());
}

#[test]
fn placeholder_token_is_fixed() {
    let t = PlaceholderTokens;
    assert_eq!(t.issue_token(&"olivia".to_string()), PLACEHOLDER_TOKEN);
    assert_eq!(t.issue_token(&String::new()), "some-nice-token-that-should-eventually-be-a-json-webtoken");
}

#[test]
fn store_insert_if_absent_and_lookup() {
    let mut s = CredentialStore::new();
    assert_eq!(s.lookup(&"peggy".to_string()), None);
    assert!(s.insert_if_absent("peggy".to_string(), "p1".to_string()));
    assert!(!s.insert_if_absent("peggy".to_string(), "p2".to_string()));
    assert!(s.insert_if_absent("rupert".to_string(), "r1".to_string()));
    assert_eq!(s.lookup(&"peggy".to_string()), Some("p1".to_string()));
    assert_eq!(s.lookup(&"rupert".to_string()), Some("r1".to_string()));
    assert_eq!(s.lookup(&"sybil".to_string()), None);
}
