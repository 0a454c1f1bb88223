use peeker::auth::auth::{
    auth_cookie_name, login, login_outcome, new_user, register, registration_status, session_cookie, session_token,
    LoginRequest as CookieLoginRequest, NewUser, SessionGrant, UserRecord,
};
use peeker::auth::{
    bearer_token, claims_at, claims_from_clock, claims_from_decoded, new_claims, session_claims, Claims, LoginRequest, LoginResponse,
    RegisterRequest, SESSION_LIFETIME_SECONDS,
};
use peeker::status::HttpStatus;

fn request(name: &str, password: &str, role: &str) -> RegisterRequest {
    RegisterRequest { username: name.to_string(), password: password.to_string(), role: role.to_string() }
}

fn stored(id: i32, user: &NewUser) -> UserRecord {
    UserRecord {
        id,
        username: user.username.clone(),
        password_hash: user.password_hash.clone(),
        role: user.role.clone(),
    }
}

fn attempt(name: &str, password: &str) -> CookieLoginRequest {
    CookieLoginRequest { username: name.to_string(), password: password.to_string() }
}

#[test]
fn bearer_token_reads_the_authorization_header() {
    assert_eq!(bearer_token(Some("Bearer abc.def.ghi")), Ok("abc.def.ghi".to_string()));
    assert_eq!(bearer_token(Some("Bearer ")), Ok(String::new()));
    assert_eq!(bearer_token(Some("Bearer  x")), Ok(" x".to_string()));
}

#[test]
fn bearer_token_refuses_other_headers() {
    assert_eq!(bearer_token(None), Err(HttpStatus::Unauthorized));
    assert_eq!(bearer_token(Some("bearer abc")), Err(HttpStatus::Unauthorized));
    assert_eq!(bearer_token(Some("Bearer")), Err(HttpStatus::Unauthorized));
    assert_eq!(bearer_token(Some("Token abc")), Err(HttpStatus::Unauthorized));
    assert_eq!(bearer_token(Some("")), Err(HttpStatus::Unauthorized));
}

#[test]
fn new_claims_last_a_day() {
    let c = new_claims("7", "admin", 1_000);
    assert_eq!(
        c,
        Claims { sub: "7".to_string(), role: "admin".to_string(), iat: 1_000, exp: 87_400 }
    );
    assert_eq!(SESSION_LIFETIME_SECONDS, 24 * 60 * 60);
}

#[test]
fn session_claims_start_now() {
    let before = std::time::SystemTime::now().duration_since(std::time::UNIX_EPOCH).unwrap().as_secs() as usize;
    let c = session_claims("12", "user").expect("the clock is in range");
    let after = std::time::SystemTime::now().duration_since(std::time::UNIX_EPOCH).unwrap().as_secs() as usize;
    assert_eq!(c.sub, "12");
    assert_eq!(c.role, "user");
    assert!(before <= c.iat && c.iat <= after + 1);
    assert_eq!(c.exp, c.iat + 86_400);
}

#[test]
fn decoded_claims_pass_and_failures_are_unauthorized() {
    let c = new_claims("1", "admin", 5);
    assert_eq!(claims_from_decoded::<()>(Ok(c.clone())), Ok(c));
    assert_eq!(claims_from_decoded::<&str>(Err("expired")), Err(HttpStatus::Unauthorized));
}

#[test]
fn login_types_hold_their_fields() {
    let l = LoginRequest { username: "u".to_string(), password: "p".to_string(), device: "d".to_string() };
    assert_eq!(l.device, "d");
    let r = LoginResponse { token: "t".to_string() };
    assert_eq!(r.token, "t");
}

#[test]
fn registered_password_logs_in() {
    let user = register(request("nauzoo", "senha_super_segura", "admin")).expect("hashing succeeds");
    assert_eq!(user.username, "nauzoo");
    assert_eq!(user.role, "admin");
    assert_ne!(user.password_hash, "senha_super_segura");
    assert!(user.password_hash.starts_with("$argon2id$"));
    let grant = login::<()>(Ok(Some(stored(42, &user))), &attempt("nauzoo", "senha_super_segura"));
    assert_eq!(grant, Ok(SessionGrant { user_id: "42".to_string(), role: "admin".to_string() }));
}

#[test]
fn login_refuses_a_wrong_password() {
    let user = register(request("ana", "right", "user")).unwrap();
    assert_eq!(
        login::<()>(Ok(Some(stored(-3, &user))), &attempt("ana", "wrong")),
        Err(HttpStatus::Unauthorized)
    );
}

#[test]
fn login_answers_missing_accounts_and_failures() {
    assert_eq!(login::<()>(Ok(None), &attempt("ghost", "x")), Err(HttpStatus::Unauthorized));
    assert_eq!(login::<&str>(Err("db down"), &attempt("ghost", "x")), Err(HttpStatus::InternalServerError));
    let broken = UserRecord {
        id: 1,
        username: "b".to_string(),
        password_hash: "not a phc string".to_string(),
        role: "user".to_string(),
    };
    assert_eq!(login::<()>(Ok(Some(broken)), &attempt("b", "x")), Err(HttpStatus::InternalServerError));
}

#[test]
fn each_registration_gets_its_own_salt() {
    let a = register(request("a", "same", "user")).unwrap();
    let b = register(request("b", "same", "user")).unwrap();
    assert_ne!(a.password_hash, b.password_hash);
}

#[test]
fn new_user_keeps_name_and_role() {
    let u = new_user::<()>(request("n", "p", "r"), Ok("$argon2id$x".to_string())).unwrap();
    assert_eq!(u, NewUser { username: "n".to_string(), password_hash: "$argon2id$x".to_string(), role: "r".to_string() });
    assert_eq!(new_user::<()>(request("n", "p", "r"), Err(())), Err(HttpStatus::InternalServerError));
}

#[test]
fn registration_status_is_created_or_conflict() {
    assert_eq!(registration_status::<()>(Ok(())), HttpStatus::Created);
    assert_eq!(registration_status::<&str>(Err("unique")), HttpStatus::Conflict);
}

#[test]
fn session_cookie_is_http_only_for_every_path() {
    let c = session_cookie("tok".to_string());
    assert_eq!(c.name, "auth_token");
    assert_eq!(c.name, auth_cookie_name());
    assert_eq!(c.value, "tok");
    assert!(c.http_only);
    assert_eq!(c.path, "/");
}

#[test]
fn session_token_comes_from_the_cookie() {
    assert_eq!(session_token(true, Some("t".to_string())), Ok("t".to_string()));
    assert_eq!(session_token(true, None), Err(HttpStatus::Unauthorized));
    assert_eq!(session_token(false, None), Err(HttpStatus::InternalServerError));
    assert_eq!(session_token(false, Some("t".to_string())), Err(HttpStatus::InternalServerError));
}

#[test]
fn login_outcome_follows_the_password_check() {
    let user = UserRecord {
        id: 2147483647,
        username: "max".to_string(),
        password_hash: "$argon2id$v=19$m=19456,t=2,p=1$c2FsdHNhbHQ$aGFzaA".to_string(),
        role: "user".to_string(),
    };
    assert_eq!(
        login_outcome::<()>(user.clone(), Ok(true)),
        Ok(SessionGrant { user_id: "2147483647".to_string(), role: "user".to_string() })
    );
    assert_eq!(login_outcome::<()>(user.clone(), Ok(false)), Err(HttpStatus::Unauthorized));
    assert_eq!(login_outcome::<&str>(user, Err("bad phc")), Err(HttpStatus::InternalServerError));
}

#[test]
fn claims_at_starts_at_the_clock_reading() {
    assert_eq!(
        claims_at("3", "user", 1_700_000_000),
        Some(Claims { sub: "3".to_string(), role: "user".to_string(), iat: 1_700_000_000, exp: 1_700_086_400 })
    );
    assert_eq!(claims_at("3", "user", 0).map(|c| (c.iat, c.exp)), Some((0, 86_400)));
    assert_eq!(claims_at("3", "user", -1), None);
    let last = (usize::MAX - 86_400) as i64;
    assert_eq!(claims_at("3", "user", last).map(|c| c.exp), Some(usize::MAX));
}

#[test]
fn registered_hash_records_a_sixteen_byte_salt() {
    let user = register(request("salty", "pw", "user")).unwrap();
    let fields: Vec<&str> = user.password_hash.split('$').collect();
    assert_eq!(fields.len(), 6);
    assert_eq!(fields[0], "");
    assert_eq!(fields[1], "argon2id");
    assert_eq!(fields[2], "v=19");
    let salt = fields[4];
    assert_eq!(salt.len(), 22);
    assert!(salt[..21].chars().all(|c| c.is_ascii_alphanumeric() || c == '+' || c == '/'));
    assert!(matches!(salt.chars().last(), Some('A' | 'Q' | 'g' | 'w')));
}

#[test]
fn register_succeeds_for_an_empty_password() {
    let user = register(request("empty", "", "user")).unwrap();
    assert_eq!(
        login::<()>(Ok(Some(stored(1, &user))), &attempt("empty", "")),
        Ok(SessionGrant { user_id: "1".to_string(), role: "user".to_string() })
    );
}

#[test]
fn claims_from_clock_take_the_reading_seconds() {
    assert_eq!(
        claims_from_clock("9", "admin", Some((1_700_000_000, 123))),
        Some(Claims { sub: "9".to_string(), role: "admin".to_string(), iat: 1_700_000_000, exp: 1_700_086_400 })
    );
    assert_eq!(claims_from_clock("9", "admin", Some((0, 0))).map(|c| (c.iat, c.exp)), Some((0, 86_400)));
}

#[test]
fn claims_from_clock_refuse_unusable_readings() {
    assert_eq!(claims_from_clock("9", "admin", None), None);
    assert_eq!(claims_from_clock("9", "admin", Some((u64::MAX, 0))), None);
    assert_eq!(claims_from_clock("9", "admin", Some((i64::MAX as u64, 0))), None);
    assert_eq!(claims_from_clock("9", "admin", Some((0, 2_000_000_000))), None);
}
