//! Accounts and cookie-borne sessions: registration stores an Argon2 hash of
//! the password, login checks a password against it, and the session token
//! travels in the `auth_token` cookie.

use vstd::prelude::*;

use argon2::password_hash::rand_core::OsRng;
use argon2::password_hash::{PasswordHash, PasswordHasher, PasswordVerifier, Salt, SaltString};
use argon2::Argon2;

use vstd::utf8::encode_utf8;

use crate::decimal::{format_i32, int_decimal};
use crate::status::HttpStatus;

pub use super::{Claims, RegisterRequest};

verus! {

/// The error type of the `password-hash` crate, which Argon2 reports with.
#[verifier::external_type_specification]
#[verifier::external_body]
pub struct ExPasswordHashError(argon2::password_hash::Error);

/// Credentials sent to log in.
#[derive(Debug, Clone, PartialEq, Eq)]
pub struct LoginRequest {
    pub username: String,
    pub password: String,
}

/// A stored account, as the `users` table holds it.
#[derive(Debug, Clone, PartialEq, Eq)]
pub struct UserRecord {
    pub id: i32,
    pub username: String,
    pub password_hash: String,
    pub role: String,
}

/// An account ready to be stored: the password only as its PHC hash string.
#[derive(Debug, Clone, PartialEq, Eq)]
pub struct NewUser {
    pub username: String,
    pub password_hash: String,
    pub role: String,
}

/// Whom a successful login opens a session for: the account id in decimal,
/// and its role.
#[derive(Debug, Clone, PartialEq, Eq)]
pub struct SessionGrant {
    pub user_id: String,
    pub role: String,
}

/// The cookie that carries a session token back to the browser.
#[derive(Debug, Clone, PartialEq, Eq)]
pub struct SessionCookie {
    pub name: String,
    pub value: String,
    pub http_only: bool,
    pub path: String,
}

/// Whether `PasswordHash::new` accepts `phc` as a PHC string.
pub uninterp spec fn phc_parses(phc: Seq<char>) -> bool;

/// Whether `Argon2::default().verify_password` accepts the UTF-8 bytes of
/// `password` against the hash that the PHC string `phc` holds.
pub uninterp spec fn argon2_accepts(password: Seq<char>, phc: Seq<char>) -> bool;

/// The PHC string of `Argon2::default().hash_password` on the UTF-8 bytes of
/// `password` with the B64 salt `salt`.
pub uninterp spec fn argon2_phc(password: Seq<char>, salt: Seq<char>) -> Seq<char>;

/// Checks `password` against a stored PHC string: `PasswordHash::new(phc)`,
/// then `Argon2::default().verify_password` on the password's bytes. An error
/// comes exactly when the string does not parse; otherwise whether the
/// password matches.
#[verifier::external_body]
fn argon2_verify(password: &str, phc: &str) -> (r: Result<bool, argon2::password_hash::Error>)
    ensures
        r is Ok == phc_parses(phc@),
        r matches Ok(matches) ==> matches == argon2_accepts(password@, phc@),
{
    let hash = PasswordHash::new(phc)?;
    Ok(Argon2::default().verify_password(password.as_bytes(), &hash).is_ok())
}

/// Whether `c` belongs to the B64 alphabet (standard Base64).
pub open spec fn is_b64_char(c: char) -> bool {
    ('A' <= c && c <= 'Z') || ('a' <= c && c <= 'z') || ('0' <= c && c <= '9') || c == '+' || c
        == '/'
}

/// Whether `s` is the B64 text, without padding, of 16 bytes: 22 B64
/// characters, the last of which holds two bits followed by four zero bits.
pub open spec fn is_salt_text(s: Seq<char>) -> bool {
    &&& s.len() == 22
    &&& forall|i: int| 0 <= i < 21 ==> is_b64_char(#[trigger] s[i])
    &&& (s[21] == 'A' || s[21] == 'Q' || s[21] == 'g' || s[21] == 'w')
}

/// Reads a PHC string from the left: the `$`-separated fields finished so far
/// and the field still being read.
pub open spec fn scan_phc_fields(s: Seq<char>) -> (Seq<Seq<char>>, Seq<char>)
    decreases s.len(),
{
    if s.len() == 0 {
        (Seq::empty(), Seq::empty())
    } else {
        let (done, current) = scan_phc_fields(s.drop_last());
        if s.last() == '$' {
            (done.push(current), Seq::empty())
        } else {
            (done, current.push(s.last()))
        }
    }
}

/// The `$`-separated fields of a PHC string (the first is the empty text
/// before the leading `$`).
pub open spec fn phc_fields(s: Seq<char>) -> Seq<Seq<char>> {
    scan_phc_fields(s).0.push(scan_phc_fields(s).1)
}

/// The salt field of an Argon2 PHC string `$argon2id$v=..$m=..,t=..,p=..$salt$hash`.
pub open spec fn phc_salt(s: Seq<char>) -> Seq<char> {
    phc_fields(s)[4]
}

/// How every PHC string of the default Argon2 algorithm begins.
pub open spec fn argon2id_prefix() -> Seq<char> {
    seq!['$', 'a', 'r', 'g', 'o', 'n', '2', 'i', 'd', '$']
}

/// The longest password, in UTF-8 bytes, that Argon2 hashes.
pub open spec fn max_password_bytes() -> nat {
    0xFFFF_FFFF
}

/// A fresh random salt (`SaltString::generate(&mut OsRng)`): the B64 text of
/// 16 random bytes from the operating system's random source. Which bytes is
/// not stated: they are random.
#[verifier::external_body]
fn random_salt() -> (salt: String)
    ensures
        is_salt_text(salt@),
{
    SaltString::generate(&mut OsRng).as_str().to_owned()
}

/// Hashes `password` with the default Argon2 parameters and the B64 salt
/// `salt` (`Salt::from_b64`, then `Argon2::default().hash_password`), as a PHC
/// string `$argon2id$v=19$m=..,t=..,p=..$<salt>$<hash>`. With the B64 text of
/// 16 bytes as salt it fails only for a password longer than Argon2 takes.
/// What comes back parses, records the salt, and verifying the same password
/// against it succeeds: `verify_password` recomputes the hash with the
/// algorithm, version, parameters and salt that the string records and
/// compares the outputs.
#[verifier::external_body]
fn argon2_hash(password: &str, salt: &str) -> (r: Result<String, argon2::password_hash::Error>)
    ensures
        is_salt_text(salt@) ==> (r is Ok <==> encode_utf8(password@).len() <= max_password_bytes()),
        r matches Ok(phc) ==> {
            &&& phc@ == argon2_phc(password@, salt@)
            &&& phc_parses(phc@)
            &&& argon2_accepts(password@, phc@)
            &&& phc_salt(phc@) == salt@
            &&& argon2id_prefix().is_prefix_of(phc@)
        },
{
    let salt = Salt::from_b64(salt)?;
    Ok(Argon2::default().hash_password(password.as_bytes(), salt)?.to_string())
}

/// Whether `password` is the password of the stored account `user`.
pub open spec fn password_matches(user: UserRecord, password: Seq<char>) -> bool {
    phc_parses(user.password_hash@) && argon2_accepts(password, user.password_hash@)
}

/// The answer to a login for the stored account `user`, given the outcome of
/// checking the password against its hash (`Err` when the stored hash does not
/// parse): 500 for an unreadable hash, 401 for a wrong password, otherwise a
/// session for the account's id and role.
pub fn login_outcome<E>(user: UserRecord, checked: Result<bool, E>) -> (r: Result<
    SessionGrant,
    HttpStatus,
>)
    ensures
        match checked {
            Err(_) => r == Err::<SessionGrant, HttpStatus>(HttpStatus::InternalServerError),
            Ok(false) => r == Err::<SessionGrant, HttpStatus>(HttpStatus::Unauthorized),
            Ok(true) => r matches Ok(g) && g.user_id@ == int_decimal(user.id as int) && g.role
                == user.role,
        },
{
    match checked {
        Err(_) => Err(HttpStatus::InternalServerError),
        Ok(false) => Err(HttpStatus::Unauthorized),
        Ok(true) => Ok(SessionGrant { user_id: format_i32(user.id), role: user.role }),
    }
}

/// Decides a login. `lookup` is the account found under the requested user name
/// (`Err` when the database could not be asked). A missing account or a wrong
/// password is answered 401; a failed lookup or a stored hash that does not
/// parse, 500. Otherwise a session is granted to the account's id and role.
pub fn login<E>(lookup: Result<Option<UserRecord>, E>, request: &LoginRequest) -> (r: Result<
    SessionGrant,
    HttpStatus,
>)
    ensures
        match lookup {
            Err(_) => r == Err::<SessionGrant, HttpStatus>(HttpStatus::InternalServerError),
            Ok(None) => r == Err::<SessionGrant, HttpStatus>(HttpStatus::Unauthorized),
            Ok(Some(user)) => if !phc_parses(user.password_hash@) {
                r == Err::<SessionGrant, HttpStatus>(HttpStatus::InternalServerError)
            } else if !password_matches(user, request.password@) {
                r == Err::<SessionGrant, HttpStatus>(HttpStatus::Unauthorized)
            } else {
                r matches Ok(g) && g.user_id@ == int_decimal(user.id as int) && g.role
                    == user.role
            },
        },
        r is Ok ==> (lookup matches Ok(Some(user)) && phc_parses(user.password_hash@)
            && argon2_accepts(request.password@, user.password_hash@)),
        lookup matches Ok(Some(user)) ==> (phc_parses(user.password_hash@) && !argon2_accepts(
            request.password@,
            user.password_hash@,
        ) ==> r == Err::<SessionGrant, HttpStatus>(HttpStatus::Unauthorized)),
{
    let user = match lookup {
        Err(_) => return Err(HttpStatus::InternalServerError),
        Ok(None) => return Err(HttpStatus::Unauthorized),
        Ok(Some(user)) => user,
    };
    let checked = argon2_verify(request.password.as_str(), user.password_hash.as_str());
    login_outcome(user, checked)
}

/// The name of the cookie that carries the session token.
pub fn auth_cookie_name() -> (name: &'static str)
    ensures
        name@ == "auth_token"@,
{
    "auth_token"
}

/// The `auth_token` cookie that carries `token`: readable by the server only
/// (`HttpOnly`) and sent for every path.
pub fn session_cookie(token: String) -> (c: SessionCookie)
    ensures
        c.name@ == "auth_token"@,
        c.value == token,
        c.http_only,
        c.path@ == "/"@,
{
    SessionCookie {
        name: String::from_str(auth_cookie_name()),
        value: token,
        http_only: true,
        path: String::from_str("/"),
    }
}

/// The session token of a request, from its cookies: 500 when the request
/// carries no cookie jar at all, 401 when it has no `auth_token` cookie.
pub fn session_token(jar_present: bool, auth_cookie: Option<String>) -> (r: Result<
    String,
    HttpStatus,
>)
    ensures
        !jar_present ==> r == Err::<String, HttpStatus>(HttpStatus::InternalServerError),
        jar_present ==> match auth_cookie {
            Some(token) => r == Ok::<String, HttpStatus>(token),
            None => r == Err::<String, HttpStatus>(HttpStatus::Unauthorized),
        },
{
    if !jar_present {
        return Err(HttpStatus::InternalServerError);
    }
    match auth_cookie {
        Some(token) => Ok(token),
        None => Err(HttpStatus::Unauthorized),
    }
}

/// What `request` registers, given the outcome of hashing its password: the
/// account with that hash, or 500 when hashing failed.
pub fn new_user<E>(request: RegisterRequest, hashed: Result<String, E>) -> (r: Result<
    NewUser,
    HttpStatus,
>)
    ensures
        match hashed {
            Ok(phc) => r == Ok::<NewUser, HttpStatus>(
                NewUser { username: request.username, password_hash: phc, role: request.role },
            ),
            Err(_) => r == Err::<NewUser, HttpStatus>(HttpStatus::InternalServerError),
        },
{
    match hashed {
        Ok(phc) => Ok(NewUser { username: request.username, password_hash: phc, role: request.role }),
        Err(_) => Err(HttpStatus::InternalServerError),
    }
}

/// Whether `user` is an account that registering `request` may produce: the
/// same name and role, and an Argon2id hash that parses and accepts the
/// password.
pub open spec fn registers_as(request: RegisterRequest, user: NewUser) -> bool {
    &&& user.username@ == request.username@
    &&& user.role@ == request.role@
    &&& phc_parses(user.password_hash@)
    &&& argon2_accepts(request.password@, user.password_hash@)
    &&& argon2id_prefix().is_prefix_of(user.password_hash@)
}

/// Whether the hash that `user` stores is the Argon2 hash of the password of
/// `request` made with `salt`, and records that salt.
pub open spec fn hashed_with_salt(request: RegisterRequest, user: NewUser, salt: Seq<char>) -> bool {
    &&& user.password_hash@ == argon2_phc(request.password@, salt)
    &&& phc_salt(user.password_hash@) == salt
}

/// Prepares the account that `request` asks for, hashing its password with a
/// fresh random salt (the B64 text of 16 random bytes). Succeeds for every
/// password that Argon2 takes; a longer one is answered 500.
pub fn register(request: RegisterRequest) -> (r: Result<NewUser, HttpStatus>)
    ensures
        r is Ok <==> encode_utf8(request.password@).len() <= max_password_bytes(),
        r matches Ok(user) ==> user.username == request.username && user.role == request.role,
        match r {
            Ok(user) => registers_as(request, user) && exists|salt: Seq<char>|
                is_salt_text(salt) && #[trigger] hashed_with_salt(request, user, salt),
            Err(status) => status == HttpStatus::InternalServerError,
        },
{
    let ghost original = request;
    let salt = random_salt();
    let hashed = argon2_hash(request.password.as_str(), salt.as_str());
    let r = new_user(request, hashed);
    proof {
        if r is Ok {
            assert(hashed_with_salt(original, r->Ok_0, salt@));
        }
    }
    r
}

/// A registered account keeps the requested name and role exactly, character
/// for character, whatever their length.
pub proof fn registration_keeps_name_and_role(request: RegisterRequest, user: NewUser)
    requires
        registers_as(request, user),
    ensures
        user.username@ == request.username@,
        user.username@.len() == request.username@.len(),
        user.role@ == request.role@,
{
}

/// Two registrations whose salts differ store different hashes, whatever their
/// passwords.
pub proof fn distinct_salts_store_distinct_hashes(
    first: RegisterRequest,
    first_user: NewUser,
    first_salt: Seq<char>,
    second: RegisterRequest,
    second_user: NewUser,
    second_salt: Seq<char>,
)
    requires
        hashed_with_salt(first, first_user, first_salt),
        hashed_with_salt(second, second_user, second_salt),
        first_salt != second_salt,
    ensures
        first_user.password_hash@ != second_user.password_hash@,
{
}

/// The answer to a registration once the account was offered to the database:
/// 201 when it was stored, 409 when it was refused (the name is taken).
pub fn registration_status<E>(stored: Result<(), E>) -> (s: HttpStatus)
    ensures
        s == (if stored is Ok {
            HttpStatus::Created
        } else {
            HttpStatus::Conflict
        }),
{
    match stored {
        Ok(()) => HttpStatus::Created,
        Err(_) => HttpStatus::Conflict,
    }
}

/// A stored account's password matches exactly when its hash parses and
/// Argon2 accepts the submitted password against it: every password Argon2
/// rejects, the empty one included, does not match.
pub proof fn password_matches_only_what_argon2_accepts(user: UserRecord, password: Seq<char>)
    ensures
        password_matches(user, password) ==> argon2_accepts(password, user.password_hash@),
        !argon2_accepts(password, user.password_hash@) ==> !password_matches(user, password),
        phc_parses(user.password_hash@) && argon2_accepts(password, user.password_hash@)
            ==> password_matches(user, password),
{
}

/// An account as registration prepared it, once stored, logs in with the
/// password it was registered with.
pub proof fn registered_password_logs_in(
    request: RegisterRequest,
    user: NewUser,
    stored: UserRecord,
    attempt: LoginRequest,
)
    requires
        registers_as(request, user),
        stored.password_hash@ == user.password_hash@,
        attempt.password@ == request.password@,
    ensures
        password_matches(stored, attempt.password@),
{
}

} // verus!
