//! Sessions carried by a signed token: the claims a session holds, how long it
//! lasts, and how a request presents its token in an `Authorization: Bearer`
//! header.

pub mod auth;

use vstd::prelude::*;

use crate::status::HttpStatus;
use crate::text::{chars_from, chars_of, chars_start_with, string_from_chars};

verus! {

/// What a session token asserts: whose session it is, with which role, when it
/// was issued and when it expires (seconds since the Unix epoch).
#[derive(Debug, Clone, PartialEq, Eq)]
pub struct Claims {
    pub sub: String,
    pub role: String,
    pub iat: usize,
    pub exp: usize,
}

/// Credentials sent to log in, with the device they are sent from.
#[derive(Debug, Clone, PartialEq, Eq)]
pub struct LoginRequest {
    pub username: String,
    pub password: String,
    pub device: String,
}

/// An account to create.
#[derive(Debug, Clone, PartialEq, Eq)]
pub struct RegisterRequest {
    pub username: String,
    pub password: String,
    pub role: String,
}

/// The answer to a successful login: the session token.
#[derive(Debug, Clone, PartialEq, Eq)]
pub struct LoginResponse {
    pub token: String,
}

/// How long a session lasts: 24 hours, in seconds.
pub const SESSION_LIFETIME_SECONDS: usize = 86400;

/// The claims of a session for `user_id` with role `level`, issued at `issued_at`.
pub open spec fn is_session_for(
    c: Claims,
    user_id: Seq<char>,
    level: Seq<char>,
    issued_at: int,
) -> bool {
    &&& c.sub@ == user_id
    &&& c.role@ == level
    &&& c.iat == issued_at
    &&& c.exp == issued_at + SESSION_LIFETIME_SECONDS
}

/// The claims of a session for `user_id` with role `level` that starts at
/// `issued_at` and ends a session lifetime later.
pub fn new_claims(user_id: &str, level: &str, issued_at: usize) -> (c: Claims)
    requires
        issued_at + SESSION_LIFETIME_SECONDS <= usize::MAX,
    ensures
        is_session_for(c, user_id@, level@, issued_at as int),
        c.sub@ == user_id@ && c.role@ == level@,
        c.iat == issued_at && c.exp == issued_at + 86400,
{
    Claims {
        sub: user_id.to_owned(),
        role: level.to_owned(),
        iat: issued_at,
        exp: issued_at + SESSION_LIFETIME_SECONDS,
    }
}

/// The time elapsed since the Unix epoch, as whole seconds and the nanoseconds
/// past them (`SystemTime::now().duration_since(UNIX_EPOCH)`), or `None` when
/// the system clock reads before the epoch. Nothing is stated of the value: it
/// is the machine's clock; the nanoseconds are below one second, as
/// `Duration::subsec_nanos` documents.
#[verifier::external_body]
fn time_since_epoch() -> (r: Option<(u64, u32)>)
    ensures
        r matches Some(t) ==> t.1 < 1_000_000_000,
{
    std::time::SystemTime::now()
        .duration_since(std::time::UNIX_EPOCH)
        .ok()
        .map(|d| (d.as_secs(), d.subsec_nanos()))
}

/// Whether `chrono::DateTime::from_timestamp(secs, nanos)` accepts its
/// arguments as a UTC date and time.
pub uninterp spec fn chrono_can_represent(secs: i64, nanos: u32) -> bool;

/// The UTC timestamp of `secs` seconds and `nanos` nanoseconds past the epoch
/// (`DateTime::from_timestamp(secs, nanos)`, then `timestamp()`): `None` when
/// chrono cannot represent that instant, otherwise `secs` itself, as chrono
/// documents that the two round-trip.
#[verifier::external_body]
fn utc_timestamp(secs: i64, nanos: u32) -> (r: Option<i64>)
    ensures
        r is Some == chrono_can_represent(secs, nanos),
        r matches Some(t) ==> t == secs,
{
    chrono::DateTime::from_timestamp(secs, nanos).map(|t| t.timestamp())
}

/// The claims of a session for `user_id` with role `level` that starts now
/// (the clock's UTC timestamp, read as an unsigned count) and lasts 24 hours:
/// what `claims_from_clock` gives for the reading of the system clock.
pub fn session_claims(user_id: &str, level: &str) -> (r: Option<Claims>)
    ensures
        r matches Some(c) ==> is_session_for(c, user_id@, level@, c.iat as int),
        r is None || exists|now: i64| 0 <= now && #[trigger] is_claims_at(r, user_id@, level@, now),
        exists|clock: Option<(u64, u32)>|
            (clock matches Some(t) ==> t.1 < 1_000_000_000) && #[trigger] is_claims_from_clock(
                r,
                user_id@,
                level@,
                clock,
            ),
{
    let clock = time_since_epoch();
    let r = claims_from_clock(user_id, level, clock);
    assert(is_claims_from_clock(r, user_id@, level@, clock));
    proof {
        if let Some(t) = clock {
            if r is Some {
                assert(is_claims_at(r, user_id@, level@, t.0 as i64));
            }
        }
    }
    r
}

/// Whether `r` is what a session for `user_id` with role `level` gets when the
/// clock reads `clock` (seconds and nanoseconds since the epoch, `None` for a
/// clock before it): nothing for a clock before the epoch, past `i64::MAX`
/// seconds, or beyond what chrono represents; otherwise the session starting at
/// those seconds.
pub open spec fn is_claims_from_clock(
    r: Option<Claims>,
    user_id: Seq<char>,
    level: Seq<char>,
    clock: Option<(u64, u32)>,
) -> bool {
    match clock {
        None => r is None,
        Some(t) => if t.0 > i64::MAX || !chrono_can_represent(t.0 as i64, t.1) {
            r is None
        } else {
            is_claims_at(r, user_id, level, t.0 as i64)
        },
    }
}

/// The claims of a session for `user_id` with role `level` given a reading of
/// the clock (whole seconds and nanoseconds since the Unix epoch, `None` when
/// it reads before the epoch). Seconds past `i64::MAX` or an instant chrono
/// cannot represent give `None`; otherwise the chrono timestamp of the reading
/// is the session's start, as `claims_at` takes it.
pub fn claims_from_clock(user_id: &str, level: &str, clock: Option<(u64, u32)>) -> (r: Option<
    Claims,
>)
    ensures
        is_claims_from_clock(r, user_id@, level@, clock),
{
    let (secs, nanos) = match clock {
        Some(t) => t,
        None => return None,
    };
    if secs > 0x7fff_ffff_ffff_ffff {
        return None;
    }
    let now = match utc_timestamp(secs as i64, nanos) {
        Some(t) => t,
        None => return None,
    };
    claims_at(user_id, level, now)
}

/// Whether `r` is what a session for `user_id` with role `level` gets when the
/// clock reads `now` seconds: the session starting at `now` read as an unsigned
/// count, or `None` when its expiry would not fit in a `usize`.
pub open spec fn is_claims_at(r: Option<Claims>, user_id: Seq<char>, level: Seq<char>, now: i64) -> bool {
    if (now as usize) + SESSION_LIFETIME_SECONDS > usize::MAX {
        r is None
    } else {
        r matches Some(c) && is_session_for(c, user_id, level, (now as usize) as int)
    }
}

/// The claims of a session for `user_id` with role `level` when the clock
/// reads `now` seconds since the Unix epoch (`now as usize`, as the clock's
/// value is taken): `None` exactly when the expiry would not fit in a `usize`.
pub fn claims_at(user_id: &str, level: &str, now: i64) -> (r: Option<Claims>)
    ensures
        is_claims_at(r, user_id@, level@, now),
{
    let issued_at = now as usize;
    if issued_at > usize::MAX - SESSION_LIFETIME_SECONDS {
        None
    } else {
        Some(new_claims(user_id, level, issued_at))
    }
}

/// The scheme word that opens an `Authorization` header carrying a token.
pub open spec fn bearer_prefix() -> Seq<char> {
    seq!['B', 'e', 'a', 'r', 'e', 'r', ' ']
}

/// The token carried by an `Authorization` header value: what follows `Bearer `.
pub open spec fn bearer_token_of(header: Seq<char>) -> Option<Seq<char>> {
    if bearer_prefix().is_prefix_of(header) {
        Some(header.skip(7))
    } else {
        None
    }
}

/// The session token of a request, from its `Authorization` header (`None` when
/// the header is missing or not visible ASCII). Anything but `Bearer <token>`
/// is refused with 401.
pub fn bearer_token(header: Option<&str>) -> (r: Result<String, HttpStatus>)
    ensures
        match header {
            Some(h) => match bearer_token_of(h@) {
                Some(t) => r matches Ok(token) && token@ == t,
                None => r == Err::<String, HttpStatus>(HttpStatus::Unauthorized),
            },
            None => r == Err::<String, HttpStatus>(HttpStatus::Unauthorized),
        },
        r matches Ok(token) ==> header matches Some(h) && h@ == seq!['B', 'e', 'a', 'r', 'e', 'r', ' ']
            + token@,
{
    match header {
        None => Err(HttpStatus::Unauthorized),
        Some(h) => {
            let c = chars_of(h);
            let prefix: Vec<char> = vec!['B', 'e', 'a', 'r', 'e', 'r', ' '];
            assert(prefix@ == bearer_prefix());
            if chars_start_with(c.as_slice(), prefix.as_slice()) {
                let rest = chars_from(c.as_slice(), 7);
            assert(h@ =~= bearer_prefix() + rest@);
                Ok(string_from_chars(rest.as_slice()))
            } else {
                Err(HttpStatus::Unauthorized)
            }
        },
    }
}

/// The claims of a request once its token was checked: the decoded claims, or
/// 401 whatever made the check fail.
pub fn claims_from_decoded<E>(decoded: Result<Claims, E>) -> (r: Result<Claims, HttpStatus>)
    ensures
        match decoded {
            Ok(c) => r == Ok::<Claims, HttpStatus>(c),
            Err(_) => r == Err::<Claims, HttpStatus>(HttpStatus::Unauthorized),
        },
{
    match decoded {
        Ok(c) => Ok(c),
        Err(_) => Err(HttpStatus::Unauthorized),
    }
}

/// A token sent as `Authorization: Bearer <token>` is read back unchanged.
pub proof fn bearer_header_round_trip(token: Seq<char>)
    ensures
        bearer_token_of(bearer_prefix() + token) == Some(token),
{
    let h = bearer_prefix() + token;
    assert(bearer_prefix() =~= h.subrange(0, 7));
    assert(h.skip(7) =~= token);
}

/// A header yields a token exactly when it is `Bearer ` followed by that token:
/// whatever does not begin with `Bearer ` yields none.
pub proof fn bearer_token_is_what_follows_the_scheme(header: Seq<char>, token: Seq<char>)
    ensures
        bearer_token_of(header) == Some(token) <==> header == seq!['B', 'e', 'a', 'r', 'e', 'r', ' ']
            + token,
        !seq!['B', 'e', 'a', 'r', 'e', 'r', ' '].is_prefix_of(header) ==> bearer_token_of(header)
            is None,
{
    let p = seq!['B', 'e', 'a', 'r', 'e', 'r', ' '];
    assert(p == bearer_prefix());
    if header == p + token {
        bearer_header_round_trip(token);
    }
    if bearer_token_of(header) == Some(token) {
        assert(header =~= p + header.skip(7));
    }
}

} // verus!
