use vstd::prelude::*;
use rand::Rng;
use rand::distributions::Alphanumeric;
use argon2::Argon2;
use argon2::password_hash::{PasswordHash, PasswordHasher, PasswordVerifier, SaltString};
use argon2::password_hash::rand_core::OsRng;
use vstd::string::StringSliceAdditionalSpecFns;

verus! {

/// Failed attempts from one address after which every request is refused.
pub const STRIKE_LIMIT: u64 = 10;

/// Seconds of delay per recorded strike before a refusal is answered.
pub const SECONDS_PER_STRIKE: u64 = 3;

/// Length of a session token.
pub const TOKEN_LENGTH: usize = 64;

/// The number of failed attempts recorded for an address, none counting as zero.
pub fn strike_count(stored: Option<u64>) -> (r: u64)
    ensures
        r == match stored {
            Some(n) => n,
            None => 0,
        },
{
    match stored {
        Some(n) => n,
        None => 0,
    }
}

/// A refusal: the strike count to store for the address and the seconds to
/// wait before answering.
#[derive(PartialEq, Eq, Structural, Clone, Copy, Debug)]
pub struct Penalty {
    pub strikes: u64,
    pub wait_seconds: u64,
}

pub open spec fn spec_penalty(strikes: u64) -> Penalty {
    Penalty { strikes: (strikes + 1) as u64, wait_seconds: ((strikes + 1) * 3) as u64 }
}

/// A count small enough for the penalty arithmetic.
pub open spec fn strikes_fit(strikes: u64) -> bool {
    strikes < u64::MAX / 3
}

/// Whether a stored count is small enough for [`penalty`]; callers check it
/// before any step.
pub fn strikes_in_range(strikes: u64) -> (r: bool)
    ensures
        r == strikes_fit(strikes),
{
    strikes < u64::MAX / 3
}

/// What a refused attempt costs: one more strike, and a delay of three
/// seconds per strike.
pub fn penalty(strikes: u64) -> (r: Penalty)
    requires
        strikes_fit(strikes),
    ensures
        r == spec_penalty(strikes),
{
    let n = strikes + 1;
    Penalty { strikes: n, wait_seconds: n * SECONDS_PER_STRIKE }
}

/// What happened so far while handling a login form.
#[derive(PartialEq, Eq, Structural, Clone, Copy, Debug)]
pub enum LoginEvent {
    /// the form arrived
    Arrived,
    /// no account has the given name
    UnknownUser,
    /// the password was checked against the stored hash
    PasswordChecked(bool),
}

/// What the login handler does next.
#[derive(PartialEq, Eq, Structural, Clone, Copy, Debug)]
pub enum LoginAction {
    /// look up the password hash of the named account
    LookUpHash,
    /// store the penalty, wait, answer "unauthorized"
    Refuse(Penalty),
    /// hand out the session token, clear the strikes, answer "accepted"
    Accept,
}

pub open spec fn spec_login_step(strikes: u64, event: LoginEvent) -> LoginAction {
    match event {
        LoginEvent::Arrived => if strikes >= STRIKE_LIMIT {
            LoginAction::Refuse(spec_penalty(strikes))
        } else {
            LoginAction::LookUpHash
        },
        LoginEvent::UnknownUser => LoginAction::Refuse(spec_penalty(strikes)),
        LoginEvent::PasswordChecked(ok) => if ok {
            LoginAction::Accept
        } else {
            LoginAction::Refuse(spec_penalty(strikes))
        },
    }
}

/// One decision of the login handler, from the strikes recorded for the
/// client's address and the latest event.
pub fn login_step(strikes: u64, event: LoginEvent) -> (r: LoginAction)
    requires
        strikes_fit(strikes),
    ensures
        r == spec_login_step(strikes, event),
{
    match event {
        LoginEvent::Arrived => if strikes >= STRIKE_LIMIT {
            LoginAction::Refuse(penalty(strikes))
        } else {
            LoginAction::LookUpHash
        },
        LoginEvent::UnknownUser => LoginAction::Refuse(penalty(strikes)),
        LoginEvent::PasswordChecked(ok) => if ok {
            LoginAction::Accept
        } else {
            LoginAction::Refuse(penalty(strikes))
        },
    }
}

/// What happened so far while recognising the user of a request.
#[derive(PartialEq, Eq, Structural, Clone, Copy, Debug)]
pub enum AuthEvent {
    /// the request arrived
    Arrived,
    /// no session token is stored for the user of the cookie
    TokenMissing,
    /// the cookie's token was compared with the stored one
    TokenCompared(bool),
}

/// What the user guard does next.
#[derive(PartialEq, Eq, Structural, Clone, Copy, Debug)]
pub enum AuthAction {
    /// read the session token stored for the user of the cookie
    FetchToken,
    /// store the penalty, wait, treat the request as anonymous
    Refuse(Penalty),
    /// renew the session; clear the strikes first when some are recorded
    Admit { clear_strikes: bool },
}

pub open spec fn spec_auth_step(strikes: u64, event: AuthEvent) -> AuthAction {
    match event {
        AuthEvent::Arrived => if strikes >= STRIKE_LIMIT {
            AuthAction::Refuse(spec_penalty(strikes))
        } else {
            AuthAction::FetchToken
        },
        AuthEvent::TokenMissing => AuthAction::Refuse(spec_penalty(strikes)),
        AuthEvent::TokenCompared(same) => if same {
            AuthAction::Admit { clear_strikes: strikes > 0 }
        } else {
            AuthAction::Refuse(spec_penalty(strikes))
        },
    }
}

/// One decision of the guard that recognises the user of a request.
pub fn auth_step(strikes: u64, event: AuthEvent) -> (r: AuthAction)
    requires
        strikes_fit(strikes),
    ensures
        r == spec_auth_step(strikes, event),
{
    match event {
        AuthEvent::Arrived => if strikes >= STRIKE_LIMIT {
            AuthAction::Refuse(penalty(strikes))
        } else {
            AuthAction::FetchToken
        },
        AuthEvent::TokenMissing => AuthAction::Refuse(penalty(strikes)),
        AuthEvent::TokenCompared(same) => if same {
            AuthAction::Admit { clear_strikes: strikes > 0 }
        } else {
            AuthAction::Refuse(penalty(strikes))
        },
    }
}

// ---------------------------------------------------------------------------
// session tokens

pub open spec fn is_ascii_alphanumeric(c: char) -> bool {
    ('a' <= c && c <= 'z') || ('A' <= c && c <= 'Z') || ('0' <= c && c <= '9')
}

pub open spec fn is_token(s: Seq<char>) -> bool {
    s.len() == TOKEN_LENGTH && forall|i: int| 0 <= i < s.len() ==> is_ascii_alphanumeric(
        #[trigger] s[i],
    )
}

/// One character drawn by `rand`'s thread-local generator from the
/// `Alphanumeric` distribution, which the crate documents as uniform over
/// `a-z`, `A-Z` and `0-9`. Which one comes out is left open.
#[verifier::external_body]
fn random_alphanumeric() -> (c: char)
    ensures
        is_ascii_alphanumeric(c),
{
    char::from(rand::thread_rng().sample(Alphanumeric))
}

/// `String::push`, documented as appending one character.
#[verifier::external_body]
fn push_char(s: &mut String, c: char)
    ensures
        final(s)@ == old(s)@.push(c),
{
    s.push(c)
}

/// A new random session token: 64 ASCII letters and digits.
pub fn fresh_token() -> (r: String)
    ensures
        is_token(r@),
{
    let mut s = String::new();
    let mut i: usize = 0;
    while i < TOKEN_LENGTH
        invariant
            i <= TOKEN_LENGTH,
            s@.len() == i,
            forall|j: int| 0 <= j < s@.len() ==> is_ascii_alphanumeric(#[trigger] s@[j]),
        decreases TOKEN_LENGTH - i,
    {
        let c = random_alphanumeric();
        push_char(&mut s, c);
        i = i + 1;
    }
    s
}

/// The token of a successful login: the user's running session keeps its
/// token, otherwise a fresh one is drawn.
pub fn session_token(existing: Option<String>) -> (r: String)
    ensures
        match existing {
            Some(t) => r == t,
            None => is_token(r@),
        },
{
    match existing {
        Some(t) => t,
        None => fresh_token(),
    }
}

// ---------------------------------------------------------------------------
// passwords

/// What `argon2` answers when `password` is checked against the PHC string
/// `phc`: `None` when `phc` is not a valid PHC hash, else whether the
/// password matches it. A function of the two texts alone.
pub uninterp spec fn argon2_verdict(password: Seq<char>, phc: Seq<char>) -> Option<bool>;

/// `PasswordHash::new` on `phc`, then `Argon2::default().verify_password`.
#[verifier::external_body]
fn argon2_check(password: &str, phc: &str) -> (r: Option<bool>)
    ensures
        r == argon2_verdict(password@, phc@),
{
    match PasswordHash::new(phc) {
        Ok(hash) => Some(Argon2::default().verify_password(password.as_bytes(), &hash).is_ok()),
        Err(_) => None,
    }
}

/// A stored password hash that is not a PHC string.
#[derive(PartialEq, Eq, Structural, Clone, Copy, Debug)]
pub struct MalformedHash;

pub open spec fn spec_login_with_hash(strikes: u64, password: Seq<char>, phc: Seq<char>) -> Result<
    LoginAction,
    MalformedHash,
> {
    match argon2_verdict(password, phc) {
        Some(ok) => Ok(spec_login_step(strikes, LoginEvent::PasswordChecked(ok))),
        None => Err(MalformedHash),
    }
}

/// The login decision once the account's stored hash is known: the password
/// is checked with `argon2` and the outcome decides the step.
pub fn login_with_hash(strikes: u64, password: &str, phc: &str) -> (r: Result<LoginAction, MalformedHash>)
    requires
        strikes_fit(strikes),
    ensures
        r == spec_login_with_hash(strikes, password@, phc@),
{
    match argon2_check(password, phc) {
        Some(ok) => Ok(login_step(strikes, LoginEvent::PasswordChecked(ok))),
        None => Err(MalformedHash),
    }
}

/// The prefix of the PHC strings of Argon2id, version 19.
pub open spec fn argon2id_prefix() -> Seq<char> {
    "$argon2id$v=19$"@
}

/// The longest password, in UTF-8 bytes, that argon2 hashes.
pub const MAX_PASSWORD_BYTES: u64 = 0xFFFF_FFFF;

/// A PHC string of `password` under a fresh random salt, by
/// `Argon2::default().hash_password`; `None` where argon2 refuses. With the
/// default parameters and a generated 16-byte salt, the crate's source
/// refuses only a password longer than `MAX_PWD_LEN` (`0xFFFF_FFFF`) bytes.
/// The crate documents the string as `$argon2id$v=19$...` and shows that
/// checking the same password against it succeeds; the salt, and so the
/// rest of the text, differ from call to call and are not stated.
#[verifier::external_body]
fn argon2_hash(password: &str) -> (r: Option<String>)
    ensures
        r is Some <==> password.spec_bytes().len() <= MAX_PASSWORD_BYTES,
        r matches Some(h) ==> argon2_verdict(password@, h@) == Some(true) && argon2id_prefix().is_prefix_of(h@),
{
    let salt = SaltString::generate(&mut OsRng);
    match Argon2::default().hash_password(password.as_bytes(), &salt) {
        Ok(h) => Some(h.to_string()),
        Err(_) => None,
    }
}

/// Hashing a new password failed.
#[derive(PartialEq, Eq, Structural, Clone, Copy, Debug)]
pub struct HashingFailed;

/// The hash to store for a new password: the password passes the check
/// against it. Hashing fails only for a password longer than
/// [`MAX_PASSWORD_BYTES`] bytes.
pub fn password_hash_for(password: &str) -> (r: Result<String, HashingFailed>)
    ensures
        r is Ok <==> password.spec_bytes().len() <= MAX_PASSWORD_BYTES,
        r matches Ok(h) ==> argon2_verdict(password@, h@) == Some(true) && argon2id_prefix().is_prefix_of(h@),
{
    match argon2_hash(password) {
        Some(h) => Ok(h),
        None => Err(HashingFailed),
    }
}

// ---------------------------------------------------------------------------
// laws

/// A password is accepted at login against the hash stored when it was set
/// (which [`password_hash_for`] guarantees of the hashes it returns), and a
/// wrong password is refused with one more strike.
pub proof fn stored_password_logs_in(strikes: u64, password: Seq<char>, phc: Seq<char>)
    requires
        strikes_fit(strikes),
    ensures
        argon2_verdict(password, phc) == Some(true) ==> spec_login_with_hash(strikes, password, phc)
            == Ok::<LoginAction, MalformedHash>(LoginAction::Accept),
        argon2_verdict(password, phc) == Some(false) ==> spec_login_with_hash(strikes, password, phc)
            == Ok::<LoginAction, MalformedHash>(LoginAction::Refuse(spec_penalty(strikes))),
{
}

/// Once an address has ten strikes every login attempt and every request
/// from it is refused, and the count keeps growing by one.
pub proof fn blocked_stays_blocked(strikes: u64)
    requires
        strikes >= STRIKE_LIMIT,
        strikes_fit(strikes),
    ensures
        spec_login_step(strikes, LoginEvent::Arrived) == LoginAction::Refuse(spec_penalty(strikes)),
        spec_auth_step(strikes, AuthEvent::Arrived) == AuthAction::Refuse(spec_penalty(strikes)),
        spec_penalty(strikes).strikes == strikes + 1,
        spec_penalty(strikes).strikes >= STRIKE_LIMIT,
{
}

/// Every refusal records exactly one more strike and waits three seconds per
/// strike; only a success clears them.
pub proof fn refusals_count_strikes(strikes: u64, event: LoginEvent)
    requires
        strikes_fit(strikes),
    ensures
        spec_login_step(strikes, event) matches LoginAction::Refuse(p) ==> p.strikes == strikes + 1
            && p.wait_seconds == 3 * p.strikes,
        spec_login_step(strikes, event) is Accept ==> event == LoginEvent::PasswordChecked(true),
        strikes < STRIKE_LIMIT ==> spec_login_step(strikes, LoginEvent::PasswordChecked(true))
            is Accept,
{
}

/// A request whose token matches is admitted, and the strikes are cleared
/// exactly when some are recorded.
pub proof fn matching_token_admits(strikes: u64)
    requires
        strikes_fit(strikes),
    ensures
        spec_auth_step(strikes, AuthEvent::TokenCompared(true)) == (AuthAction::Admit {
            clear_strikes: strikes > 0,
        }),
        spec_auth_step(strikes, AuthEvent::TokenCompared(false)) == AuthAction::Refuse(
            spec_penalty(strikes),
        ),
{
}

} // verus!
