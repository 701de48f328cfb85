//! Administrator sign-in: the decisions around the bearer token and the
//! password check. Signing and checking the token itself is the work of
//! the caller; comparing a password with its hash is done by `bcrypt`.

use crate::error::{AppError, Failure};
use crate::models::{Admin, AdminResponse, LoginResponse};
use crate::text::{parse_unsigned, strip_prefix, unsigned_value};
use vstd::prelude::*;
use vstd::string::*;

verus! {

/// What a token says: the administrator's e-mail address and identifier,
/// and the time, in seconds since the Unix epoch, at which the token
/// expires.
#[derive(Debug, Clone, PartialEq, Eq)]
pub struct Claims {
    pub sub: String,
    pub admin_id: i32,
    pub exp: u64,
}

/// The number of hours a token is valid for when nothing else is
/// configured.
pub const DEFAULT_EXPIRY_HOURS: u64 = 24u64;

/// The token carried by an authorization header: what follows the word
/// `Bearer` and one space. A missing header and a header of another form
/// are rejected, each with its own message.
pub open spec fn token_in(header: Option<Seq<char>>) -> Result<Seq<char>, Failure> {
    match header {
        None => Err(Failure::Unauthorized("Missing authorization header"@)),
        Some(h) => if "Bearer "@.is_prefix_of(h) {
            Ok(h.skip("Bearer "@.len() as int))
        } else {
            Err(Failure::Unauthorized("Invalid authorization format"@))
        },
    }
}

/// The characters of an optional text slice.
pub open spec fn opt_str(text: Option<&str>) -> Option<Seq<char>> {
    match text {
        Some(t) => Some(t@),
        None => None,
    }
}

/// Takes the token out of an authorization header.
pub fn bearer_token(header: Option<&str>) -> (r: Result<String, AppError>)
    ensures
        r is Ok <==> token_in(opt_str(header)) is Ok,
        r matches Ok(token) ==> token_in(opt_str(header)) == Ok::<Seq<char>, Failure>(token@),
        r matches Err(e) ==> token_in(opt_str(header)) == Err::<Seq<char>, Failure>(e@),
{
    match header {
        None => Err(AppError::Unauthorized("Missing authorization header".to_owned())),
        Some(h) => match strip_prefix(h, "Bearer ") {
            Some(token) => Ok(token.to_owned()),
            None => Err(AppError::Unauthorized("Invalid authorization format".to_owned())),
        },
    }
}

/// The secret that tokens are signed with, or the failure to report when
/// none is configured.
pub fn jwt_secret(configured: Option<String>) -> (r: Result<String, AppError>)
    ensures
        configured matches Some(secret) ==> r == Ok::<String, AppError>(secret),
        configured is None ==> r is Err && r->Err_0@ == Failure::InternalServerError(
            "JWT_SECRET not configured"@,
        ),
{
    match configured {
        Some(secret) => Ok(secret),
        None => Err(AppError::InternalServerError("JWT_SECRET not configured".to_owned())),
    }
}

/// The number of hours a token is valid for: the configured number if it
/// is one, and 24 if nothing is configured or the text is no number.
pub open spec fn configured_hours(configured: Option<Seq<char>>) -> int {
    match configured {
        Some(text) => match unsigned_value(text, u64::MAX as int) {
            Some(hours) => hours,
            None => DEFAULT_EXPIRY_HOURS as int,
        },
        None => DEFAULT_EXPIRY_HOURS as int,
    }
}

/// Reads the configured number of hours a token is valid for.
pub fn expiry_hours(configured: Option<&str>) -> (hours: u64)
    ensures
        hours == configured_hours(opt_str(configured)),
{
    match configured {
        Some(text) => match parse_unsigned(text, u64::MAX) {
            Some(hours) => hours,
            None => DEFAULT_EXPIRY_HOURS,
        },
        None => DEFAULT_EXPIRY_HOURS,
    }
}

/// The time at which a token issued at `now` expires.
pub open spec fn expiry(now: int, hours: int) -> int {
    now + hours * 3600
}

/// The failure reported when no token can be made.
pub open spec fn token_failure() -> Failure {
    Failure::InternalServerError("Failed to create token"@)
}

/// The claims of a token issued to an administrator at `now` (seconds
/// since the Unix epoch) and valid for `hours` hours. An expiry beyond
/// the largest time fails.
pub fn issue_claims(admin_id: i32, email: &str, now: u64, hours: u64) -> (r: Result<Claims, AppError>)
    ensures
        r is Ok <==> expiry(now as int, hours as int) <= u64::MAX,
        r matches Ok(claims) ==> claims.sub@ == email@ && claims.admin_id == admin_id && claims.exp
            == expiry(now as int, hours as int),
        r matches Err(e) ==> e@ == token_failure(),
{
    let exp = match hours.checked_mul(3600) {
        Some(seconds) => now.checked_add(seconds),
        None => None,
    };
    match exp {
        Some(exp) => Ok(Claims { sub: email.to_owned(), admin_id, exp }),
        None => {
            assert(expiry(now as int, hours as int) > u64::MAX) by (nonlinear_arith)
                requires
                    hours * 3600 > u64::MAX || now + hours * 3600 > u64::MAX,
                    now >= 0,
            ;
            Err(AppError::InternalServerError("Failed to create token".to_owned()))
        },
    }
}

/// The signed token, or the failure to report when signing failed.
pub fn signed_token(signed: Option<String>) -> (r: Result<String, AppError>)
    ensures
        signed matches Some(token) ==> r == Ok::<String, AppError>(token),
        signed is None ==> r is Err && r->Err_0@ == token_failure(),
{
    match signed {
        Some(token) => Ok(token),
        None => Err(AppError::InternalServerError("Failed to create token".to_owned())),
    }
}

/// The claims of a token that was checked, or the rejection of a token
/// that is invalid or has expired.
pub fn checked_claims(checked: Option<Claims>) -> (r: Result<Claims, AppError>)
    ensures
        checked matches Some(claims) ==> r == Ok::<Claims, AppError>(claims),
        checked is None ==> r is Err && r->Err_0@ == Failure::Unauthorized("Invalid or expired token"@),
{
    match checked {
        Some(claims) => Ok(claims),
        None => Err(AppError::Unauthorized("Invalid or expired token".to_owned())),
    }
}

/// An error of the `bcrypt` crate.
#[verifier::external_type_specification]
#[verifier::external_body]
pub struct ExBcryptError(bcrypt::BcryptError);

/// Whether `bcrypt` finds that a password belongs to a hash; `None` if it
/// cannot tell, because the hash is malformed.
pub uninterp spec fn bcrypt_verdict(password: Seq<char>, hash: Seq<char>) -> Option<bool>;

/// Trusted: `bcrypt::verify`. The contract gives its outcome a name: for
/// one password and one hash, the outcome is always the same.
#[verifier::external_body]
fn bcrypt_verify(password: &str, hash: &str) -> (r: Result<bool, bcrypt::BcryptError>)
    ensures
        r matches Ok(matches) ==> bcrypt_verdict(password@, hash@) == Some(matches),
        r is Err ==> bcrypt_verdict(password@, hash@) is None,
{
    bcrypt::verify(password, hash)
}

/// Mathematical content of an [`Admin`].
pub struct Account {
    pub id: int,
    pub email: Seq<char>,
    pub password_hash: Seq<char>,
    pub created_at: int,
}

impl View for Admin {
    type V = Account;

    open spec fn view(&self) -> Account {
        Account {
            id: self.id as int,
            email: self.email@,
            password_hash: self.password_hash@,
            created_at: self.created_at as int,
        }
    }
}

/// The rejection of a sign-in with an unknown e-mail address or a wrong
/// password. Both are answered alike.
pub open spec fn credentials_rejection() -> Failure {
    Failure::Unauthorized("Invalid credentials"@)
}

/// The decision on a sign-in, given the account found for the e-mail
/// address (if any) and the outcome of the password check: the account
/// signs in only if it exists and the password belongs to its hash.
pub open spec fn sign_in(account: Option<Account>, verdict: Option<bool>) -> Result<Account, Failure> {
    match account {
        None => Err(credentials_rejection()),
        Some(a) => match verdict {
            None => Err(Failure::InternalServerError("Authentication error"@)),
            Some(false) => Err(credentials_rejection()),
            Some(true) => Ok(a),
        },
    }
}

/// The mathematical content of an optional account.
pub open spec fn opt_account(admin: Option<Admin>) -> Option<Account> {
    match admin {
        Some(a) => Some(a@),
        None => None,
    }
}

/// The mathematical content of the outcome of a sign-in.
pub open spec fn sign_in_outcome(r: Result<Admin, AppError>) -> Result<Account, Failure> {
    match r {
        Ok(a) => Ok(a@),
        Err(e) => Err(e@),
    }
}

/// Decides a sign-in from the account found for the e-mail address and
/// the outcome of the password check.
pub fn decide_sign_in(admin: Option<Admin>, verdict: Option<bool>) -> (r: Result<Admin, AppError>)
    ensures
        sign_in_outcome(r) == sign_in(opt_account(admin), verdict),
{
    match admin {
        None => Err(AppError::Unauthorized("Invalid credentials".to_owned())),
        Some(a) => match verdict {
            None => Err(AppError::InternalServerError("Authentication error".to_owned())),
            Some(false) => Err(AppError::Unauthorized("Invalid credentials".to_owned())),
            Some(true) => Ok(a),
        },
    }
}

/// Checks a password against the account found for the e-mail address.
pub fn check_credentials(admin: Option<Admin>, password: &str) -> (r: Result<Admin, AppError>)
    ensures
        sign_in_outcome(r) == sign_in(
            opt_account(admin),
            match admin {
                Some(a) => bcrypt_verdict(password@, a.password_hash@),
                None => None,
            },
        ),
{
    let verdict = match &admin {
        Some(a) => match bcrypt_verify(password, a.password_hash.as_str()) {
            Ok(matches) => Some(matches),
            Err(_) => None,
        },
        None => None,
    };
    decide_sign_in(admin, verdict)
}

/// The answer to a successful sign-in: the token, and the administrator
/// without the password hash.
pub fn login_response(token: String, admin: Admin) -> (response: LoginResponse)
    ensures
        response.token == token,
        response.admin.id == admin.id,
        response.admin.email == admin.email,
{
    LoginResponse { token, admin: AdminResponse { id: admin.id, email: admin.email } }
}

} // verus!
