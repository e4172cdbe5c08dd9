//! Users: the stored user row, the registration and login request shapes,
//! and their field constraints.

use vstd::prelude::*;
use vstd::string::StrSliceExecFns;
use crate::error::AppError;

verus! {

/// A stored user row.
#[derive(Debug)]
pub struct User {
    pub id: u64,
    pub username: String,
    pub nickname: String,
    pub password_hash: String,
    pub email: Option<String>,
    pub created_at: i64,
    pub updated_at: i64,
}

impl Clone for User {
    fn clone(&self) -> (r: Self)
        ensures
            r == *self,
    {
        User {
            id: self.id,
            username: self.username.clone(),
            nickname: self.nickname.clone(),
            password_hash: self.password_hash.clone(),
            email: match &self.email {
                Some(e) => Some(e.clone()),
                None => None,
            },
            created_at: self.created_at,
            updated_at: self.updated_at,
        }
    }
}

/// Whether a string is an acceptable email address.
pub uninterp spec fn email_ok(s: Seq<char>) -> bool;

/// Relies on validator's `ValidateEmail` impl for `&str`: an HTML5-style
/// email-address check, a function of the characters alone.
#[verifier::external_body]
fn is_valid_email(s: &str) -> (r: bool)
    ensures
        r == email_ok(s@),
{
    validator::ValidateEmail::validate_email(&s)
}

/// A registration request.
#[derive(Debug)]
pub struct CreateUserRequest {
    pub username: String,
    pub nickname: String,
    pub password: String,
    pub email: Option<String>,
}

impl CreateUserRequest {
    /// The field constraints of a registration: username of 3 to 20
    /// characters, non-empty nickname of at most 50, password of at least 6,
    /// and, where an email is given, an acceptable address.
    pub open spec fn valid(self) -> bool {
        &&& 3 <= self.username@.len() <= 20
        &&& 1 <= self.nickname@.len() <= 50
        &&& self.password@.len() >= 6
        &&& match self.email {
            Some(e) => email_ok(e@),
            None => true,
        }
    }

    pub fn validate(&self) -> (r: Result<(), AppError>)
        ensures
            r == if self.valid() {
                Ok::<(), AppError>(())
            } else {
                Err::<(), AppError>(AppError::Validation)
            },
    {
        let username_len = self.username.as_str().unicode_len();
        let nickname_len = self.nickname.as_str().unicode_len();
        let password_len = self.password.as_str().unicode_len();
        let email_acceptable = match &self.email {
            Some(e) => is_valid_email(e.as_str()),
            None => true,
        };
        if 3 <= username_len && username_len <= 20 && 1 <= nickname_len && nickname_len <= 50
            && password_len >= 6 && email_acceptable {
            Ok(())
        } else {
            Err(AppError::Validation)
        }
    }
}

/// A login request.
#[derive(Debug)]
pub struct LoginRequest {
    pub username: String,
    pub password: String,
}

impl LoginRequest {
    /// The field constraints of a login attempt.
    pub open spec fn valid(self) -> bool {
        3 <= self.username@.len() <= 20 && self.password@.len() >= 6
    }

    pub fn validate(&self) -> (r: Result<(), AppError>)
        ensures
            r == if self.valid() {
                Ok::<(), AppError>(())
            } else {
                Err::<(), AppError>(AppError::Validation)
            },
    {
        let username_len = self.username.as_str().unicode_len();
        let password_len = self.password.as_str().unicode_len();
        if 3 <= username_len && username_len <= 20 && password_len >= 6 {
            Ok(())
        } else {
            Err(AppError::Validation)
        }
    }
}

/// A user as shown to callers: everything but the password hash.
#[derive(Debug)]
pub struct UserResponse {
    pub id: u64,
    pub username: String,
    pub nickname: String,
    pub email: Option<String>,
}

impl vstd::std_specs::convert::FromSpecImpl<User> for UserResponse {
    open spec fn obeys_from_spec() -> bool {
        true
    }

    open spec fn from_spec(user: User) -> Self {
        UserResponse { id: user.id, username: user.username, nickname: user.nickname, email: user.email }
    }
}

impl From<User> for UserResponse {
    fn from(user: User) -> (r: Self) {
        UserResponse {
            id: user.id,
            username: user.username,
            nickname: user.nickname,
            email: user.email,
        }
    }
}

/// A successful login: the minted token with the user it names.
#[derive(Debug)]
pub struct AuthResponse {
    pub token: String,
    pub user: UserResponse,
}

/// The claims carried by an authentication token: the subject user id, and
/// expiry and issue times as seconds since the epoch.
#[derive(Debug)]
pub struct Claims {
    pub sub: String,
    pub exp: usize,
    pub iat: usize,
}

/// The identity of an authenticated caller, as handed in by the
/// authentication layer.
#[derive(Debug)]
pub struct CurrentUser(pub u64);

} // verus!
