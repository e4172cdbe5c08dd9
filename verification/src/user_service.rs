//! User registration, login and lookup over the store's user table.

use vstd::prelude::*;
use crate::auth::{hash_password, password_matches, verify_password};
use crate::error::{AppError, AppResult};
use crate::store::{Store, find_user_by_id, find_user_by_username};
use crate::user::{CreateUserRequest, LoginRequest, User, UserResponse};

verus! {

impl Store {
    /// Register a user: reject an already-used username with `Validation`,
    /// hash the password, and insert the row. Only the username is checked
    /// for uniqueness.
    pub fn create_user(&mut self, req: &CreateUserRequest, now: i64) -> (r: AppResult<
        UserResponse,
    >)
        requires
            old(self).wf(),
            old(self).next_user_id < u64::MAX,
        ensures
            final(self).wf(),
            find_user_by_username(old(self).users@, req.username@) is Some ==> r == Err::<
                UserResponse,
                AppError,
            >(AppError::Validation) && *final(self) == *old(self),
            find_user_by_username(old(self).users@, req.username@) is None ==> match r {
                Ok(u) => {
                    &&& final(self).users@.len() == old(self).users@.len() + 1
                    &&& final(self).users@.drop_last() == old(self).users@
                    &&& {
                        let nu = final(self).users@.last();
                        &&& nu.id == old(self).next_user_id
                        &&& nu.username == req.username
                        &&& nu.nickname == req.nickname
                        &&& nu.email == req.email
                        &&& nu.created_at == now
                        &&& nu.updated_at == now
                    }
                    &&& u == (UserResponse {
                        id: old(self).next_user_id,
                        username: req.username,
                        nickname: req.nickname,
                        email: req.email,
                    })
                    &&& final(self).next_user_id == old(self).next_user_id + 1
                    &&& final(self).questionnaires@ == old(self).questionnaires@
                    &&& final(self).questions@ == old(self).questions@
                    &&& final(self).question_options@ == old(self).question_options@
                    &&& final(self).questionnaire_responses@ == old(self).questionnaire_responses@
                    &&& final(self).question_responses@ == old(self).question_responses@
                    &&& final(self).text_responses@ == old(self).text_responses@
                    &&& final(self).option_responses@ == old(self).option_responses@
                    &&& final(self).next_questionnaire_id == old(self).next_questionnaire_id
                    &&& final(self).next_question_id == old(self).next_question_id
                    &&& final(self).next_option_id == old(self).next_option_id
                    &&& final(self).next_response_id == old(self).next_response_id
                    &&& final(self).next_answer_id == old(self).next_answer_id
                    &&& final(self).next_text_id == old(self).next_text_id
                    &&& final(self).next_option_answer_id == old(self).next_option_answer_id
                },
                Err(e) => e == AppError::Internal && *final(self) == *old(self),
            },
    {
        if self.user_by_username(&req.username).is_some() {
            return Err(AppError::Validation);
        }
        let hash = match hash_password(req.password.as_str()) {
            Ok(h) => h,
            Err(e) => {
                return Err(e);
            },
        };
        let id = self.next_user_id;
        self.next_user_id = id + 1;
        let email = match &req.email {
            Some(e) => Some(e.clone()),
            None => None,
        };
        self.users.push(
            User {
                id,
                username: req.username.clone(),
                nickname: req.nickname.clone(),
                password_hash: hash,
                email,
                created_at: now,
                updated_at: now,
            },
        );
        proof {
            assert(self.users@.drop_last() =~= old(self).users@);
            assert forall|i: int, j: int|
                #![trigger self.users@[i], self.users@[j]]
                0 <= i < j < self.users@.len() implies self.users@[i].id
                != self.users@[j].id by {
                if j < old(self).users@.len() {
                    assert(self.users@[i] == old(self).users@[i]);
                    assert(self.users@[j] == old(self).users@[j]);
                } else {
                    assert(self.users@[i] == old(self).users@[i]);
                }
            }
        }
        Ok(
            UserResponse {
                id,
                username: req.username.clone(),
                nickname: req.nickname.clone(),
                email: match &req.email {
                    Some(e) => Some(e.clone()),
                    None => None,
                },
            },
        )
    }

    /// Authenticate a login attempt. An unknown username and a wrong
    /// password both surface as the same `Auth` error; a successful login
    /// returns the user for the caller to mint a token for.
    pub fn login(&self, req: &LoginRequest) -> (r: AppResult<UserResponse>)
        ensures
            match find_user_by_username(self.users@, req.username@) {
                None => r == Err::<UserResponse, AppError>(AppError::Auth),
                Some(u) => match r {
                    Ok(resp) => password_matches(req.password@, u.password_hash@) && resp == (
                    UserResponse {
                        id: u.id,
                        username: u.username,
                        nickname: u.nickname,
                        email: u.email,
                    }),
                    Err(e) => (e == AppError::Auth && !password_matches(
                        req.password@,
                        u.password_hash@,
                    )) || e == AppError::Internal,
                },
            },
    {
        let user = match self.user_by_username(&req.username) {
            None => {
                return Err(AppError::Auth);
            },
            Some(u) => u,
        };
        let ok = match verify_password(req.password.as_str(), user.password_hash.as_str()) {
            Ok(b) => b,
            Err(e) => {
                return Err(e);
            },
        };
        if !ok {
            return Err(AppError::Auth);
        }
        Ok(UserResponse::from(user))
    }

    /// Read one user row by id.
    pub fn get_user_by_id(&self, user_id: u64) -> (r: AppResult<User>)
        ensures
            match find_user_by_id(self.users@, user_id) {
                Some(u) => r == Ok::<User, AppError>(u),
                None => r == Err::<User, AppError>(AppError::NotFound),
            },
    {
        match self.user_by_id(user_id) {
            Some(u) => Ok(u),
            None => Err(AppError::NotFound),
        }
    }

    /// Read one user by id, as shown to callers.
    pub fn get_user_response_by_id(&self, user_id: u64) -> (r: AppResult<UserResponse>)
        ensures
            match find_user_by_id(self.users@, user_id) {
                Some(u) => r == Ok::<UserResponse, AppError>(
                    UserResponse {
                        id: u.id,
                        username: u.username,
                        nickname: u.nickname,
                        email: u.email,
                    },
                ),
                None => r == Err::<UserResponse, AppError>(AppError::NotFound),
            },
    {
        match self.get_user_by_id(user_id) {
            Ok(u) => Ok(UserResponse::from(u)),
            Err(e) => Err(e),
        }
    }
}

} // verus!
