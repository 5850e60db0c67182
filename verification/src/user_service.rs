use crate::domain::{User, UserCreate, UserLogin, UserQuery};
use crate::middleware::{token_key, token_key_of};
use crate::password_utils::{argon2_accepts, hash_password, verify_password};
use crate::text::{i64_text, random_id, signed_decimal};
use vstd::prelude::*;
use vstd::string::*;

verus! {

/// Why a request about users fails.
#[derive(Debug, Clone, Copy, PartialEq, Eq, Structural)]
pub enum UserError {
    /// The user name is taken.
    UserExists,
    /// The user store or the password hashing failed.
    ServerError,
    /// The user is not known or the password is wrong.
    BadCredentials,
    /// The login token could not be stored.
    TokenStore,
}

/// What looking a user up by name came to.
#[derive(Debug, PartialEq, Eq)]
pub enum UserLookup {
    Found(User),
    NotFound,
    Failed,
}

/// A login that was granted: the token for the client, and what the token
/// store is to hold for it, under which key and for how many seconds.
#[derive(Debug, PartialEq, Eq)]
pub struct LoginGrant {
    pub token: String,
    pub token_key: String,
    pub user_id: String,
    pub seconds: u64,
}

/// What a client is told about a failure.
pub fn user_error_message(why: UserError) -> (message: String)
    ensures
        message@ == (match why {
            UserError::UserExists => "用户已存在"@,
            UserError::ServerError => "服务器异常"@,
            UserError::BadCredentials => "账号或密码错误"@,
            UserError::TokenStore => "Token存储失败"@,
        }),
{
    match why {
        UserError::UserExists => String::from_str("用户已存在"),
        UserError::ServerError => String::from_str("服务器异常"),
        UserError::BadCredentials => String::from_str("账号或密码错误"),
        UserError::TokenStore => String::from_str("Token存储失败"),
    }
}

impl UserQuery {
    /// The number of users that stand before the page asked for:
    /// `(page - 1) * page_size`, where neither step leaves the type.
    pub fn offset(&self) -> (skipped: Option<i64>)
        ensures
            skipped.is_some() == (i64::MIN <= self.page - 1 && i64::MIN <= (self.page - 1)
                * self.page_size <= i64::MAX),
            skipped.is_some() ==> skipped.unwrap() == (self.page - 1) * self.page_size,
    {
        match self.page.checked_sub(1) {
            Some(before) => before.checked_mul(self.page_size),
            None => None,
        }
    }
}

/// Why a user cannot be created, if not: the store has to have counted the
/// users of that name, and found none.
pub open spec fn new_user_failure(count: Option<u64>) -> Option<UserError> {
    match count {
        Some(n) => if n > 0 {
            Some(UserError::UserExists)
        } else {
            None
        },
        None => Some(UserError::ServerError),
    }
}

/// The user to be stored, given the hash of its password; no hash, no
/// user.
pub fn with_hashed_password(user: UserCreate, hashed: Option<String>) -> (stored: Result<
    UserCreate,
    UserError,
>)
    ensures
        match hashed {
            Some(h) => stored matches Ok(u) && u.password == h && u.username == user.username
                && u.nickname == user.nickname && u.email == user.email && u.phone == user.phone,
            None => stored == Err::<UserCreate, UserError>(UserError::ServerError),
        },
{
    match hashed {
        Some(h) => Ok(
            UserCreate {
                username: user.username,
                password: h,
                nickname: user.nickname,
                email: user.email,
                phone: user.phone,
            },
        ),
        None => Err(UserError::ServerError),
    }
}

/// Prepares a user for being stored. `count` is the number of users that
/// the store holds under the user's name, `None` where it could not tell.
/// The password is replaced by a hash that Argon2 accepts it for.
pub fn create_user(count: Option<u64>, user: UserCreate) -> (stored: Result<UserCreate, UserError>)
    ensures
        match new_user_failure(count) {
            Some(why) => stored == Err::<UserCreate, UserError>(why),
            None => match stored {
                Ok(u) => argon2_accepts(u.password@, user.password@) && u.username
                    == user.username && u.nickname == user.nickname && u.email == user.email
                    && u.phone == user.phone,
                Err(why) => why == UserError::ServerError,
            },
        },
{
    match count {
        Some(n) => {
            if n > 0 {
                return Err(UserError::UserExists);
            }
        },
        None => {
            return Err(UserError::ServerError);
        },
    }
    let hashed = match hash_password(user.password.as_str()) {
        Ok(h) => Some(h),
        Err(_) => None,
    };
    with_hashed_password(user, hashed)
}

/// Why a login is refused, if it is, given what the lookup of the user came
/// to and whether the password was accepted for the user found.
pub open spec fn login_failure(found: UserLookup, accepted: bool) -> Option<UserError> {
    match found {
        UserLookup::Found(_) => if accepted {
            None
        } else {
            Some(UserError::BadCredentials)
        },
        UserLookup::NotFound => Some(UserError::BadCredentials),
        UserLookup::Failed => Some(UserError::ServerError),
    }
}

/// `grant` lets the user with identifier `id` in under `token` for
/// `seconds` seconds.
pub open spec fn grants(grant: LoginGrant, id: i64, token: Seq<char>, seconds: u64) -> bool {
    &&& grant.token@ == token
    &&& grant.token_key@ == token_key_of(token)
    &&& grant.user_id@ == signed_decimal(id as int)
    &&& grant.seconds == seconds
}

/// Decides on a login, given what the lookup of the user came to, whether
/// the password was accepted for the user found, and the token to hand out.
pub fn grant_login(found: &UserLookup, accepted: bool, token: String, token_ex: u64) -> (granted:
    Result<LoginGrant, UserError>)
    ensures
        match login_failure(*found, accepted) {
            Some(why) => granted == Err::<LoginGrant, UserError>(why),
            None => granted matches Ok(grant) && found matches UserLookup::Found(user) && grants(
                grant,
                user.id,
                token@,
                token_ex,
            ),
        },
{
    match found {
        UserLookup::Found(user) => {
            if accepted {
                let token_key = token_key(&token);
                Ok(LoginGrant { token, token_key, user_id: i64_text(user.id), seconds: token_ex })
            } else {
                Err(UserError::BadCredentials)
            }
        },
        UserLookup::NotFound => Err(UserError::BadCredentials),
        UserLookup::Failed => Err(UserError::ServerError),
    }
}

/// Decides on a login: the user has to be known, and Argon2 has to accept
/// the password for the hash that is stored for the user. A login that is
/// granted gets a fresh token.
pub fn login(found: &UserLookup, user_login: &UserLogin, token_ex: u64) -> (granted: Result<
    LoginGrant,
    UserError,
>)
    ensures
        match *found {
            UserLookup::Found(user) => if argon2_accepts(user.password@, user_login.password@) {
                granted matches Ok(grant) && grants(grant, user.id, grant.token@, token_ex)
                    && grant.token@.len() == 72
            } else {
                granted == Err::<LoginGrant, UserError>(UserError::BadCredentials)
            },
            UserLookup::NotFound => granted == Err::<LoginGrant, UserError>(
                UserError::BadCredentials,
            ),
            UserLookup::Failed => granted == Err::<LoginGrant, UserError>(UserError::ServerError),
        },
{
    let accepted = match found {
        UserLookup::Found(user) => verify_password(
            user.password.as_str(),
            user_login.password.as_str(),
        ),
        _ => false,
    };
    let mut token = random_id();
    token.append(random_id().as_str());
    grant_login(found, accepted, token, token_ex)
}

/// The answer to a login that was granted, once the token store was asked
/// to hold the token: the token, if the store holds it.
pub fn login_stored(grant: LoginGrant, stored: bool) -> (answer: Result<String, UserError>)
    ensures
        answer == (if stored {
            Ok::<String, UserError>(grant.token)
        } else {
            Err::<String, UserError>(UserError::TokenStore)
        }),
{
    if stored {
        Ok(grant.token)
    } else {
        Err(UserError::TokenStore)
    }
}

} // verus!
