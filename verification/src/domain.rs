use vstd::prelude::*;

verus! {

/// An application that may open connections: how its users are
/// authenticated, and the secret it shares with the gateway.
#[derive(Debug, PartialEq, Eq)]
pub struct ApplicationUse {
    pub id: i64,
    pub app_id: String,
    pub token: String,
    pub app_auth_url: String,
    pub app_callback_message: String,
}

/// One line of the paged user listing.
#[derive(Debug, PartialEq, Eq)]
pub struct UserPageListVo {
    pub id: i64,
    pub username: String,
    pub nickname: Option<String>,
    pub email: Option<String>,
    pub phone: Option<String>,
}

/// Which page of the user listing is asked for.
#[derive(Debug, Clone, Copy)]
pub struct UserQuery {
    pub page: i64,
    pub page_size: i64,
}

/// A user to be created.
#[derive(Debug, PartialEq, Eq)]
pub struct UserCreate {
    pub username: String,
    pub password: String,
    pub nickname: Option<String>,
    pub email: Option<String>,
    pub phone: Option<String>,
}

/// The credentials of a login.
#[derive(Debug, PartialEq, Eq)]
pub struct UserLogin {
    pub username: String,
    pub password: String,
}

/// The new values of a user's fields.
#[derive(Debug, PartialEq, Eq)]
pub struct UserUpdate {
    pub id: i64,
    pub username: String,
    pub nickname: Option<String>,
    pub email: Option<String>,
    pub phone: Option<String>,
}

/// A stored user.
#[derive(Debug, PartialEq, Eq)]
pub struct User {
    pub id: i64,
    pub password: String,
    pub username: String,
    pub nickname: Option<String>,
    pub email: Option<String>,
    pub phone: Option<String>,
}

} // verus!
