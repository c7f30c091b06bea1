//! The service's plain request and response bodies, as the engine-side
//! logic sees them. Wire encoding and decoding belong to the caller.

use vstd::prelude::*;

verus! {

/// The data a new account is created from.
#[derive(Clone, Debug)]
pub struct NewUserSchema {
    /// The user's first name. Can't contain spaces.
    pub first_name: String,
    /// The user's last name. Can't contain spaces.
    pub last_name: Option<String>,
    /// The user's username. It must be unique and start with a letter, and
    /// can only contain English letters, numbers, and underscores.
    pub username: String,
    /// The user's password.
    pub password: String,
}

impl Default for NewUserSchema {
    /// An example value: placeholder names and password.
    fn default() -> (r: Self)
        ensures
            r.first_name@ == "First"@,
            r.last_name matches Some(l) && l@ == "Last"@,
            r.username@ == "Username"@,
            r.password@ == "Password"@,
    {
        NewUserSchema {
            first_name: "First".to_owned(),
            last_name: Some("Last".to_owned()),
            username: "Username".to_owned(),
            password: "Password".to_owned(),
        }
    }
}

/// The credentials a sign-in request carries.
#[derive(Clone, Debug)]
pub struct SigninSchema {
    /// The user's username.
    pub username: String,
    /// The user's password.
    pub password: String,
}

impl Default for SigninSchema {
    /// An example value: placeholder credentials.
    fn default() -> (r: Self)
        ensures
            r.username@ == "Username"@,
            r.password@ == "Password"@,
    {
        SigninSchema { username: "Username".to_owned(), password: "Password".to_owned() }
    }
}

/// A plain message body, as returned beside error status codes.
#[derive(Clone, Debug)]
pub struct MessageSchema {
    message: String,
}

impl MessageSchema {
    /// The message text.
    pub closed spec fn spec_message(&self) -> Seq<char> {
        self.message@
    }

    /// Wraps a message text.
    pub fn new(message: String) -> (r: MessageSchema)
        ensures
            r.spec_message() == message@,
    {
        MessageSchema { message }
    }

    /// Reads the message text.
    pub fn message(&self) -> (r: &str)
        ensures
            r@ == self.spec_message(),
    {
        self.message.as_str()
    }
}

/// The body of a delete-account request.
#[derive(Clone, Debug)]
pub struct DeleteUserSchema {
    /// The user's password, confirming the deletion.
    pub password: String,
}

impl Default for DeleteUserSchema {
    /// An example value: a placeholder password.
    fn default() -> (r: Self)
        ensures
            r.password@ == "password"@,
    {
        DeleteUserSchema { password: "password".to_owned() }
    }
}

/// The body of an update-account request; absent fields stay unchanged.
#[derive(Clone, Debug)]
pub struct UpdateUserSchema {
    /// The user's first name.
    pub first_name: Option<String>,
    /// The user's last name.
    pub last_name: Option<String>,
    /// The profile image, base64-encoded; when absent the image is reset.
    pub profile_image: Option<String>,
}

impl Default for UpdateUserSchema {
    /// An example value: placeholder fields.
    fn default() -> (r: Self)
        ensures
            r.first_name matches Some(f) && f@ == "first_name"@,
            r.last_name matches Some(l) && l@ == "last_name"@,
            r.profile_image matches Some(p) && p@ == "<IMAGE_BASE64>"@,
    {
        UpdateUserSchema {
            first_name: Some("first_name".to_owned()),
            last_name: Some("last_name".to_owned()),
            profile_image: Some("<IMAGE_BASE64>".to_owned()),
        }
    }
}

/// The body of a password-reset request.
#[derive(Clone, Debug)]
pub struct ResetPasswordSchema {
    /// The user's current password.
    pub old_password: String,
    /// The password to set.
    pub new_password: String,
}

impl Default for ResetPasswordSchema {
    /// An example value: placeholder passwords.
    fn default() -> (r: Self)
        ensures
            r.old_password@ == "OldPassword"@,
            r.new_password@ == "NewPassword"@,
    {
        ResetPasswordSchema {
            old_password: "OldPassword".to_owned(),
            new_password: "NewPassword".to_owned(),
        }
    }
}

/// The claims carried by an access or refresh token.
#[derive(Clone, Copy, Debug, PartialEq, Eq)]
pub struct JwtClaims {
    /// The user's id.
    pub uuid: u128,
    /// When a refresh token becomes usable; absent on an access token.
    pub active_after: Option<i64>,
    /// When the token expires.
    pub exp: i64,
}

impl JwtClaims {
    /// Builds a claims value.
    pub fn new(uuid: u128, active_after: Option<i64>, exp: i64) -> (r: JwtClaims)
        ensures
            r == (JwtClaims { uuid, active_after, exp }),
    {
        JwtClaims { uuid, active_after, exp }
    }

    /// The token is a refresh token: it carries an activation time.
    pub fn is_refresh_token(&self) -> (r: bool)
        ensures
            r == (self.active_after is Some),
    {
        self.active_after.is_some()
    }

    /// The token is expired at time `now`.
    pub fn is_expired(&self, now: i64) -> (r: bool)
        ensures
            r == (self.exp <= now),
    {
        self.exp <= now
    }
}

} // verus!
