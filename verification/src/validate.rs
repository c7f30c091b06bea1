//! Validation of user-facing fields: names, usernames, and passwords.

use vstd::prelude::*;
use crate::schemas::NewUserSchema;

verus! {

/// The service's result type.
pub type ApiResult<T> = Result<T, ApiError>;

/// The validation arm of the service's error taxonomy: each variant names
/// the field a request was rejected for.
#[derive(Clone, Debug, PartialEq, Eq)]
pub enum ApiError {
    /// The first name must be between 1 and 32 characters and not contain
    /// spaces.
    InvalidFirstName,
    /// The last name must be between 1 and 32 characters and not contain
    /// spaces.
    InvalidLastName,
    /// The username must be between 3 and 32 characters, start with a
    /// letter, and only contain English letters, numbers, and underscores.
    InvalidUsername,
    /// The password broke the carried rule.
    InvalidPassword(String),
}

/// What `char::is_whitespace` holds of a character; a function of the
/// character alone.
pub uninterp spec fn char_is_whitespace(c: char) -> bool;

/// Relies on char::is_whitespace: the Unicode white-space property,
/// depending on the character alone.
#[verifier::external_body]
fn is_whitespace_char(c: char) -> (r: bool)
    ensures
        r == char_is_whitespace(c),
{
    c.is_whitespace()
}

/// The password appears in the common-password list; a function of the
/// characters alone.
pub uninterp spec fn common_password(s: Seq<char>) -> bool;

/// Relies on passwords::analyzer::is_common_password: membership of the
/// password in the crate's fixed list of common passwords, depending on
/// the characters alone.
#[verifier::external_body]
fn is_common_password(password: &str) -> (r: bool)
    ensures
        r == common_password(password@),
{
    passwords::analyzer::is_common_password(password)
}

/// Collects a string's characters for indexed traversal.
pub(crate) fn str_chars(s: &str) -> (r: Vec<char>)
    ensures
        r@ == s@,
{
    let mut r: Vec<char> = Vec::new();
    for c in it: s.chars()
        invariant
            it.seq() == s@,
            r@ == it.seq().subrange(0, it.index() as int),
    {
        r.push(c);
        proof {
            assert(r@ =~= it.seq().subrange(0, it.index() + 1));
        }
    }
    proof {
        assert(r@ =~= s@);
    }
    r
}

/// An ASCII letter, `A` to `Z` or `a` to `z`.
pub open spec fn ascii_letter(c: char) -> bool {
    (65 <= c as u32 && c as u32 <= 90) || (97 <= c as u32 && c as u32 <= 122)
}

/// An ASCII digit, `0` to `9`.
pub open spec fn ascii_digit_char(c: char) -> bool {
    48 <= c as u32 && c as u32 <= 57
}

/// An ASCII uppercase letter.
pub open spec fn ascii_upper(c: char) -> bool {
    65 <= c as u32 && c as u32 <= 90
}

/// An ASCII lowercase letter.
pub open spec fn ascii_lower(c: char) -> bool {
    97 <= c as u32 && c as u32 <= 122
}

/// A printable ASCII symbol: punctuation outside letters, digits and the
/// space.
pub open spec fn ascii_symbol(c: char) -> bool {
    ||| (33 <= c as u32 && c as u32 <= 47)
    ||| (58 <= c as u32 && c as u32 <= 64)
    ||| (91 <= c as u32 && c as u32 <= 96)
    ||| (123 <= c as u32 && c as u32 <= 126)
}

/// A character allowed in a username: an ASCII letter, digit, or
/// underscore.
pub open spec fn username_char(c: char) -> bool {
    ascii_letter(c) || ascii_digit_char(c) || c as u32 == 95
}

/// A valid displayed name: one to 32 characters, none of them whitespace.
pub open spec fn valid_name(s: Seq<char>) -> bool {
    &&& 1 <= s.len() <= 32
    &&& forall|i: int| 0 <= i < s.len() ==> !char_is_whitespace(#[trigger] s[i])
}

/// A valid username: 3 to 32 characters, the first an English letter, the
/// rest English letters, digits, or underscores.
pub open spec fn valid_username(s: Seq<char>) -> bool {
    &&& 3 <= s.len() <= 32
    &&& ascii_letter(s[0])
    &&& forall|i: int| 0 <= i < s.len() ==> username_char(#[trigger] s[i])
}

/// The password's length is in range.
pub open spec fn pw_len_ok(s: Seq<char>) -> bool {
    8 <= s.len() <= 64
}

/// The password holds no whitespace.
pub open spec fn pw_no_whitespace(s: Seq<char>) -> bool {
    forall|i: int| 0 <= i < s.len() ==> !char_is_whitespace(#[trigger] s[i])
}

/// The password holds at least one ASCII uppercase letter.
pub open spec fn pw_has_upper(s: Seq<char>) -> bool {
    exists|i: int| 0 <= i < s.len() && ascii_upper(#[trigger] s[i])
}

/// The password holds at least one ASCII lowercase letter.
pub open spec fn pw_has_lower(s: Seq<char>) -> bool {
    exists|i: int| 0 <= i < s.len() && ascii_lower(#[trigger] s[i])
}

/// The password holds at least one digit.
pub open spec fn pw_has_digit(s: Seq<char>) -> bool {
    exists|i: int| 0 <= i < s.len() && ascii_digit_char(#[trigger] s[i])
}

/// The password holds at least one symbol.
pub open spec fn pw_has_symbol(s: Seq<char>) -> bool {
    exists|i: int| 0 <= i < s.len() && ascii_symbol(#[trigger] s[i])
}

/// A valid password: 8 to 64 characters without whitespace, with at least
/// one uppercase letter, one lowercase letter, one digit and one symbol,
/// and not on the common-password list.
pub open spec fn valid_password(s: Seq<char>) -> bool {
    &&& pw_len_ok(s)
    &&& pw_no_whitespace(s)
    &&& pw_has_upper(s)
    &&& pw_has_lower(s)
    &&& pw_has_digit(s)
    &&& pw_has_symbol(s)
    &&& !common_password(s)
}

/// Validates a displayed name, the first name when `IS_FIRST_NAME`, else
/// the last name; the error names the offending field.
pub fn validate_user_name<const IS_FIRST_NAME: bool>(name: &str) -> (r: ApiResult<()>)
    ensures
        r is Ok <==> valid_name(name@),
        r is Err ==> r == Err::<(), ApiError>(
            if IS_FIRST_NAME {
                ApiError::InvalidFirstName
            } else {
                ApiError::InvalidLastName
            },
        ),
{
    let chars = str_chars(name);
    let mut bad = chars.len() > 32 || chars.len() == 0;
    let mut i: usize = 0;
    while i < chars.len()
        invariant
            i <= chars@.len(),
            chars@ == name@,
            bad ==> !valid_name(name@),
            !bad ==> 1 <= chars@.len() <= 32 && (forall|k: int|
                0 <= k < i ==> !char_is_whitespace(#[trigger] name@[k])),
        decreases chars@.len() - i,
    {
        if is_whitespace_char(chars[i]) {
            bad = true;
        }
        i += 1;
    }
    if bad {
        if IS_FIRST_NAME {
            Err(ApiError::InvalidFirstName)
        } else {
            Err(ApiError::InvalidLastName)
        }
    } else {
        Ok(())
    }
}

/// Validates a username; rejected usernames yield `InvalidUsername`.
pub fn validate_user_signin(usersignin: &str) -> (r: ApiResult<()>)
    ensures
        r is Ok <==> valid_username(usersignin@),
        r is Err ==> r == Err::<(), ApiError>(ApiError::InvalidUsername),
{
    let chars = str_chars(usersignin);
    if chars.len() > 32 || chars.len() < 3 {
        return Err(ApiError::InvalidUsername);
    }
    let c0 = chars[0];
    let u0 = c0 as u32;
    if !((65 <= u0 && u0 <= 90) || (97 <= u0 && u0 <= 122)) {
        return Err(ApiError::InvalidUsername);
    }
    let mut i: usize = 0;
    while i < chars.len()
        invariant
            i <= chars@.len(),
            chars@ == usersignin@,
            forall|k: int| 0 <= k < i ==> username_char(#[trigger] usersignin@[k]),
        decreases chars@.len() - i,
    {
        let u = chars[i] as u32;
        if !((65 <= u && u <= 90) || (97 <= u && u <= 122) || (48 <= u && u <= 57) || u == 95) {
            return Err(ApiError::InvalidUsername);
        }
        i += 1;
    }
    Ok(())
}

/// Validates a password against the structural rules (length, whitespace,
/// character classes) and the common-password list, in that order; the
/// error carries the broken rule. A caller may layer a further strength
/// score on top; scoring is not part of this check.
pub fn validate_password(password: &str) -> (r: ApiResult<()>)
    ensures
        r is Ok <==> valid_password(password@),
        !pw_len_ok(password@) ==> (r matches Err(ApiError::InvalidPassword(m)) && m@
            == "The password must be between 8 and 64 characters"@),
        pw_len_ok(password@) && !pw_no_whitespace(password@) ==> (r matches Err(
            ApiError::InvalidPassword(m),
        ) && m@ == "The password contains spaces"@),
        pw_len_ok(password@) && pw_no_whitespace(password@) && !(pw_has_upper(password@)
            && pw_has_lower(password@)) ==> (r matches Err(ApiError::InvalidPassword(m)) && m@
            == "The password must contain at least one uppercase and lowercase letter"@),
        pw_len_ok(password@) && pw_no_whitespace(password@) && pw_has_upper(password@)
            && pw_has_lower(password@) && !pw_has_digit(password@) ==> (r matches Err(
            ApiError::InvalidPassword(m),
        ) && m@ == "The password must contain at least one number"@),
        pw_len_ok(password@) && pw_no_whitespace(password@) && pw_has_upper(password@)
            && pw_has_lower(password@) && pw_has_digit(password@) && !pw_has_symbol(password@)
            ==> (r matches Err(ApiError::InvalidPassword(m)) && m@
            == "The password must contain at least one symbol"@),
        pw_len_ok(password@) && pw_no_whitespace(password@) && pw_has_upper(password@)
            && pw_has_lower(password@) && pw_has_digit(password@) && pw_has_symbol(password@)
            && common_password(password@) ==> (r matches Err(ApiError::InvalidPassword(m)) && m@
            == "The password is common"@),
{
    let chars = str_chars(password);
    if chars.len() > 64 || chars.len() < 8 {
        return Err(
            ApiError::InvalidPassword("The password must be between 8 and 64 characters".to_owned()),
        );
    }
    let mut has_ws = false;
    let mut has_upper = false;
    let mut has_lower = false;
    let mut has_digit = false;
    let mut has_symbol = false;
    let mut i: usize = 0;
    while i < chars.len()
        invariant
            i <= chars@.len(),
            chars@ == password@,
            has_ws <==> (exists|k: int| 0 <= k < i && char_is_whitespace(#[trigger] password@[k])),
            has_upper <==> (exists|k: int| 0 <= k < i && ascii_upper(#[trigger] password@[k])),
            has_lower <==> (exists|k: int| 0 <= k < i && ascii_lower(#[trigger] password@[k])),
            has_digit <==> (exists|k: int|
                0 <= k < i && ascii_digit_char(#[trigger] password@[k])),
            has_symbol <==> (exists|k: int| 0 <= k < i && ascii_symbol(#[trigger] password@[k])),
        decreases chars@.len() - i,
    {
        let c = chars[i];
        let u = c as u32;
        if is_whitespace_char(c) {
            has_ws = true;
        }
        if 65 <= u && u <= 90 {
            has_upper = true;
        }
        if 97 <= u && u <= 122 {
            has_lower = true;
        }
        if 48 <= u && u <= 57 {
            has_digit = true;
        }
        if (33 <= u && u <= 47) || (58 <= u && u <= 64) || (91 <= u && u <= 96) || (123 <= u && u
            <= 126) {
            has_symbol = true;
        }
        i += 1;
    }
    if has_ws {
        return Err(ApiError::InvalidPassword("The password contains spaces".to_owned()));
    }
    if !has_upper || !has_lower {
        return Err(
            ApiError::InvalidPassword(
                "The password must contain at least one uppercase and lowercase letter".to_owned(),
            ),
        );
    }
    if !has_digit {
        return Err(
            ApiError::InvalidPassword("The password must contain at least one number".to_owned()),
        );
    }
    if !has_symbol {
        return Err(
            ApiError::InvalidPassword("The password must contain at least one symbol".to_owned()),
        );
    }
    if is_common_password(password) {
        return Err(ApiError::InvalidPassword("The password is common".to_owned()));
    }
    Ok(())
}

/// A registration is valid when its first name, optional last name,
/// password, and username all are.
pub open spec fn valid_registration(u: NewUserSchema) -> bool {
    &&& valid_name(u.first_name@)
    &&& (u.last_name matches Some(l) ==> valid_name(l@))
    &&& valid_password(u.password@)
    &&& valid_username(u.username@)
}

/// Validates a registration: the first name, the last name when present,
/// the password, then the username, reporting the first field that fails.
pub fn validate_user_registration(user: &NewUserSchema) -> (r: ApiResult<()>)
    ensures
        r is Ok <==> valid_registration(*user),
{
    validate_user_name::<true>(user.first_name.as_str())?;
    match &user.last_name {
        Some(l) => {
            validate_user_name::<false>(l.as_str())?;
        },
        None => {},
    }
    validate_password(user.password.as_str())?;
    validate_user_signin(user.username.as_str())?;
    Ok(())
}

} // verus!
