use xors::schemas::NewUserSchema;
use xors::validate::{
    validate_password, validate_user_name, validate_user_registration, validate_user_signin,
    ApiError,
};

fn password_error(p: &str) -> String {
    match validate_password(p) {
        Err(ApiError::InvalidPassword(m)) => m,
        other => panic!("expected a password error, got {other:?}"),
    }
}

#[test]
fn accepts_strong_passwords() {
    assert!(validate_password("fdlkFDLKF#$3213!").is_ok());
    assert!(validate_password("fdkjhKFHDKH347(#*&").is_ok());
    assert!(validate_password("kdfkl(#0()$fkLKJF").is_ok());
}

#[test]
fn rejects_short_password() {
    assert_eq!(password_error("1234567"), "The password must be between 8 and 64 characters");
}

#[test]
fn rejects_long_password() {
    let long = "aA1!".repeat(17);
    assert_eq!(password_error(&long), "The password must be between 8 and 64 characters");
}

#[test]
fn rejects_password_with_spaces() {
    assert_eq!(password_error("aA1! aA1!"), "The password contains spaces");
}

#[test]
fn rejects_password_without_lowercase() {
    assert_eq!(
        password_error("KJHD74397$#&KDH"),
        "The password must contain at least one uppercase and lowercase letter"
    );
}

#[test]
fn rejects_password_without_uppercase() {
    assert_eq!(
        password_error("kjhdf74397$#&kdh"),
        "The password must contain at least one uppercase and lowercase letter"
    );
}

#[test]
fn rejects_password_without_number() {
    assert_eq!(
        password_error("kjhdfKJHDKH$#&kdh"),
        "The password must contain at least one number"
    );
}

#[test]
fn rejects_password_without_symbol() {
    assert_eq!(
        password_error("kjhdfKJHDKH1234"),
        "The password must contain at least one symbol"
    );
}

#[test]
fn rejects_common_password() {
    // Structurally fine, but on the common-password list.
    assert_eq!(password_error("!QAZ1qaz"), "The password is common");
}

#[test]
fn username_rules() {
    assert!(validate_user_signin("Player").is_ok());
    assert!(validate_user_signin("user_01").is_ok());
    assert_eq!(validate_user_signin("1user"), Err(ApiError::InvalidUsername));
    assert_eq!(validate_user_signin("_user"), Err(ApiError::InvalidUsername));
    assert_eq!(
        validate_user_signin("\u{645}\u{633}\u{62a}\u{62e}\u{62f}\u{645}"),
        Err(ApiError::InvalidUsername)
    );
    assert_eq!(validate_user_signin("ab"), Err(ApiError::InvalidUsername));
    let long = "user".repeat(25);
    assert_eq!(validate_user_signin(&long), Err(ApiError::InvalidUsername));
    assert_eq!(validate_user_signin("user name"), Err(ApiError::InvalidUsername));
}

#[test]
fn name_rules() {
    assert!(validate_user_name::<true>("First").is_ok());
    assert_eq!(validate_user_name::<true>(""), Err(ApiError::InvalidFirstName));
    assert_eq!(validate_user_name::<true>("First First"), Err(ApiError::InvalidFirstName));
    assert_eq!(validate_user_name::<true>("    "), Err(ApiError::InvalidFirstName));
    let long = "Long".repeat(9);
    assert_eq!(validate_user_name::<true>(&long), Err(ApiError::InvalidFirstName));
    assert_eq!(validate_user_name::<false>("Last Last"), Err(ApiError::InvalidLastName));
    assert!(validate_user_name::<false>("Last").is_ok());
}

#[test]
fn registration_checks_every_field() {
    let valid = NewUserSchema {
        first_name: "First".to_owned(),
        last_name: Some("Last".to_owned()),
        username: "Player".to_owned(),
        password: "fdkDFLKJL4859#$&".to_owned(),
    };
    assert!(validate_user_registration(&valid).is_ok());

    let mut bad = valid.clone();
    bad.first_name = "First First".to_owned();
    assert_eq!(validate_user_registration(&bad), Err(ApiError::InvalidFirstName));

    let mut bad = valid.clone();
    bad.last_name = Some(" ".repeat(2));
    assert_eq!(validate_user_registration(&bad), Err(ApiError::InvalidLastName));

    let mut bad = valid.clone();
    bad.username = "1user".to_owned();
    assert_eq!(validate_user_registration(&bad), Err(ApiError::InvalidUsername));

    let mut bad = valid.clone();
    bad.password = "short".to_owned();
    assert!(matches!(
        validate_user_registration(&bad),
        Err(ApiError::InvalidPassword(_))
    ));

    let mut none_last = valid.clone();
    none_last.last_name = None;
    assert!(validate_user_registration(&none_last).is_ok());
}
