use gamesync::validation::{UserEmail, UserName};

#[test]
fn a_256_grapheme_long_name_is_valid() {
    let name = "a".repeat(256);
    assert!(UserName::parse(name).is_ok());
}

#[test]
fn a_name_longer_than_256_graphemes_is_rejected() {
    let name = "a".repeat(257);
    assert!(UserName::parse(name).is_err());
}

#[test]
fn whitespace_only_names_are_rejected() {
    let name = " ".to_string();
    assert!(UserName::parse(name).is_err());
}

#[test]
fn empty_string_is_rejected() {
    let name = "".to_string();
    assert!(UserName::parse(name).is_err());
}

#[test]
fn names_containing_an_invalid_character_are_rejected() {
    for name in &['/', '(', ')', '"', '<', '>', '\\', '{', '}'] {
        let name = name.to_string();
        assert!(UserName::parse(name).is_err());
    }
}

#[test]
fn a_valid_name_is_parsed_successfully() {
    let name = "Kashish Kashyap".to_string();
    assert!(UserName::parse(name).is_ok());
}

#[test]
fn empty_email_string_is_rejected() {
    let email = "".to_string();
    assert!(UserEmail::parse(email).is_err());
}

#[test]
fn email_missing_at_symbol_is_rejected() {
    let email = "kkgmail.com".to_string();
    assert!(UserEmail::parse(email).is_err());
}

#[test]
fn email_missing_subject_is_rejected() {
    let email = "@gmail.com".to_string();
    assert!(UserEmail::parse(email).is_err());
}

#[test]
fn a_plain_address_is_accepted() {
    let parsed = UserEmail::parse("kk+dev_1%x@mail-host.example.org".to_string());
    assert!(parsed.is_ok());
    assert_eq!(parsed.unwrap().as_str(), "kk+dev_1%x@mail-host.example.org");
}

#[test]
fn an_address_with_two_at_signs_is_rejected() {
    assert!(UserEmail::parse("a@b@c.org".to_string()).is_err());
}

#[test]
fn an_address_with_a_short_tld_is_rejected() {
    assert!(UserEmail::parse("kk@gmail.c".to_string()).is_err());
}

#[test]
fn an_address_with_a_digit_in_the_tld_is_rejected() {
    assert!(UserEmail::parse("kk@gmail.c0m".to_string()).is_err());
}

#[test]
fn an_address_missing_its_domain_is_rejected() {
    assert!(UserEmail::parse("kk@.com".to_string()).is_err());
}

#[test]
fn grapheme_clusters_are_counted_not_chars() {
    // 200 base letters each carrying a combining acute accent: 400 chars
    // but only 200 grapheme clusters, so the name passes the length check.
    let name = "e\u{0301}".repeat(200);
    assert_eq!(name.chars().count(), 400);
    assert!(UserName::parse(name).is_ok());
}

#[test]
fn the_name_error_carries_the_input() {
    match UserName::parse("{bad}".to_string()) {
        Err(gamesync::errors::CustomError::ValidationError(m)) => {
            assert_eq!(m, "{bad} is not a valid name");
        },
        _ => panic!("expected a validation error"),
    }
}

#[test]
fn the_email_error_carries_the_input() {
    match UserEmail::parse("nope".to_string()) {
        Err(gamesync::errors::CustomError::ValidationError(m)) => {
            assert_eq!(m, "nope is not a valid email address.");
        },
        _ => panic!("expected a validation error"),
    }
}

#[test]
fn create_body_validates_name_first() {
    let body = gamesync::validation::CreateUserBody {
        username: "".to_string(),
        password: "pw".to_string(),
        email: "also-bad".to_string(),
    };
    match body.validate() {
        Err(gamesync::errors::CustomError::ValidationError(m)) => {
            assert_eq!(m, " is not a valid name");
        },
        _ => panic!("expected the name error"),
    }
}

#[test]
fn update_body_accepts_valid_fields() {
    let body = gamesync::validation::UpdateUserBody {
        username: "Player One".to_string(),
        email: "p1@games.example".to_string(),
    };
    let (name, email) = body.validate().expect("valid body");
    assert_eq!(name.as_str(), "Player One");
    assert_eq!(email.as_str(), "p1@games.example");
}
