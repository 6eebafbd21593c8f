use orca::hash::CredentialError;
use orca::hash::encode_auth_data;
use orca::hash::hash;
use orca::hash::verify_password;

#[test]
fn test_hash_valid_input() {
    let login = "user";
    let password = "strongpassword";
    let hash_result = hash(login, password);
    assert!(hash_result.is_ok());
    assert!(hash_result.unwrap().len() > 0);
}

#[test]
fn test_hash_invalid_input() {
    let login = "al"; // Invalid: fewer than 3 characters
    let password = "pw"; // Invalid: fewer than 3 characters
    let hash_result = hash(login, password);
    assert!(hash_result.is_err());

    let login = "nobodyissupposedtohavethislongofalogin";
    let password = "password123"; // Valid length
    let hash_result = hash(login, password);
    assert!(hash_result.is_err());

    let login = "alice"; // Valid length
    let password = "pw"; // Invalid: fewer than 3 characters
    let hash_result = hash(login, password);
    assert!(hash_result.is_err());
}

#[test]
fn test_verify_password_matches() {
    let login = "bob";
    let password = "cantbeguessed";
    let hash_result = hash(login, password).unwrap();
    let verify_result = verify_password(password, &hash_result);
    assert!(verify_result.is_ok());
    assert!(verify_result.unwrap());
}

#[test]
fn test_verify_password_does_not_match() {
    let login = "alice";
    let password = "SecretPassword";
    let hash_result = hash(login, password).unwrap();

    let wrong_password = "WrongPassword";
    let verify_result = verify_password(wrong_password, &hash_result);
    assert!(verify_result.is_ok());
    assert!(!verify_result.unwrap());
}

#[test]
fn test_encode_auth_data() {
    let login = "bob";
    let password = "BobIsCool";
    let encode_result = encode_auth_data(login, password);
    assert!(encode_result.is_ok());
    let encoded_string = encode_result.unwrap();
    assert!(
        encoded_string.contains("Add this to the [Authentication] section of your config.toml:")
    );
    assert!(encoded_string.contains(login));
}

#[test]
fn out_of_bounds_lengths_are_invalid_format() {
    assert_eq!(hash("al", "password"), Err(CredentialError::InvalidFormat));
    assert_eq!(hash("alice", "pw"), Err(CredentialError::InvalidFormat));
    assert_eq!(
        hash("alice", "averyveryverylongpassword1"),
        Err(CredentialError::InvalidFormat)
    );
    assert_eq!(
        encode_auth_data("al", "password"),
        Err(CredentialError::InvalidFormat)
    );
}

#[test]
fn boundary_lengths_are_accepted() {
    assert!(hash("abc", "xyz").is_ok());
    assert!(hash("abcdefghijklmnopqrstuvwxy", "abcdefghijklmnopqrstuvwxy").is_ok());
}

#[test]
fn malformed_record_is_an_error_not_a_match() {
    let verify_result = verify_password("password", "not-a-phc-record");
    assert_eq!(verify_result, Err(CredentialError::MalformedHash));
}

#[test]
fn fresh_salts_give_distinct_records_that_both_verify() {
    let login = "carol";
    let password = "repeatable";
    let first = hash(login, password).unwrap();
    let second = hash(login, password).unwrap();
    assert_ne!(first, second);
    assert_eq!(verify_password(password, &first), Ok(true));
    assert_eq!(verify_password(password, &second), Ok(true));
}
