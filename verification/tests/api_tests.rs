use key_connector::crypto::KeyCipher;
use key_connector::error::ApiError;
use key_connector::routes::{store_response, user_key_response};
use key_connector::store::key_from_row;

#[test]
fn errors_map_to_status_and_text() {
    assert_eq!(ApiError::MissingToken.status_code(), 401);
    assert_eq!(ApiError::InvalidToken("x".to_string()).status_code(), 401);
    assert_eq!(ApiError::KeyNotFound.status_code(), 404);
    assert_eq!(ApiError::Internal.status_code(), 500);
    assert_eq!(ApiError::MissingToken.message(), "missing or malformed Authorization header");
    assert_eq!(
        ApiError::InvalidToken("ExpiredSignature".to_string()).message(),
        "invalid access token: ExpiredSignature"
    );
    assert_eq!(ApiError::KeyNotFound.message(), "no key stored for this user");
    assert_eq!(ApiError::Internal.message(), "internal error");
}

#[test]
fn lookups_map_to_answers() {
    assert_eq!(user_key_response(Ok(Some("k".to_string()))), Ok("k".to_string()));
    assert_eq!(user_key_response(Ok(None)), Err(ApiError::KeyNotFound));
    assert_eq!(user_key_response(Err("disk".to_string())), Err(ApiError::Internal));
    assert_eq!(store_response(Ok(())), Ok(()));
    assert_eq!(store_response(Err("disk".to_string())), Err(ApiError::Internal));
}

#[test]
fn stored_key_is_read_back_only_by_its_user() {
    // What the endpoints do around storage: seal on POST, open on GET.
    let cipher = KeyCipher::new(&[0x42; 32]).unwrap();
    let row = cipher.seal("alice", "alice-secret").unwrap();
    let alice = user_key_response(key_from_row(&cipher, "alice", Some(row.clone())));
    assert_eq!(alice, Ok("alice-secret".to_string()));
    // bob's row lookup finds nothing: 404
    assert_eq!(user_key_response(key_from_row(&cipher, "bob", None)), Err(ApiError::KeyNotFound));
    // alice's row under bob's id does not open
    assert_eq!(
        user_key_response(key_from_row(&cipher, "bob", Some(row))),
        Err(ApiError::Internal)
    );
}
