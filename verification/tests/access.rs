use tonic::metadata::{Ascii, MetadataMap, MetadataValue};
use wasmbridge_server_proto::auth::{bearer_token, header_token, AuthError};
use wasmbridge_server_proto::validator::DEFAULT_LEASE_SECS;
use wasmbridge_server_proto::{AuthInterceptor, DefaultValidator, TokenValidator};

fn metadata(value: &[u8]) -> MetadataMap {
    let mut map = MetadataMap::new();
    map.insert("authorization", MetadataValue::<Ascii>::try_from(value).unwrap());
    map
}

#[test]
fn bearer_token_is_found() {
    assert_eq!(bearer_token(&metadata(b"Bearer abc")), Ok("abc".to_string()));
    assert_eq!(bearer_token(&metadata(b"Bearer a b\tc")), Ok("a b\tc".to_string()));
    assert_eq!(bearer_token(&metadata(b"Bearer ")), Ok("".to_string()));
}

#[test]
fn first_value_counts() {
    let mut map = metadata(b"Bearer one");
    map.append("authorization", "Bearer two".parse().unwrap());
    map.insert("other", "Bearer three".parse().unwrap());
    assert_eq!(bearer_token(&map), Ok("one".to_string()));
}

#[test]
fn missing_token_is_refused() {
    assert_eq!(bearer_token(&MetadataMap::new()), Err(AuthError::MissingToken));
    assert_eq!(header_token(None), Err(AuthError::MissingToken));
}

#[test]
fn token_that_is_no_text_is_refused() {
    assert_eq!(bearer_token(&metadata(b"Bearer \xff")), Err(AuthError::InvalidFormat));
    assert_eq!(header_token(Some(b"Bearer \x07".to_vec())), Err(AuthError::InvalidFormat));
    assert_eq!(header_token(Some(b"Bearer \x7f".to_vec())), Err(AuthError::InvalidFormat));
}

#[test]
fn other_schemes_are_refused() {
    for value in ["Basic abc", "bearer abc", "Bearer", "", "Bearerabc"] {
        assert_eq!(
            header_token(Some(value.as_bytes().to_vec())),
            Err(AuthError::BearerRequired)
        );
    }
    assert_eq!(bearer_token(&metadata(b"Basic abc")), Err(AuthError::BearerRequired));
}

#[test]
fn interceptor_lets_in_its_token_only() {
    let interceptor = AuthInterceptor { valid_token: "s3cret".to_string() };
    assert_eq!(interceptor.call(&metadata(b"Bearer s3cret")), Ok(()));
    for value in [&b"Bearer s3cret "[..], b"Bearer other", b"s3cret", b"Bearer \xff"] {
        assert_eq!(interceptor.call(&metadata(value)), Err(AuthError::NotAdmitted));
    }
    assert_eq!(interceptor.call(&MetadataMap::new()), Err(AuthError::NotAdmitted));
    assert_eq!(interceptor.check(None), Err(AuthError::NotAdmitted));
}

#[test]
fn interceptor_agrees_with_the_token_found() {
    let interceptor = AuthInterceptor { valid_token: "t".to_string() };
    for value in ["Bearer t", "Bearer tt", "Bearer ", "t", "Basic t"] {
        let bytes = Some(value.as_bytes().to_vec());
        let same = header_token(bytes.clone()) == Ok("t".to_string());
        assert_eq!(interceptor.check(bytes).is_ok(), same);
    }
}

#[test]
fn messages_tell_the_reason() {
    assert_eq!(AuthError::MissingToken.message(), "Missing authorization token");
    assert_eq!(AuthError::InvalidFormat.message(), "Invalid token format");
    assert_eq!(AuthError::BearerRequired.message(), "Bearer token required");
    assert_eq!(AuthError::InvalidToken.message(), "Invalid token");
    assert_eq!(AuthError::NotAdmitted.message(), "Invalid or missing Bearer token");
}

#[test]
fn refusals_are_unauthenticated() {
    for error in [AuthError::MissingToken, AuthError::BearerRequired, AuthError::NotAdmitted] {
        let status = error.status();
        assert_eq!(status.code(), tonic::Code::Unauthenticated);
        assert_eq!(status.message(), error.message());
    }
}

#[test]
fn default_validator_knows_one_token() {
    let validator = DefaultValidator { token: "t".to_string() };
    let claims = validator.validate_at("t", 1_000_000).unwrap();
    assert_eq!(claims.sub, "debug-client");
    assert_eq!(claims.exp, 1_003_600);
    assert!(validator.validate_at("u", 1_000_000).is_none());
    assert!(validator.validate_at("", 1_000_000).is_none());
}

#[test]
fn default_claims_expire_in_an_hour() {
    let validator = DefaultValidator { token: "t".to_string() };
    let before = chrono::Utc::now().timestamp() as usize;
    let claims = validator.validate("t").unwrap();
    let after = chrono::Utc::now().timestamp() as usize;
    assert!(before + DEFAULT_LEASE_SECS <= claims.exp);
    assert!(claims.exp <= after + 3600);
    assert!(validator.validate("u").is_none());
}

#[test]
fn expiry_wraps_around_zero() {
    let validator = DefaultValidator { token: "t".to_string() };
    assert_eq!(validator.validate_at("t", -600).unwrap().exp, 3000);
}
