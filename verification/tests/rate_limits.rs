use pezzottify::metrics::init_metrics;
use pezzottify::rate_limit::login_account_key;
use pezzottify::rate_limit::login_body_within_limit;
use pezzottify::rate_limit::rate_limit_error_answer;
use pezzottify::rate_limit::AnalyticsDeviceKeyExtractor;
use pezzottify::rate_limit::AnalyticsRateLimitIdentity;
use pezzottify::rate_limit::IpKeyExtractor;
use pezzottify::rate_limit::KeyExtractionError;
use pezzottify::rate_limit::LimiterFailure;
use pezzottify::rate_limit::LoginAccountKeyExtractor;
use pezzottify::rate_limit::UserOrIpKeyExtractor;
use pezzottify::rate_limit::CONTENT_READ_PER_MINUTE;
use pezzottify::rate_limit::GLOBAL_PER_MINUTE;
use pezzottify::rate_limit::LOGIN_PER_HOUR;
use pezzottify::rate_limit::LOGIN_PER_MINUTE;
use pezzottify::rate_limit::LOGIN_SUSTAINED_REPLENISH_MILLIS;
use pezzottify::rate_limit::MAX_LOGIN_BODY_LENGTH;
use pezzottify::rate_limit::SEARCH_PER_MINUTE;
use pezzottify::rate_limit::STREAM_PER_MINUTE;
use pezzottify::rate_limit::WRITE_PER_MINUTE;

#[test]
fn test_rate_limit_constants_per_minute() {
    // Verify per-minute rate limits are reasonable
    assert_eq!(LOGIN_PER_MINUTE, 10);
    assert_eq!(GLOBAL_PER_MINUTE, 5000);
    assert_eq!(SEARCH_PER_MINUTE, 100);
    assert_eq!(CONTENT_READ_PER_MINUTE, 2000);
    assert_eq!(STREAM_PER_MINUTE, 200);
    assert_eq!(WRITE_PER_MINUTE, 60);

    // Verify ordering makes sense (global should be highest)
    assert!(GLOBAL_PER_MINUTE > CONTENT_READ_PER_MINUTE);
    assert!(CONTENT_READ_PER_MINUTE > SEARCH_PER_MINUTE);
    assert!(STREAM_PER_MINUTE > SEARCH_PER_MINUTE);
    assert!(SEARCH_PER_MINUTE > WRITE_PER_MINUTE);
}

#[test]
fn test_rate_limit_constants_per_hour() {
    // Verify sustained login throttling is configured at 100 attempts/hour.
    assert_eq!(LOGIN_PER_HOUR, 100);
    assert_eq!(LOGIN_SUSTAINED_REPLENISH_MILLIS, 36_000);
}

#[test]
fn test_rate_limit_consistency_minute_vs_hour() {
    // Login allows a short burst but replenishes much more slowly in its
    // sustained bucket.
    assert_eq!(LOGIN_PER_MINUTE, 10);
    assert_eq!(LOGIN_PER_HOUR, 100);
    assert!(LOGIN_PER_HOUR < LOGIN_PER_MINUTE * 60);
}

#[test]
fn test_ip_key_extractor_is_clone() {
    let extractor = IpKeyExtractor;
    let _cloned = extractor.clone();
    // Test passes if it compiles
}

#[test]
fn test_user_or_ip_key_extractor_is_clone() {
    let extractor = UserOrIpKeyExtractor;
    let _cloned = extractor.clone();
    // Test passes if it compiles
}

#[test]
fn test_ip_key_extractor_extracts_ip_without_port() {
    let extractor = IpKeyExtractor;
    let result = extractor.extract(Some("127.0.0.1"));
    assert!(result.is_ok());
    assert_eq!(result.unwrap(), "127.0.0.1");
}

#[test]
fn test_ip_key_extractor_returns_error_when_no_connect_info() {
    let extractor = IpKeyExtractor;
    let result = extractor.extract::<&str>(None);
    assert!(result.is_err());
    assert!(matches!(result, Err(KeyExtractionError::UnableToExtractKey)));
}

#[test]
fn test_login_account_key_is_stable_and_does_not_contain_the_handle() {
    let first = login_account_key(Some("alice"));
    let second = login_account_key(Some("alice"));
    let other = login_account_key(Some("bob"));

    assert_eq!(first.0, second.0);
    assert_ne!(first.0, other.0);
    assert!(!format!("{:?}", first.0).contains("alice"));
}

#[test]
fn login_key_is_the_sha256_of_the_handle() {
    // SHA-256 of the empty input, shared by every login without a handle.
    let none = login_account_key(None);
    assert_eq!(none.0[0], 0xe3);
    assert_eq!(none.0[31], 0x55);
    // SHA-256("abc") begins ba 78 16 bf.
    let abc = login_account_key(Some("abc"));
    assert_eq!(&abc.0[..4], &[0xba, 0x78, 0x16, 0xbf]);
    let key = LoginAccountKeyExtractor.extract(Some(abc)).unwrap();
    assert_eq!(key, abc.0);
    assert!(LoginAccountKeyExtractor.extract(None).is_err());
}

#[test]
fn login_bodies_are_capped() {
    assert!(login_body_within_limit(MAX_LOGIN_BODY_LENGTH));
    assert!(!login_body_within_limit(MAX_LOGIN_BODY_LENGTH + 1));
}

#[test]
fn test_user_or_ip_key_extractor_prefers_user_id() {
    let extractor = UserOrIpKeyExtractor;
    let result = extractor.extract(Some(42usize), Some("127.0.0.1"));
    assert!(result.is_ok());
    assert_eq!(result.unwrap(), "user:42");
}

#[test]
fn analytics_key_is_scoped_to_user_and_device() {
    let extractor = AnalyticsDeviceKeyExtractor;
    let identity = AnalyticsRateLimitIdentity { user_id: 42, device_id: Some(7) };

    assert_eq!(extractor.extract(Some(identity)).unwrap(), "user:42:device:7");
}

#[test]
fn analytics_key_without_device() {
    let extractor = AnalyticsDeviceKeyExtractor;
    let identity = AnalyticsRateLimitIdentity { user_id: 5, device_id: None };
    assert_eq!(extractor.extract(Some(identity)).unwrap(), "user:5:device:none");
    assert!(extractor.extract(None).is_err());
}

#[test]
fn test_user_or_ip_key_extractor_falls_back_to_ip() {
    let extractor = UserOrIpKeyExtractor;
    let result = extractor.extract(None, Some("192.168.1.100"));
    assert!(result.is_ok());
    assert_eq!(result.unwrap(), "ip:192.168.1.100");
}

#[test]
fn test_user_or_ip_key_extractor_returns_error_when_no_info() {
    let extractor = UserOrIpKeyExtractor;
    let result = extractor.extract(None, None);
    assert!(result.is_err());
    assert!(matches!(result, Err(KeyExtractionError::UnableToExtractKey)));
}

#[test]
fn test_user_or_ip_key_extractor_different_users() {
    let extractor = UserOrIpKeyExtractor;
    let result1 = extractor.extract(Some(1usize), None).unwrap();
    let result2 = extractor.extract(Some(2usize), None).unwrap();

    assert_ne!(result1, result2);
    assert_eq!(result1, "user:1");
    assert_eq!(result2, "user:2");
}

#[test]
fn test_rate_limit_error_handler_too_many_requests() {
    let mut m = init_metrics().unwrap();
    let answer = rate_limit_error_answer(&mut m, LimiterFailure::TooManyRequests, "/test", None, None);
    assert_eq!(answer.status, 429);
    assert_eq!(answer.identifier.as_deref(), Some("unknown"));
}

#[test]
fn test_rate_limit_error_handler_other_errors() {
    let mut m = init_metrics().unwrap();
    let answer = rate_limit_error_answer(&mut m, LimiterFailure::Other, "/test", None, None);
    assert_eq!(answer.status, 500);
    assert!(answer.identifier.is_none());
}

#[test]
fn test_rate_limit_error_handler_with_user_id() {
    let mut m = init_metrics().unwrap();
    let answer =
        rate_limit_error_answer(&mut m, LimiterFailure::TooManyRequests, "/test", Some(123), None);
    assert_eq!(answer.status, 429);
    assert_eq!(answer.identifier.as_deref(), Some("user_id=123"));
}

#[test]
fn test_rate_limit_error_handler_with_ip() {
    let mut m = init_metrics().unwrap();
    let answer = rate_limit_error_answer(
        &mut m,
        LimiterFailure::TooManyRequests,
        "/test",
        None,
        Some("203.0.113.42"),
    );
    assert_eq!(answer.status, 429);
    assert_eq!(answer.identifier.as_deref(), Some("ip=203.0.113.42"));
}
