use pezzottify::handlers::coverage_failure_answer;
use pezzottify::handlers::CoverageFailure;
use pezzottify::handlers::sync_events_retained;
use pezzottify::api_error::admin_user_db_error;
use pezzottify::api_error::executor_status;
use pezzottify::api_error::ApiError;
use pezzottify::api_error::CatalogMutationError;
use pezzottify::api_error::DbRunError;
use pezzottify::api_error::StoreFailure;
use pezzottify::api_error::UserServiceError;
use pezzottify::handlers::batch_item_result;
use pezzottify::handlers::validate_bug_report;
use pezzottify::handlers::BugReportLimits;
use pezzottify::handlers::SubmitBugReportBody;
use pezzottify::handlers::check_batch_size;
use pezzottify::handlers::default_bug_report_limit;
use pezzottify::handlers::default_disc;
use pezzottify::handlers::default_dtype;
use pezzottify::handlers::default_popularity;
use pezzottify::handlers::default_track;
use pezzottify::handlers::default_whats_new_limit;
use pezzottify::handlers::idempotency_key;
use pezzottify::handlers::parse_content_type;
use pezzottify::handlers::parse_share_mode;
use pezzottify::handlers::policy_mode_to_str;
use pezzottify::handlers::policy_to_response;
use pezzottify::handlers::validate_entity_type;
use pezzottify::handlers::validate_namespace;
use pezzottify::handlers::BatchFetch;
use pezzottify::handlers::BatchItemResult;
use pezzottify::handlers::CatalogSyncResponse;
use pezzottify::handlers::DeviceShareMode;
use pezzottify::handlers::DeviceSharePolicy;
use pezzottify::handlers::LikedContentType;
use pezzottify::http_cache::cache_directive;
use pezzottify::http_cache::is_api_path;
use pezzottify::http_cache::is_private_cacheable;
use pezzottify::http_cache::needs_default_no_store;
use pezzottify::http_cache::CacheDirective;
use pezzottify::listening::authoritative_track_duration_seconds;
use pezzottify::listening::valid_telemetry_label;
use pezzottify::listening::validate_listening_event;
use pezzottify::listening::ListeningEventRequest;
use pezzottify::login::login_step;
use pezzottify::login::CredentialsLookup;
use pezzottify::login::LoginAttempt;
use pezzottify::login::LoginEvent;
use pezzottify::login::LoginReply;
use pezzottify::login::LoginState;
use pezzottify::login::LoginStep;
use pezzottify::login::PasswordWorkError;

fn is_hyphenated_uuid(s: &str) -> bool {
    s.len() == 36
        && s.char_indices().all(|(i, c)| {
            if [8, 13, 18, 23].contains(&i) {
                c == '-'
            } else {
                c.is_ascii_hexdigit() && !c.is_ascii_uppercase()
            }
        })
}

#[test]
fn user_service_errors_have_stable_status_and_code() {
    let error = ApiError::from_user_service_error(UserServiceError::playlist_not_found());
    assert_eq!(error.status(), 404);
    assert!(is_hyphenated_uuid(error.request_id()));

    let error = ApiError::from_user_service_error(UserServiceError::operation_conflict());
    assert_eq!(error.status(), 409);
    assert!(is_hyphenated_uuid(error.request_id()));
}

#[test]
fn user_database_errors_preserve_domain_and_capacity_contracts() {
    let error = ApiError::user_database(DbRunError::Store(StoreFailure::UserService(
        UserServiceError::playlist_not_found(),
    )));
    assert_eq!(error.status(), 404);

    let error = ApiError::user_database(DbRunError::QueueTimeout);
    assert_eq!(error.status(), 503);
    assert_eq!(error.retry_after(), Some("1"));
}

#[test]
fn internal_errors_do_not_expose_their_source() {
    let error = ApiError::user_database(DbRunError::Store(StoreFailure::Other(
        "SQLITE_CONSTRAINT users.secret_column".to_string(),
    )));
    assert_eq!(error.status(), 500);
    assert_eq!(error.code(), "internal_error");
    assert_eq!(error.message(), "An internal error occurred");
    assert!(!error.message().contains("secret_column"));
    assert!(error.retry_after().is_none());
}

#[test]
fn executor_capacity_failures_have_a_stable_retryable_contract() {
    for error in [DbRunError::QueueTimeout, DbRunError::ExecutionTimeout, DbRunError::ShuttingDown] {
        assert_eq!(executor_status(&error), 503);
        let api = ApiError::from_db_run_error(error);
        assert_eq!(api.status(), 503);
        assert_eq!(api.retry_after(), Some("1"));
        assert_eq!(api.code(), "database_unavailable");
        assert_eq!(api.message(), "Database capacity is temporarily unavailable");
    }
    assert_eq!(executor_status(&DbRunError::Panicked("x".to_string())), 500);
}

#[test]
fn password_verification_capacity_is_retryable_without_exposing_details() {
    let error = ApiError::password_verification_unavailable();
    assert_eq!(error.status(), 503);
    assert_eq!(error.retry_after(), Some("1"));
    assert_eq!(error.code(), "authentication_busy");
    assert_eq!(error.message(), "Authentication capacity is temporarily unavailable");
}

#[test]
fn catalog_mutations_map_to_their_answers() {
    let e = ApiError::catalog_mutation(Some(CatalogMutationError::AlreadyExists {
        entity: "Artist".to_string(),
        id: "a1".to_string(),
    }));
    assert_eq!(e.status(), 409);
    assert_eq!(e.code(), "catalog_item_exists");
    assert_eq!(e.message(), "Artist 'a1' already exists");
    let e = ApiError::catalog_mutation(Some(CatalogMutationError::InvalidReference {
        entity: "album".to_string(),
        id: "x".to_string(),
    }));
    assert_eq!(e.status(), 400);
    assert_eq!(e.message(), "Referenced album 'x' not found");
    let e = ApiError::catalog_mutation(None);
    assert_eq!(e.status(), 500);
    let e = admin_user_db_error("ctx", DbRunError::ShuttingDown);
    assert_eq!(e.status(), 503);
    let e = admin_user_db_error("ctx", DbRunError::Store(StoreFailure::Other("x".to_string())));
    assert_eq!(e.status(), 500);
}

#[test]
fn complete_page_advances_to_the_server_sequence() {
    let response = CatalogSyncResponse::<String>::complete(Vec::new(), 42);

    assert!(response.events.is_empty());
    assert_eq!(response.current_seq, 42);
    assert_eq!(response.has_more, false);
    assert_eq!(response.next_since, 42);
}

#[test]
fn embedding_inputs_are_checked() {
    assert_eq!(default_dtype(), "float32");
    assert!(validate_entity_type("playlist").is_ok());
    let e = validate_entity_type("genre").unwrap_err();
    assert_eq!(e.status(), 400);
    assert_eq!(e.code(), "unsupported_entity_type");
    assert_eq!(e.message(), "Unsupported entity type 'genre'");
    assert!(validate_namespace("clap/v1").is_ok());
    assert_eq!(validate_namespace(" \t ").unwrap_err().message(), "Namespace is required");
    let long = "n".repeat(161);
    assert_eq!(
        validate_namespace(&long).unwrap_err().message(),
        "Namespace is too long; maximum is 160 bytes"
    );
    assert!(validate_namespace(&"n".repeat(160)).is_ok());
}

#[test]
fn handler_inputs_are_read() {
    assert_eq!(parse_content_type("album"), Some(LikedContentType::Album));
    assert_eq!(parse_content_type("Album"), None);
    assert_eq!(policy_mode_to_str(DeviceShareMode::DenyEveryone), "deny_everyone");
    assert_eq!(parse_share_mode("custom"), Some(DeviceShareMode::Custom));
    assert_eq!(parse_share_mode("everyone"), None);
    let response = policy_to_response(DeviceSharePolicy {
        mode: DeviceShareMode::Custom,
        allow_users: vec![1, 2],
        allow_roles: vec!["Admin".to_string()],
        deny_users: vec![3],
    });
    assert_eq!(response.mode, "custom");
    assert_eq!(response.allow_roles, vec!["admin".to_string()]);
    assert_eq!(response.deny_users, vec![3]);
    assert_eq!(default_bug_report_limit(), 50);
    assert_eq!(default_popularity(), 50);
    assert_eq!(default_disc(), 1);
    assert_eq!(default_track(), 1);
    assert_eq!(default_whats_new_limit(), 10);
}

#[test]
fn idempotency_keys_are_trimmed_and_bounded() {
    assert_eq!(idempotency_key(None), Ok(None));
    assert_eq!(idempotency_key(Some(Some("  k-1 "))), Ok(Some("k-1".to_string())));
    assert_eq!(idempotency_key(Some(Some("   "))), Err(400));
    assert_eq!(idempotency_key(Some(None)), Err(400));
    assert_eq!(idempotency_key(Some(Some(&"x".repeat(129)))), Err(400));
    assert!(idempotency_key(Some(Some(&"x".repeat(128)))).is_ok());
}

#[test]
fn batches_are_capped_and_items_answered() {
    assert_eq!(check_batch_size(40, 30, 30), Ok(100));
    assert_eq!(
        check_batch_size(40, 30, 31),
        Err("Batch request exceeds maximum of 100 items (requested 101)".to_string())
    );
    assert!(matches!(batch_item_result(BatchFetch::Found(7)), BatchItemResult::Item { ok: 7 }));
    match batch_item_result::<u8>(BatchFetch::Missing) {
        BatchItemResult::Error { error } => assert_eq!(error, "not_found"),
        _ => panic!("expected an error"),
    }
    match batch_item_result::<u8>(BatchFetch::Failed) {
        BatchItemResult::Error { error } => assert_eq!(error, "internal_error"),
        _ => panic!("expected an error"),
    }
}

#[test]
fn only_whole_successful_reads_are_privately_cached() {
    assert!(is_api_path("/v1"));
    assert!(is_api_path("/v1/content"));
    assert!(!is_api_path("/v10"));
    assert!(is_private_cacheable("GET", 200, false, Some("application/json")));
    assert!(is_private_cacheable("HEAD", 204, false, None));
    assert!(!is_private_cacheable("POST", 200, false, None));
    assert!(!is_private_cacheable("GET", 206, false, None));
    assert!(!is_private_cacheable("GET", 200, true, None));
    assert!(!is_private_cacheable("GET", 404, false, None));
    assert!(!is_private_cacheable("GET", 200, false, Some("Audio/flac")));
    assert!(!is_private_cacheable("GET", 200, false, Some("text/event-stream; charset=utf-8")));
    match cache_directive(false, "GET", 200, false, None, 300) {
        CacheDirective::Private(v) => assert_eq!(v, "private, max-age=300"),
        other => panic!("unexpected {other:?}"),
    }
    assert!(matches!(cache_directive(true, "GET", 200, false, None, 300), CacheDirective::Keep));
    assert!(matches!(cache_directive(false, "GET", 500, false, None, 300), CacheDirective::NoStore));
    assert!(needs_default_no_store("/v1/auth", false));
    assert!(!needs_default_no_store("/index.html", false));
    assert!(!needs_default_no_store("/v1/auth", true));
}

fn listen(duration: u32, track_duration: u32) -> ListeningEventRequest {
    ListeningEventRequest {
        track_id: "t1".to_string(),
        session_id: Some("session-1234".to_string()),
        started_at: Some(1_000_000),
        ended_at: Some(1_000_200),
        duration_seconds: duration,
        track_duration_seconds: track_duration,
        seek_count: Some(2),
        pause_count: None,
        playback_context: Some("album".to_string()),
        client_type: Some("web".to_string()),
    }
}

#[test]
fn listening_events_are_checked_for_plausibility() {
    let now = 1_000_300;
    let event = validate_listening_event(&listen(190, 200), 200, now).unwrap();
    assert_eq!(event.started_at, 1_000_000);
    assert_eq!(event.ended_at, Some(1_000_200));
    assert_eq!(event.duration_seconds, 190);
    assert!(event.completed);

    let event = validate_listening_event(&listen(150, 200), 200, now).unwrap();
    assert!(!event.completed);

    assert_eq!(
        validate_listening_event(&listen(190, 200), 0, now).unwrap_err(),
        "invalid authoritative track duration"
    );
    assert_eq!(
        validate_listening_event(&listen(190, 300), 200, now).unwrap_err(),
        "client track duration differs implausibly from catalog"
    );
    assert_eq!(
        validate_listening_event(&listen(211, 200), 200, now).unwrap_err(),
        "listening duration exceeds track duration"
    );
    assert_eq!(
        validate_listening_event(&listen(3, 200), 200, now).unwrap_err(),
        "finalized listen is shorter than the minimum"
    );
    let mut short_session = listen(190, 200);
    short_session.session_id = Some("abc".to_string());
    assert_eq!(
        validate_listening_event(&short_session, 200, now).unwrap_err(),
        "invalid session identifier"
    );
    let mut no_session = listen(190, 200);
    no_session.session_id = None;
    assert_eq!(
        validate_listening_event(&no_session, 200, now).unwrap_err(),
        "finalized events require a session identifier"
    );
    let mut stale = listen(190, 200);
    stale.started_at = Some(1);
    assert_eq!(
        validate_listening_event(&stale, 200, 5_000_000).unwrap_err(),
        "start timestamp is outside the accepted window"
    );
    let mut bad_label = listen(190, 200);
    bad_label.client_type = Some("web app".to_string());
    assert_eq!(validate_listening_event(&bad_label, 200, now).unwrap_err(), "invalid telemetry label");
    let mut open = listen(210, 200);
    open.ended_at = None;
    let event = validate_listening_event(&open, 200, now).unwrap();
    assert_eq!(event.duration_seconds, 200);
    assert!(!event.completed);
}

#[test]
fn track_durations_round_up_to_seconds() {
    assert_eq!(authoritative_track_duration_seconds(1), Some(1));
    assert_eq!(authoritative_track_duration_seconds(1000), Some(1));
    assert_eq!(authoritative_track_duration_seconds(1001), Some(2));
    assert_eq!(authoritative_track_duration_seconds(0), None);
    assert_eq!(authoritative_track_duration_seconds(86_400_000), Some(86_400));
    assert_eq!(authoritative_track_duration_seconds(86_400_001), None);
    assert_eq!(authoritative_track_duration_seconds(i64::MAX), None);
    assert!(valid_telemetry_label(None, 4));
    assert!(valid_telemetry_label(Some("a-b_c:1"), 7));
    assert!(!valid_telemetry_label(Some("a-b_c:1"), 6));
    assert!(!valid_telemetry_label(Some(""), 6));
    assert!(!valid_telemetry_label(Some("é"), 6));
}

fn finish(step: LoginStep) -> (LoginAttempt, LoginReply) {
    match step {
        LoginStep::Finish { attempt, reply } => (attempt, reply),
        other => panic!("expected the end of the login, got {other:?}"),
    }
}

#[test]
fn a_login_runs_its_checks_in_order() {
    let (s, step) = login_step(LoginState::Received, LoginEvent::Received { password_auth_disabled: false });
    assert!(matches!(step, LoginStep::CheckDevice));
    let (s, step) = login_step(s, LoginEvent::DeviceChecked { error: None });
    assert!(matches!(step, LoginStep::LoadCredentials));
    let (s, step) = login_step(s, LoginEvent::CredentialsLoaded(CredentialsLookup::Found { has_password: true }));
    assert!(matches!(step, LoginStep::VerifyPassword));
    let (s, step) = login_step(s, LoginEvent::PasswordChecked(Ok(true)));
    assert!(matches!(step, LoginStep::CreateSession));
    let (s, step) = login_step(s, LoginEvent::SessionCreated(Ok(())));
    assert_eq!(s, LoginState::Finished);
    let (attempt, reply) = finish(step);
    assert_eq!(attempt.label(), "success");
    assert!(matches!(reply, LoginReply::Created));
}

#[test]
fn refused_logins_are_answered_and_counted() {
    let (_, step) = login_step(LoginState::Received, LoginEvent::Received { password_auth_disabled: true });
    let (attempt, reply) = finish(step);
    assert_eq!(attempt, LoginAttempt::Disabled);
    assert!(matches!(reply, LoginReply::Forbidden(m) if m.starts_with("Password authentication is disabled")));

    let (_, step) = login_step(
        LoginState::CheckingDevice,
        LoginEvent::DeviceChecked { error: Some("bad device".to_string()) },
    );
    let (attempt, reply) = finish(step);
    assert_eq!(attempt, LoginAttempt::Failure);
    assert!(matches!(reply, LoginReply::BadRequest(m) if m == "bad device"));

    let (_, step) = login_step(LoginState::LoadingCredentials, LoginEvent::CredentialsLoaded(CredentialsLookup::Missing));
    assert!(matches!(finish(step), (LoginAttempt::Failure, LoginReply::Unauthorized)));

    let (_, step) = login_step(LoginState::VerifyingPassword, LoginEvent::PasswordChecked(Ok(false)));
    assert!(matches!(finish(step), (LoginAttempt::Failure, LoginReply::Unauthorized)));

    let (_, step) = login_step(
        LoginState::VerifyingPassword,
        LoginEvent::PasswordChecked(Err(PasswordWorkError::QueueTimeout)),
    );
    let (attempt, reply) = finish(step);
    assert_eq!(attempt.label(), "error");
    match reply {
        LoginReply::Failed(e) => assert_eq!(e.status(), 503),
        other => panic!("unexpected {other:?}"),
    }

    let (_, step) = login_step(
        LoginState::CreatingSession,
        LoginEvent::SessionCreated(Err(DbRunError::Panicked("x".to_string()))),
    );
    match finish(step) {
        (LoginAttempt::Error, LoginReply::Failed(e)) => assert_eq!(e.status(), 500),
        other => panic!("unexpected {other:?}"),
    }
}

fn bug_report() -> SubmitBugReportBody {
    SubmitBugReportBody {
        title: Some("Crash".to_string()),
        description: "It crashed".to_string(),
        client_type: "web".to_string(),
        client_version: None,
        device_info: None,
        logs: Some("log line".to_string()),
        attachments: Some(vec!["aaaa".to_string(), "bbbbbbbb".to_string()]),
    }
}

const LIMITS: BugReportLimits = BugReportLimits {
    title_max_len: 10,
    description_max_size: 20,
    logs_max_size: 8,
    max_attachments: 2,
    attachment_max_size: 6,
};

#[test]
fn bug_reports_are_held_to_their_limits() {
    let mut ok = bug_report();
    ok.attachments = Some(vec!["aaaa".to_string()]);
    assert_eq!(validate_bug_report(&ok, &LIMITS), Ok(()));

    assert_eq!(
        validate_bug_report(&bug_report(), &LIMITS),
        Err("Attachment 2 exceeds maximum size of 6 bytes".to_string())
    );
    let mut r = bug_report();
    r.title = Some("A much longer title".to_string());
    assert_eq!(
        validate_bug_report(&r, &LIMITS),
        Err("Title exceeds maximum length of 10 characters".to_string())
    );
    let mut r = bug_report();
    r.description = String::new();
    assert_eq!(validate_bug_report(&r, &LIMITS), Err("Description cannot be empty".to_string()));
    let mut r = bug_report();
    r.logs = Some("a log that is too long".to_string());
    assert_eq!(
        validate_bug_report(&r, &LIMITS),
        Err("Logs exceed maximum size of 8 bytes".to_string())
    );
    let mut r = bug_report();
    r.attachments = Some(vec![String::new(); 3]);
    assert_eq!(
        validate_bug_report(&r, &LIMITS),
        Err("Too many attachments. Maximum is 2 images".to_string())
    );
}

use pezzottify::oidc_login::OidcEvent;
use pezzottify::oidc_login::OidcLogin;
use pezzottify::oidc_login::OidcStage;
use pezzottify::oidc_login::OidcStep;

#[test]
fn oidc_login_provisions_and_registers_the_device() {
    let mut login = OidcLogin::new(Some("uuid-1".to_string()), None);
    assert!(matches!(login.step(OidcEvent::SubjectLookedUp(Ok(None))), OidcStep::ProvisionUser));
    assert!(matches!(login.step(OidcEvent::Provisioned(Ok(7))), OidcStep::LookUpDevice));
    match login.step(OidcEvent::DeviceLookedUp(Ok(None))) {
        OidcStep::RegisterDevice { device_type } => assert_eq!(device_type, "web"),
        other => panic!("unexpected {other:?}"),
    }
    assert!(matches!(
        login.step(OidcEvent::DeviceRegistered(Ok(3))),
        OidcStep::AssociateDevice { device_id: 3, user_id: 7 }
    ));
    assert!(matches!(
        login.step(OidcEvent::DeviceAssociated),
        OidcStep::IssueToken { user_id: 7, device_id: Some(3) }
    ));
    match login.step(OidcEvent::TokenIssued(Ok("tok".to_string()))) {
        OidcStep::Finish(Ok((user, token))) => {
            assert_eq!(user, 7);
            assert_eq!(token, "tok");
        }
        other => panic!("unexpected {other:?}"),
    }
    assert_eq!(login.stage, OidcStage::Finished);
}

#[test]
fn oidc_login_drops_only_the_device_on_device_failures() {
    let mut login = OidcLogin::new(Some("uuid-1".to_string()), Some("android".to_string()));
    assert!(matches!(login.step(OidcEvent::SubjectLookedUp(Ok(Some(4)))), OidcStep::LookUpDevice));
    assert!(matches!(
        login.step(OidcEvent::DeviceLookedUp(Err("db".to_string()))),
        OidcStep::IssueToken { user_id: 4, device_id: None }
    ));

    let mut login = OidcLogin::new(None, None);
    assert!(matches!(
        login.step(OidcEvent::SubjectLookedUp(Ok(Some(4)))),
        OidcStep::IssueToken { user_id: 4, device_id: None }
    ));

    let mut login = OidcLogin::new(None, None);
    match login.step(OidcEvent::SubjectLookedUp(Err("store down".to_string()))) {
        OidcStep::Finish(Err(e)) => assert_eq!(e, "store down"),
        other => panic!("unexpected {other:?}"),
    }
}

#[test]
fn pruned_sync_events_are_gone() {
    assert!(sync_events_retained(0, None));
    assert!(sync_events_retained(-5, Some(100)));
    assert!(sync_events_retained(9, Some(10)));
    assert!(sync_events_retained(50, Some(10)));
    assert!(!sync_events_retained(8, Some(10)));
    assert!(!sync_events_retained(8, None));
}

#[test]
fn coverage_failures_are_answered_by_kind() {
    assert_eq!(
        coverage_failure_answer(CoverageFailure::TimedOut),
        (503, "Audio embedding coverage timed out")
    );
    assert_eq!(
        coverage_failure_answer(CoverageFailure::TaskFailed),
        (500, "Failed to get audio embedding coverage")
    );
    assert_eq!(
        coverage_failure_answer(CoverageFailure::LookupFailed),
        (500, "Failed to get audio embedding coverage")
    );
}
