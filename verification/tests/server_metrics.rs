use pezzottify::metrics::route_label;
use pezzottify::metrics::UNMATCHED_ROUTE_LABEL;
use std::time::Duration;

use pezzottify::metrics::background_job_finished;
use pezzottify::metrics::background_job_started;
use pezzottify::metrics::background_job_waiting;
use pezzottify::metrics::blocking_work_finished;
use pezzottify::metrics::blocking_work_started;
use pezzottify::metrics::blocking_work_waiting;
use pezzottify::metrics::calculate_storage_metrics;
use pezzottify::metrics::categorize_endpoint;
use pezzottify::metrics::db_executor_enqueued;
use pezzottify::metrics::db_executor_execution_finished;
use pezzottify::metrics::db_executor_started;
use pezzottify::metrics::http_method_label;
use pezzottify::metrics::init_catalog_metrics;
use pezzottify::metrics::init_metrics;
use pezzottify::metrics::metric_names;
use pezzottify::metrics::record_background_job_circuit_trip;
use pezzottify::metrics::record_background_job_execution;
use pezzottify::metrics::record_bandwidth;
use pezzottify::metrics::record_blocking_work_outcome;
use pezzottify::metrics::record_db_executor_outcome;
use pezzottify::metrics::record_db_query;
use pezzottify::metrics::record_downloader_bytes;
use pezzottify::metrics::record_downloader_error;
use pezzottify::metrics::record_downloader_request;
use pezzottify::metrics::record_http_request;
use pezzottify::metrics::record_listening_event;
use pezzottify::metrics::record_login_attempt;
use pezzottify::metrics::record_rate_limit_hit;
use pezzottify::metrics::set_background_job_circuit_open;
use pezzottify::metrics::set_background_job_running;
use pezzottify::metrics::update_storage_metrics;
use pezzottify::metrics::DbLane;
use pezzottify::metrics::DbPriority;
use pezzottify::metrics::ExecutorOutcome;

#[test]
fn executor_observability_metrics_are_registered() {
    let mut m = init_metrics().unwrap();
    db_executor_enqueued(&mut m, DbPriority::Interactive);
    db_executor_started(
        &mut m,
        DbLane::CatalogRead,
        DbPriority::Interactive,
        Duration::from_millis(2),
    );
    db_executor_execution_finished(
        &mut m,
        DbLane::CatalogRead,
        DbPriority::Interactive,
        Duration::from_millis(3),
    );
    record_db_executor_outcome(
        &mut m,
        DbLane::CatalogRead,
        DbPriority::Interactive,
        ExecutorOutcome::Success,
    );
    blocking_work_waiting(&mut m, "password", true);
    blocking_work_waiting(&mut m, "password", false);
    blocking_work_started(&mut m, "password", Duration::from_millis(2));
    blocking_work_finished(&mut m, "password", Duration::from_millis(3));
    record_blocking_work_outcome(&mut m, "password", ExecutorOutcome::Success);
    background_job_waiting(&mut m, "io_bound", true);
    background_job_waiting(&mut m, "io_bound", false);
    background_job_started(&mut m, "io_bound", Duration::from_millis(4));
    background_job_finished(&mut m, "io_bound");
    set_background_job_circuit_open(&mut m, "test_job", true);
    set_background_job_circuit_open(&mut m, "test_job", false);
    record_background_job_circuit_trip(&mut m, "test_job");

    let metric_names = metric_names(&m)
        .into_iter()
        .collect::<std::collections::HashSet<_>>();
    for expected in [
        "pezzottify_db_executor_queue_wait_seconds",
        "pezzottify_db_executor_execution_seconds",
        "pezzottify_db_executor_operations_total",
        "pezzottify_db_executor_queued",
        "pezzottify_db_executor_active",
        "pezzottify_blocking_work_queue_wait_seconds",
        "pezzottify_blocking_work_execution_seconds",
        "pezzottify_blocking_work_operations_total",
        "pezzottify_blocking_work_waiting",
        "pezzottify_blocking_work_active",
        "pezzottify_background_job_queued",
        "pezzottify_background_job_active",
        "pezzottify_background_job_queue_wait_seconds",
        "pezzottify_background_job_circuit_open",
        "pezzottify_background_job_circuit_trips_total",
    ] {
        assert!(metric_names.contains(expected), "missing metric {expected}");
    }
}

#[test]
fn test_metrics_initialization() {
    let mut m = init_metrics().unwrap();
    let metric_families = metric_names(&m);
    assert!(!metric_families.is_empty(), "Metrics should be registered");
}

#[test]
fn test_record_http_request() {
    let mut m = init_metrics().unwrap();
    record_http_request(&mut m, "GET", "/v1/content/track/123", 200, Duration::from_millis(50));
    let metrics = metric_names(&m);
    let http_metrics = metrics
        .iter()
        .find(|name| name.as_str() == "pezzottify_http_requests_total");
    assert!(http_metrics.is_some(), "HTTP request metrics should exist");
}

#[test]
fn non_standard_http_methods_share_one_bounded_label() {
    let mut m = init_metrics().unwrap();
    let route = "/__cardinality_test__/{id}";
    record_http_request(&mut m, "ATTACKER-METHOD-ONE", route, 200, Duration::ZERO);
    record_http_request(&mut m, "ATTACKER-METHOD-TWO", route, 200, Duration::ZERO);

    let matching_metrics: Vec<_> = m
        .registry()
        .gather()
        .into_iter()
        .filter(|family| family.name() == "pezzottify_http_requests_total")
        .flat_map(|family| family.get_metric().to_vec())
        .filter(|metric| {
            metric
                .get_label()
                .iter()
                .any(|label| label.name() == "path" && label.value() == route)
        })
        .collect();

    assert_eq!(matching_metrics.len(), 1);
    assert!(matching_metrics[0]
        .get_label()
        .iter()
        .any(|label| label.name() == "method" && label.value() == "OTHER"));
    assert_eq!(matching_metrics[0].get_counter().get_value(), 2.0);
}

#[test]
fn non_standard_methods_map_to_one_label() {
    assert_eq!(http_method_label("GET"), "GET");
    assert_eq!(http_method_label("TRACE"), "TRACE");
    assert_eq!(http_method_label("ATTACKER-METHOD-ONE"), "OTHER");
    assert_eq!(http_method_label("get"), "OTHER");
}

#[test]
fn test_record_login_attempt() {
    let mut m = init_metrics().unwrap();
    record_login_attempt(&mut m, "success", Duration::from_secs(1));
    record_login_attempt(&mut m, "failure", Duration::from_millis(500));
    let metrics = metric_names(&m);
    assert!(
        metrics.iter().any(|n| n == "pezzottify_auth_login_attempts_total"),
        "Login metrics should exist"
    );
}

#[test]
fn test_record_rate_limit_hit() {
    let mut m = init_metrics().unwrap();
    record_rate_limit_hit(&mut m, "/v1/auth/login", "ip");
    let metrics = metric_names(&m);
    assert!(
        metrics.iter().any(|n| n == "pezzottify_rate_limit_hits_total"),
        "Rate limit metrics should exist"
    );
}

#[test]
fn test_catalog_metrics() {
    let mut m = init_metrics().unwrap();
    init_catalog_metrics(&mut m, 100, 500, 2000);
    let metrics = metric_names(&m);
    assert!(
        metrics.iter().any(|n| n == "pezzottify_catalog_items_total"),
        "Catalog metrics should exist"
    );
}

#[test]
fn test_db_query_recording() {
    let mut m = init_metrics().unwrap();
    record_db_query(&mut m, "read", Duration::from_millis(10));
    record_db_query(&mut m, "write", Duration::from_millis(50));
    let metrics = metric_names(&m);
    assert!(
        metrics.iter().any(|n| n == "pezzottify_db_query_duration_seconds"),
        "DB query metrics should exist"
    );
}

#[test]
fn test_categorize_endpoint() {
    // Stream endpoints
    assert_eq!(categorize_endpoint("/v1/content/stream/track123"), "stream");
    assert_eq!(categorize_endpoint("/v1/playback/queue"), "stream");

    // Image endpoints
    assert_eq!(categorize_endpoint("/v1/content/image/abc123"), "image");

    // Catalog endpoints
    assert_eq!(categorize_endpoint("/v1/content/track/123"), "catalog");
    assert_eq!(categorize_endpoint("/v1/content/album/456"), "catalog");
    assert_eq!(categorize_endpoint("/v1/content/artist/789"), "catalog");
    assert_eq!(categorize_endpoint("/v1/catalog/artists"), "catalog");

    // Search endpoints
    assert_eq!(categorize_endpoint("/v1/search/query"), "search");

    // Auth endpoints
    assert_eq!(categorize_endpoint("/v1/auth/login"), "auth");
    assert_eq!(categorize_endpoint("/v1/auth/logout"), "auth");

    // User endpoints
    assert_eq!(categorize_endpoint("/v1/user/playlists"), "user");
    assert_eq!(categorize_endpoint("/v1/user/liked"), "user");

    // Admin endpoints
    assert_eq!(categorize_endpoint("/v1/admin/users"), "admin");

    // Other endpoints
    assert_eq!(categorize_endpoint("/"), "other");
    assert_eq!(categorize_endpoint("/health"), "other");
    assert_eq!(categorize_endpoint("/metrics"), "other");
}

#[test]
fn test_record_bandwidth() {
    let mut m = init_metrics().unwrap();
    record_bandwidth(&mut m, "stream", 1024 * 1024);
    record_bandwidth(&mut m, "catalog", 512);
    let metrics = metric_names(&m);
    assert!(
        metrics.iter().any(|n| n == "pezzottify_bandwidth_bytes_total"),
        "Bandwidth bytes metric should exist"
    );
    assert!(
        metrics.iter().any(|n| n == "pezzottify_bandwidth_requests_total"),
        "Bandwidth requests metric should exist"
    );
}

#[test]
fn test_record_listening_event() {
    let mut m = init_metrics().unwrap();
    record_listening_event(&mut m, Some("android"), true, 180);
    record_listening_event(&mut m, Some("web"), false, 45);
    record_listening_event(&mut m, None, true, 200);
    let metrics = metric_names(&m);
    assert!(
        metrics.iter().any(|n| n == "pezzottify_listening_events_total"),
        "Listening events metric should exist"
    );
    assert!(
        metrics
            .iter()
            .any(|n| n == "pezzottify_listening_duration_seconds_total"),
        "Listening duration metric should exist"
    );
}

#[test]
fn test_record_downloader_request() {
    let mut m = init_metrics().unwrap();
    record_downloader_request(&mut m, "get_artist", Duration::from_millis(500));
    record_downloader_error(&mut m, "get_album", "connection");
    record_downloader_bytes(&mut m, "audio", 1024 * 1024);
    record_downloader_bytes(&mut m, "image", 50000);
    let metrics = metric_names(&m);
    assert!(
        metrics.iter().any(|n| n == "pezzottify_downloader_requests_total"),
        "Downloader requests metric should exist"
    );
    assert!(
        metrics
            .iter()
            .any(|n| n == "pezzottify_downloader_request_duration_seconds"),
        "Downloader duration metric should exist"
    );
    assert!(
        metrics.iter().any(|n| n == "pezzottify_downloader_errors_total"),
        "Downloader errors metric should exist"
    );
    assert!(
        metrics.iter().any(|n| n == "pezzottify_downloader_bytes_total"),
        "Downloader bytes metric should exist"
    );
}

#[test]
fn test_record_background_job_execution() {
    let mut m = init_metrics().unwrap();
    record_background_job_execution(&mut m, "test_job", "success", Duration::from_secs(5));
    record_background_job_execution(&mut m, "test_job", "failed", Duration::from_secs(2));
    let metrics = metric_names(&m);
    assert!(
        metrics
            .iter()
            .any(|n| n == "pezzottify_background_job_executions_total"),
        "Background job executions metric should exist"
    );
    assert!(
        metrics
            .iter()
            .any(|n| n == "pezzottify_background_job_duration_seconds"),
        "Background job duration metric should exist"
    );
}

#[test]
fn test_set_background_job_running() {
    let mut m = init_metrics().unwrap();
    set_background_job_running(&mut m, "test_job", true);
    set_background_job_running(&mut m, "test_job", false);
    let metrics = metric_names(&m);
    assert!(
        metrics.iter().any(|n| n == "pezzottify_background_job_running"),
        "Background job running metric should exist"
    );
}

#[test]
fn test_calculate_storage_metrics() {
    let metrics = calculate_storage_metrics(1000, 500, 0, 0, 0, 2000, 800);

    assert_eq!(metrics.db_catalog, 1000);
    assert_eq!(metrics.db_user, 500);
    assert_eq!(metrics.db_server, 0);
    assert_eq!(metrics.db_download_queue, 0);
    assert_eq!(metrics.db_search, 0);
    assert_eq!(metrics.db_total, 1500);

    assert_eq!(metrics.catalog_audio, 2000);
    assert_eq!(metrics.catalog_images, 800);
    assert_eq!(metrics.catalog_total, 2800);

    assert_eq!(metrics.total, 4300);
}

#[test]
fn test_update_storage_metrics() {
    let mut m = init_metrics().unwrap();
    let storage = calculate_storage_metrics(1000, 0, 0, 0, 0, 0, 0);
    update_storage_metrics(&mut m, &storage);
    let metrics = metric_names(&m);
    assert!(
        metrics.iter().any(|n| n == "homelab_storage_bytes"),
        "Storage metrics should exist"
    );
}

#[test]
fn requests_are_labelled_by_their_route_pattern() {
    assert_eq!(route_label(Some("/v1/content/album/{id}")), "/v1/content/album/{id}");
    assert_eq!(route_label(None), "<unmatched>");
    assert_eq!(UNMATCHED_ROUTE_LABEL, "<unmatched>");
}

#[test]
fn gauge_readings_never_turn_negative() {
    assert_eq!(pezzottify::metrics::gauge_value(42), 42);
    assert_eq!(pezzottify::metrics::gauge_value(u64::MAX), i64::MAX);
}
