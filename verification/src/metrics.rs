//! Prometheus metrics of the server: the families it exports and how events are recorded.

use prometheus::Registry;
use std::time::Duration;

use vstd::prelude::*;

use crate::prom::counter_family_arity;
use crate::prom::counter_family_values;
use crate::prom::counted;
use crate::prom::gauge_family_values;
use crate::prom::stepped;
use crate::prom::series_key;
use crate::prom::gauge_at;
use crate::prom::histogram_family_observations;
use crate::prom::observed;
use crate::prom::label_views;
use crate::prom::valid_label_name;
use crate::prom::valid_label_names;
use crate::prom::valid_metric_name;
use crate::prom::counter_metric_value;
use crate::prom::gauge_metric_value;
use crate::prom::histogram_metric_observations;
use crate::prom::wrapping_add;
use crate::prom::CounterFamily;
use crate::prom::gathered_family_names;
use crate::prom::gauge_family_arity;
use crate::prom::GaugeFamily;
use crate::prom::accepted_bounds;
use crate::prom::accepted_histogram_labels;
use crate::prom::histogram_family_arity;
use crate::prom::histogram_family_bounds;
use crate::prom::histogram_family_label_names;
use crate::prom::HistogramFamily;
use crate::prom::registry_new;
use crate::prom::histogram_metric_name;
use crate::prom::gauge_metric_name;
use crate::prom::counter_metric_name;
use crate::prom::histogram_family_name;
use crate::prom::gauge_family_name;
use crate::prom::counter_family_name;
use crate::prom::registry_free_for;
use crate::prom::registered_one;
use crate::prom::descriptor_id;
use crate::prom::registry_dimension_names;
use crate::prom::registry_descriptor_ids;
use crate::prom::registry_collectors;
use crate::prom::CounterMetric;
use crate::prom::GaugeMetric;
use crate::prom::HistogramMetric;
use crate::text::decimal;
use crate::text::decimal_string;
use crate::text::has_prefix;
use crate::text::starts_with;
use crate::text::str_eq;

verus! {

/// Why the metric families could not be created.
#[derive(Clone, Copy, Debug, PartialEq, Eq, Structural)]
pub enum MetricsError {
    /// A metric name, help text or label name was rejected by the client library.
    InvalidDefinition,
}

/// The server's metric families and the registry they are exported from.
pub struct Metrics {
    pub registry: Registry,
    pub http_requests_total: CounterFamily,
    pub http_request_duration_seconds: HistogramFamily,
    pub auth_login_attempts_total: CounterFamily,
    pub auth_login_duration_seconds: HistogramMetric,
    pub auth_active_sessions: GaugeMetric,
    pub rate_limit_hits_total: CounterFamily,
    pub db_query_duration_seconds: HistogramFamily,
    pub db_connection_errors_total: CounterMetric,
    pub db_executor_queue_wait_seconds: HistogramFamily,
    pub db_executor_execution_seconds: HistogramFamily,
    pub db_executor_operations_total: CounterFamily,
    pub db_executor_queued: GaugeFamily,
    pub db_executor_active: GaugeFamily,
    pub blocking_work_queue_wait_seconds: HistogramFamily,
    pub blocking_work_execution_seconds: HistogramFamily,
    pub blocking_work_operations_total: CounterFamily,
    pub blocking_work_waiting: GaugeFamily,
    pub blocking_work_active: GaugeFamily,
    pub catalog_items_total: GaugeFamily,
    pub catalog_size_bytes: GaugeMetric,
    pub errors_total: CounterFamily,
    pub process_memory_bytes: GaugeMetric,
    pub bandwidth_bytes_total: CounterFamily,
    pub bandwidth_requests_total: CounterFamily,
    pub listening_events_total: CounterFamily,
    pub listening_duration_seconds_total: CounterFamily,
    pub changelog_stale_batches: GaugeMetric,
    pub changelog_stale_batch_checks_total: CounterMetric,
    pub downloader_requests_total: CounterFamily,
    pub downloader_request_duration_seconds: HistogramFamily,
    pub downloader_errors_total: CounterFamily,
    pub downloader_bytes_total: CounterFamily,
    pub download_queue_stale_in_progress: GaugeMetric,
    pub download_queue_size: GaugeFamily,
    pub download_processed_total: CounterFamily,
    pub download_processing_duration_seconds: HistogramFamily,
    pub download_capacity_used: GaugeFamily,
    pub download_user_requests_total: CounterFamily,
    pub download_audit_events_total: CounterFamily,
    pub download_throttle_bytes: GaugeFamily,
    pub download_throttle_limit_bytes: GaugeFamily,
    pub download_throttle_is_throttled: GaugeMetric,
    pub corruption_handler_level: GaugeMetric,
    pub corruption_handler_in_cooldown: GaugeMetric,
    pub corruption_handler_cooldown_secs: GaugeMetric,
    pub corruption_handler_restarts_total: CounterMetric,
    pub corruption_handler_corruptions_total: CounterMetric,
    pub background_job_executions_total: CounterFamily,
    pub background_job_duration_seconds: HistogramFamily,
    pub background_job_running: GaugeFamily,
    pub background_job_queued: GaugeFamily,
    pub background_job_active: GaugeFamily,
    pub background_job_queue_wait_seconds: HistogramFamily,
    pub background_job_circuit_open: GaugeFamily,
    pub background_job_circuit_trips_total: CounterFamily,
    pub homelab_storage_bytes: GaugeFamily,
}


/// One of the metrics that [`Metrics`] holds.
#[derive(Clone, Copy, Debug, PartialEq, Eq, Structural)]
pub enum MetricId {
    HttpRequestsTotal,
    HttpRequestDurationSeconds,
    AuthLoginAttemptsTotal,
    AuthLoginDurationSeconds,
    AuthActiveSessions,
    RateLimitHitsTotal,
    DbQueryDurationSeconds,
    DbConnectionErrorsTotal,
    DbExecutorQueueWaitSeconds,
    DbExecutorExecutionSeconds,
    DbExecutorOperationsTotal,
    DbExecutorQueued,
    DbExecutorActive,
    BlockingWorkQueueWaitSeconds,
    BlockingWorkExecutionSeconds,
    BlockingWorkOperationsTotal,
    BlockingWorkWaiting,
    BlockingWorkActive,
    CatalogItemsTotal,
    CatalogSizeBytes,
    ErrorsTotal,
    ProcessMemoryBytes,
    BandwidthBytesTotal,
    BandwidthRequestsTotal,
    ListeningEventsTotal,
    ListeningDurationSecondsTotal,
    ChangelogStaleBatches,
    ChangelogStaleBatchChecksTotal,
    DownloaderRequestsTotal,
    DownloaderRequestDurationSeconds,
    DownloaderErrorsTotal,
    DownloaderBytesTotal,
    DownloadQueueStaleInProgress,
    DownloadQueueSize,
    DownloadProcessedTotal,
    DownloadProcessingDurationSeconds,
    DownloadCapacityUsed,
    DownloadUserRequestsTotal,
    DownloadAuditEventsTotal,
    DownloadThrottleBytes,
    DownloadThrottleLimitBytes,
    DownloadThrottleIsThrottled,
    CorruptionHandlerLevel,
    CorruptionHandlerInCooldown,
    CorruptionHandlerCooldownSecs,
    CorruptionHandlerRestartsTotal,
    CorruptionHandlerCorruptionsTotal,
    BackgroundJobExecutionsTotal,
    BackgroundJobDurationSeconds,
    BackgroundJobRunning,
    BackgroundJobQueued,
    BackgroundJobActive,
    BackgroundJobQueueWaitSeconds,
    BackgroundJobCircuitOpen,
    BackgroundJobCircuitTripsTotal,
    HomelabStorageBytes,
}

/// Whether the metric `id` is the same in `a` and `b`.
pub open spec fn same_metric(a: Metrics, b: Metrics, id: MetricId) -> bool {
    match id {
        MetricId::HttpRequestsTotal => a.http_requests_total == b.http_requests_total,
        MetricId::HttpRequestDurationSeconds => a.http_request_duration_seconds == b.http_request_duration_seconds,
        MetricId::AuthLoginAttemptsTotal => a.auth_login_attempts_total == b.auth_login_attempts_total,
        MetricId::AuthLoginDurationSeconds => a.auth_login_duration_seconds == b.auth_login_duration_seconds,
        MetricId::AuthActiveSessions => a.auth_active_sessions == b.auth_active_sessions,
        MetricId::RateLimitHitsTotal => a.rate_limit_hits_total == b.rate_limit_hits_total,
        MetricId::DbQueryDurationSeconds => a.db_query_duration_seconds == b.db_query_duration_seconds,
        MetricId::DbConnectionErrorsTotal => a.db_connection_errors_total == b.db_connection_errors_total,
        MetricId::DbExecutorQueueWaitSeconds => a.db_executor_queue_wait_seconds == b.db_executor_queue_wait_seconds,
        MetricId::DbExecutorExecutionSeconds => a.db_executor_execution_seconds == b.db_executor_execution_seconds,
        MetricId::DbExecutorOperationsTotal => a.db_executor_operations_total == b.db_executor_operations_total,
        MetricId::DbExecutorQueued => a.db_executor_queued == b.db_executor_queued,
        MetricId::DbExecutorActive => a.db_executor_active == b.db_executor_active,
        MetricId::BlockingWorkQueueWaitSeconds => a.blocking_work_queue_wait_seconds == b.blocking_work_queue_wait_seconds,
        MetricId::BlockingWorkExecutionSeconds => a.blocking_work_execution_seconds == b.blocking_work_execution_seconds,
        MetricId::BlockingWorkOperationsTotal => a.blocking_work_operations_total == b.blocking_work_operations_total,
        MetricId::BlockingWorkWaiting => a.blocking_work_waiting == b.blocking_work_waiting,
        MetricId::BlockingWorkActive => a.blocking_work_active == b.blocking_work_active,
        MetricId::CatalogItemsTotal => a.catalog_items_total == b.catalog_items_total,
        MetricId::CatalogSizeBytes => a.catalog_size_bytes == b.catalog_size_bytes,
        MetricId::ErrorsTotal => a.errors_total == b.errors_total,
        MetricId::ProcessMemoryBytes => a.process_memory_bytes == b.process_memory_bytes,
        MetricId::BandwidthBytesTotal => a.bandwidth_bytes_total == b.bandwidth_bytes_total,
        MetricId::BandwidthRequestsTotal => a.bandwidth_requests_total == b.bandwidth_requests_total,
        MetricId::ListeningEventsTotal => a.listening_events_total == b.listening_events_total,
        MetricId::ListeningDurationSecondsTotal => a.listening_duration_seconds_total == b.listening_duration_seconds_total,
        MetricId::ChangelogStaleBatches => a.changelog_stale_batches == b.changelog_stale_batches,
        MetricId::ChangelogStaleBatchChecksTotal => a.changelog_stale_batch_checks_total == b.changelog_stale_batch_checks_total,
        MetricId::DownloaderRequestsTotal => a.downloader_requests_total == b.downloader_requests_total,
        MetricId::DownloaderRequestDurationSeconds => a.downloader_request_duration_seconds == b.downloader_request_duration_seconds,
        MetricId::DownloaderErrorsTotal => a.downloader_errors_total == b.downloader_errors_total,
        MetricId::DownloaderBytesTotal => a.downloader_bytes_total == b.downloader_bytes_total,
        MetricId::DownloadQueueStaleInProgress => a.download_queue_stale_in_progress == b.download_queue_stale_in_progress,
        MetricId::DownloadQueueSize => a.download_queue_size == b.download_queue_size,
        MetricId::DownloadProcessedTotal => a.download_processed_total == b.download_processed_total,
        MetricId::DownloadProcessingDurationSeconds => a.download_processing_duration_seconds == b.download_processing_duration_seconds,
        MetricId::DownloadCapacityUsed => a.download_capacity_used == b.download_capacity_used,
        MetricId::DownloadUserRequestsTotal => a.download_user_requests_total == b.download_user_requests_total,
        MetricId::DownloadAuditEventsTotal => a.download_audit_events_total == b.download_audit_events_total,
        MetricId::DownloadThrottleBytes => a.download_throttle_bytes == b.download_throttle_bytes,
        MetricId::DownloadThrottleLimitBytes => a.download_throttle_limit_bytes == b.download_throttle_limit_bytes,
        MetricId::DownloadThrottleIsThrottled => a.download_throttle_is_throttled == b.download_throttle_is_throttled,
        MetricId::CorruptionHandlerLevel => a.corruption_handler_level == b.corruption_handler_level,
        MetricId::CorruptionHandlerInCooldown => a.corruption_handler_in_cooldown == b.corruption_handler_in_cooldown,
        MetricId::CorruptionHandlerCooldownSecs => a.corruption_handler_cooldown_secs == b.corruption_handler_cooldown_secs,
        MetricId::CorruptionHandlerRestartsTotal => a.corruption_handler_restarts_total == b.corruption_handler_restarts_total,
        MetricId::CorruptionHandlerCorruptionsTotal => a.corruption_handler_corruptions_total == b.corruption_handler_corruptions_total,
        MetricId::BackgroundJobExecutionsTotal => a.background_job_executions_total == b.background_job_executions_total,
        MetricId::BackgroundJobDurationSeconds => a.background_job_duration_seconds == b.background_job_duration_seconds,
        MetricId::BackgroundJobRunning => a.background_job_running == b.background_job_running,
        MetricId::BackgroundJobQueued => a.background_job_queued == b.background_job_queued,
        MetricId::BackgroundJobActive => a.background_job_active == b.background_job_active,
        MetricId::BackgroundJobQueueWaitSeconds => a.background_job_queue_wait_seconds == b.background_job_queue_wait_seconds,
        MetricId::BackgroundJobCircuitOpen => a.background_job_circuit_open == b.background_job_circuit_open,
        MetricId::BackgroundJobCircuitTripsTotal => a.background_job_circuit_trips_total == b.background_job_circuit_trips_total,
        MetricId::HomelabStorageBytes => a.homelab_storage_bytes == b.homelab_storage_bytes,
    }
}

/// `b` is `a` with at most the metrics in `touched` changed (the registry included).
pub open spec fn changed_only(a: Metrics, b: Metrics, touched: Set<MetricId>) -> bool {
    &&& a.registry == b.registry
    &&& forall|id: MetricId| !touched.contains(id) ==> #[trigger] same_metric(a, b, id)
}

impl Metrics {
    /// Every labelled family takes as many label values as it was declared with.
    pub closed spec fn wf(&self) -> bool {
        &&& counter_family_arity(self.http_requests_total) == 3
        &&& histogram_family_arity(self.http_request_duration_seconds) == 2
        &&& counter_family_arity(self.auth_login_attempts_total) == 1
        &&& counter_family_arity(self.rate_limit_hits_total) == 2
        &&& histogram_family_arity(self.db_query_duration_seconds) == 1
        &&& histogram_family_arity(self.db_executor_queue_wait_seconds) == 2
        &&& histogram_family_arity(self.db_executor_execution_seconds) == 2
        &&& counter_family_arity(self.db_executor_operations_total) == 3
        &&& gauge_family_arity(self.db_executor_queued) == 1
        &&& gauge_family_arity(self.db_executor_active) == 1
        &&& histogram_family_arity(self.blocking_work_queue_wait_seconds) == 1
        &&& histogram_family_arity(self.blocking_work_execution_seconds) == 1
        &&& counter_family_arity(self.blocking_work_operations_total) == 2
        &&& gauge_family_arity(self.blocking_work_waiting) == 1
        &&& gauge_family_arity(self.blocking_work_active) == 1
        &&& gauge_family_arity(self.catalog_items_total) == 1
        &&& counter_family_arity(self.errors_total) == 2
        &&& counter_family_arity(self.bandwidth_bytes_total) == 2
        &&& counter_family_arity(self.bandwidth_requests_total) == 1
        &&& counter_family_arity(self.listening_events_total) == 2
        &&& counter_family_arity(self.listening_duration_seconds_total) == 1
        &&& counter_family_arity(self.downloader_requests_total) == 2
        &&& histogram_family_arity(self.downloader_request_duration_seconds) == 1
        &&& counter_family_arity(self.downloader_errors_total) == 2
        &&& counter_family_arity(self.downloader_bytes_total) == 1
        &&& gauge_family_arity(self.download_queue_size) == 2
        &&& counter_family_arity(self.download_processed_total) == 2
        &&& histogram_family_arity(self.download_processing_duration_seconds) == 1
        &&& gauge_family_arity(self.download_capacity_used) == 1
        &&& counter_family_arity(self.download_user_requests_total) == 1
        &&& counter_family_arity(self.download_audit_events_total) == 1
        &&& gauge_family_arity(self.download_throttle_bytes) == 1
        &&& gauge_family_arity(self.download_throttle_limit_bytes) == 1
        &&& counter_family_arity(self.background_job_executions_total) == 2
        &&& histogram_family_arity(self.background_job_duration_seconds) == 1
        &&& gauge_family_arity(self.background_job_running) == 1
        &&& gauge_family_arity(self.background_job_queued) == 1
        &&& gauge_family_arity(self.background_job_active) == 1
        &&& histogram_family_arity(self.background_job_queue_wait_seconds) == 1
        &&& gauge_family_arity(self.background_job_circuit_open) == 1
        &&& counter_family_arity(self.background_job_circuit_trips_total) == 1
        &&& gauge_family_arity(self.homelab_storage_bytes) == 2
        &&& usable_histogram(self.http_request_duration_seconds)
        &&& usable_histogram(self.db_query_duration_seconds)
        &&& usable_histogram(self.db_executor_queue_wait_seconds)
        &&& usable_histogram(self.db_executor_execution_seconds)
        &&& usable_histogram(self.blocking_work_queue_wait_seconds)
        &&& usable_histogram(self.blocking_work_execution_seconds)
        &&& usable_histogram(self.downloader_request_duration_seconds)
        &&& usable_histogram(self.download_processing_duration_seconds)
        &&& usable_histogram(self.background_job_duration_seconds)
        &&& usable_histogram(self.background_job_queue_wait_seconds)
    }
}

impl Metrics {
    /// Nothing recorded yet: no labelled series made, every single metric at 0 and every
    /// histogram empty.
    pub open spec fn is_fresh(&self) -> bool {
        &&& counter_family_values(self.http_requests_total).dom().is_empty()
        &&& histogram_family_observations(self.http_request_duration_seconds).dom().is_empty()
        &&& counter_family_values(self.auth_login_attempts_total).dom().is_empty()
        &&& histogram_metric_observations(self.auth_login_duration_seconds).len() == 0
        &&& gauge_metric_value(self.auth_active_sessions) == 0
        &&& counter_family_values(self.rate_limit_hits_total).dom().is_empty()
        &&& histogram_family_observations(self.db_query_duration_seconds).dom().is_empty()
        &&& counter_metric_value(self.db_connection_errors_total) == 0
        &&& histogram_family_observations(self.db_executor_queue_wait_seconds).dom().is_empty()
        &&& histogram_family_observations(self.db_executor_execution_seconds).dom().is_empty()
        &&& counter_family_values(self.db_executor_operations_total).dom().is_empty()
        &&& gauge_family_values(self.db_executor_queued).dom().is_empty()
        &&& gauge_family_values(self.db_executor_active).dom().is_empty()
        &&& histogram_family_observations(self.blocking_work_queue_wait_seconds).dom().is_empty()
        &&& histogram_family_observations(self.blocking_work_execution_seconds).dom().is_empty()
        &&& counter_family_values(self.blocking_work_operations_total).dom().is_empty()
        &&& gauge_family_values(self.blocking_work_waiting).dom().is_empty()
        &&& gauge_family_values(self.blocking_work_active).dom().is_empty()
        &&& gauge_family_values(self.catalog_items_total).dom().is_empty()
        &&& gauge_metric_value(self.catalog_size_bytes) == 0
        &&& counter_family_values(self.errors_total).dom().is_empty()
        &&& gauge_metric_value(self.process_memory_bytes) == 0
        &&& counter_family_values(self.bandwidth_bytes_total).dom().is_empty()
        &&& counter_family_values(self.bandwidth_requests_total).dom().is_empty()
        &&& counter_family_values(self.listening_events_total).dom().is_empty()
        &&& counter_family_values(self.listening_duration_seconds_total).dom().is_empty()
        &&& gauge_metric_value(self.changelog_stale_batches) == 0
        &&& counter_metric_value(self.changelog_stale_batch_checks_total) == 0
        &&& counter_family_values(self.downloader_requests_total).dom().is_empty()
        &&& histogram_family_observations(self.downloader_request_duration_seconds).dom().is_empty()
        &&& counter_family_values(self.downloader_errors_total).dom().is_empty()
        &&& counter_family_values(self.downloader_bytes_total).dom().is_empty()
        &&& gauge_metric_value(self.download_queue_stale_in_progress) == 0
        &&& gauge_family_values(self.download_queue_size).dom().is_empty()
        &&& counter_family_values(self.download_processed_total).dom().is_empty()
        &&& histogram_family_observations(self.download_processing_duration_seconds).dom().is_empty()
        &&& gauge_family_values(self.download_capacity_used).dom().is_empty()
        &&& counter_family_values(self.download_user_requests_total).dom().is_empty()
        &&& counter_family_values(self.download_audit_events_total).dom().is_empty()
        &&& gauge_family_values(self.download_throttle_bytes).dom().is_empty()
        &&& gauge_family_values(self.download_throttle_limit_bytes).dom().is_empty()
        &&& gauge_metric_value(self.download_throttle_is_throttled) == 0
        &&& gauge_metric_value(self.corruption_handler_level) == 0
        &&& gauge_metric_value(self.corruption_handler_in_cooldown) == 0
        &&& gauge_metric_value(self.corruption_handler_cooldown_secs) == 0
        &&& counter_metric_value(self.corruption_handler_restarts_total) == 0
        &&& counter_metric_value(self.corruption_handler_corruptions_total) == 0
        &&& counter_family_values(self.background_job_executions_total).dom().is_empty()
        &&& histogram_family_observations(self.background_job_duration_seconds).dom().is_empty()
        &&& gauge_family_values(self.background_job_running).dom().is_empty()
        &&& gauge_family_values(self.background_job_queued).dom().is_empty()
        &&& gauge_family_values(self.background_job_active).dom().is_empty()
        &&& histogram_family_observations(self.background_job_queue_wait_seconds).dom().is_empty()
        &&& gauge_family_values(self.background_job_circuit_open).dom().is_empty()
        &&& counter_family_values(self.background_job_circuit_trips_total).dom().is_empty()
        &&& gauge_family_values(self.homelab_storage_bytes).dom().is_empty()
    }
}

/// A histogram family whose children the client can make: accepted bounds, and no label
/// named `le`.
pub open spec fn usable_histogram(h: HistogramFamily) -> bool {
    accepted_bounds(histogram_family_bounds(h)) && accepted_histogram_labels(histogram_family_label_names(h))
}

/// None of the histogram label names used here is `le`.
proof fn lemma_histogram_label_names()
    ensures
        "pool"@ != "le"@,
        "method"@ != "le"@,
        "lane"@ != "le"@,
        "content_type"@ != "le"@,
        "resource_class"@ != "le"@,
        "operation"@ != "le"@,
        "path"@ != "le"@,
        "priority"@ != "le"@,
        "job_id"@ != "le"@,
{
    reveal_strlit("le");
    reveal_strlit("pool");
    reveal_strlit("method");
    reveal_strlit("lane");
    reveal_strlit("content_type");
    reveal_strlit("resource_class");
    reveal_strlit("operation");
    reveal_strlit("path");
    reveal_strlit("priority");
    reveal_strlit("job_id");
    assert("le"@.len() == 2);
    assert("pool"@.len() == 4);
    assert("method"@.len() == 6);
    assert("lane"@.len() == 4);
    assert("content_type"@.len() == 12);
    assert("resource_class"@.len() == 14);
    assert("operation"@.len() == 9);
    assert("path"@.len() == 4);
    assert("priority"@.len() == 8);
    assert("job_id"@.len() == 6);
}

/// The names and help texts of a group of metric definitions are accepted.
proof fn lemma_definitions_accepted_0()
    ensures
        valid_metric_name("pezzottify_http_requests_total"@),
        "Total number of HTTP requests"@.len() > 0,
        valid_metric_name("pezzottify_http_request_duration_seconds"@),
        "HTTP request duration in seconds"@.len() > 0,
        valid_metric_name("pezzottify_auth_login_attempts_total"@),
        "Total login attempts"@.len() > 0,
        valid_metric_name("pezzottify_auth_login_duration_seconds"@),
        "Login request duration in seconds"@.len() > 0,
        valid_metric_name("pezzottify_auth_active_sessions"@),
        "Number of active authentication sessions"@.len() > 0,
        valid_metric_name("pezzottify_rate_limit_hits_total"@),
        "Rate limit violations"@.len() > 0,
        valid_metric_name("pezzottify_db_query_duration_seconds"@),
        "Database query duration in seconds"@.len() > 0,
        valid_metric_name("pezzottify_db_connection_errors_total"@),
        "Total database connection errors"@.len() > 0,
{
    reveal_strlit("pezzottify_http_requests_total");
    reveal_strlit("Total number of HTTP requests");
    reveal_strlit("pezzottify_http_request_duration_seconds");
    reveal_strlit("HTTP request duration in seconds");
    reveal_strlit("pezzottify_auth_login_attempts_total");
    reveal_strlit("Total login attempts");
    reveal_strlit("pezzottify_auth_login_duration_seconds");
    reveal_strlit("Login request duration in seconds");
    reveal_strlit("pezzottify_auth_active_sessions");
    reveal_strlit("Number of active authentication sessions");
    reveal_strlit("pezzottify_rate_limit_hits_total");
    reveal_strlit("Rate limit violations");
    reveal_strlit("pezzottify_db_query_duration_seconds");
    reveal_strlit("Database query duration in seconds");
    reveal_strlit("pezzottify_db_connection_errors_total");
    reveal_strlit("Total database connection errors");
}

/// The names and help texts of a group of metric definitions are accepted.
proof fn lemma_definitions_accepted_1()
    ensures
        valid_metric_name("pezzottify_db_executor_queue_wait_seconds"@),
        "Time database operations spend waiting for an executor worker"@.len() > 0,
        valid_metric_name("pezzottify_db_executor_execution_seconds"@),
        "Time database operations spend executing on a worker"@.len() > 0,
        valid_metric_name("pezzottify_db_executor_operations_total"@),
        "Database executor operations by outcome"@.len() > 0,
        valid_metric_name("pezzottify_db_executor_queued"@),
        "Database operations currently queued by priority"@.len() > 0,
        valid_metric_name("pezzottify_db_executor_active"@),
        "Database operations currently executing by lane"@.len() > 0,
        valid_metric_name("pezzottify_blocking_work_queue_wait_seconds"@),
        "Time bounded blocking work spends waiting for capacity"@.len() > 0,
        valid_metric_name("pezzottify_blocking_work_execution_seconds"@),
        "Time bounded blocking work spends executing"@.len() > 0,
        valid_metric_name("pezzottify_blocking_work_operations_total"@),
        "Bounded blocking work operations by outcome"@.len() > 0,
{
    reveal_strlit("pezzottify_db_executor_queue_wait_seconds");
    reveal_strlit("Time database operations spend waiting for an executor worker");
    reveal_strlit("pezzottify_db_executor_execution_seconds");
    reveal_strlit("Time database operations spend executing on a worker");
    reveal_strlit("pezzottify_db_executor_operations_total");
    reveal_strlit("Database executor operations by outcome");
    reveal_strlit("pezzottify_db_executor_queued");
    reveal_strlit("Database operations currently queued by priority");
    reveal_strlit("pezzottify_db_executor_active");
    reveal_strlit("Database operations currently executing by lane");
    reveal_strlit("pezzottify_blocking_work_queue_wait_seconds");
    reveal_strlit("Time bounded blocking work spends waiting for capacity");
    reveal_strlit("pezzottify_blocking_work_execution_seconds");
    reveal_strlit("Time bounded blocking work spends executing");
    reveal_strlit("pezzottify_blocking_work_operations_total");
    reveal_strlit("Bounded blocking work operations by outcome");
}

/// The names and help texts of a group of metric definitions are accepted.
proof fn lemma_definitions_accepted_2()
    ensures
        valid_metric_name("pezzottify_blocking_work_waiting"@),
        "Bounded blocking operations currently waiting for capacity"@.len() > 0,
        valid_metric_name("pezzottify_blocking_work_active"@),
        "Bounded blocking operations currently executing"@.len() > 0,
        valid_metric_name("pezzottify_catalog_items_total"@),
        "Total items in catalog"@.len() > 0,
        valid_metric_name("pezzottify_catalog_size_bytes"@),
        "Catalog size in bytes"@.len() > 0,
        valid_metric_name("pezzottify_errors_total"@),
        "Total errors by type and endpoint"@.len() > 0,
        valid_metric_name("pezzottify_process_memory_bytes"@),
        "Process memory usage in bytes"@.len() > 0,
        valid_metric_name("pezzottify_bandwidth_bytes_total"@),
        "Total bytes transferred by endpoint category"@.len() > 0,
        valid_metric_name("pezzottify_bandwidth_requests_total"@),
        "Total requests by endpoint category"@.len() > 0,
{
    reveal_strlit("pezzottify_blocking_work_waiting");
    reveal_strlit("Bounded blocking operations currently waiting for capacity");
    reveal_strlit("pezzottify_blocking_work_active");
    reveal_strlit("Bounded blocking operations currently executing");
    reveal_strlit("pezzottify_catalog_items_total");
    reveal_strlit("Total items in catalog");
    reveal_strlit("pezzottify_catalog_size_bytes");
    reveal_strlit("Catalog size in bytes");
    reveal_strlit("pezzottify_errors_total");
    reveal_strlit("Total errors by type and endpoint");
    reveal_strlit("pezzottify_process_memory_bytes");
    reveal_strlit("Process memory usage in bytes");
    reveal_strlit("pezzottify_bandwidth_bytes_total");
    reveal_strlit("Total bytes transferred by endpoint category");
    reveal_strlit("pezzottify_bandwidth_requests_total");
    reveal_strlit("Total requests by endpoint category");
}

/// The names and help texts of a group of metric definitions are accepted.
proof fn lemma_definitions_accepted_3()
    ensures
        valid_metric_name("pezzottify_listening_events_total"@),
        "Total listening events recorded"@.len() > 0,
        valid_metric_name("pezzottify_listening_duration_seconds_total"@),
        "Total listening duration in seconds"@.len() > 0,
        valid_metric_name("pezzottify_changelog_stale_batches"@),
        "Number of changelog batches that have been open longer than the stale threshold"@.len() > 0,
        valid_metric_name("pezzottify_changelog_stale_batch_checks_total"@),
        "Total number of stale batch checks performed"@.len() > 0,
        valid_metric_name("pezzottify_downloader_requests_total"@),
        "Total requests to downloader service"@.len() > 0,
        valid_metric_name("pezzottify_downloader_request_duration_seconds"@),
        "Downloader request duration in seconds"@.len() > 0,
        valid_metric_name("pezzottify_downloader_errors_total"@),
        "Total downloader errors by type"@.len() > 0,
        valid_metric_name("pezzottify_downloader_bytes_total"@),
        "Total bytes downloaded from downloader service"@.len() > 0,
{
    reveal_strlit("pezzottify_listening_events_total");
    reveal_strlit("Total listening events recorded");
    reveal_strlit("pezzottify_listening_duration_seconds_total");
    reveal_strlit("Total listening duration in seconds");
    reveal_strlit("pezzottify_changelog_stale_batches");
    reveal_strlit("Number of changelog batches that have been open longer than the stale threshold");
    reveal_strlit("pezzottify_changelog_stale_batch_checks_total");
    reveal_strlit("Total number of stale batch checks performed");
    reveal_strlit("pezzottify_downloader_requests_total");
    reveal_strlit("Total requests to downloader service");
    reveal_strlit("pezzottify_downloader_request_duration_seconds");
    reveal_strlit("Downloader request duration in seconds");
    reveal_strlit("pezzottify_downloader_errors_total");
    reveal_strlit("Total downloader errors by type");
    reveal_strlit("pezzottify_downloader_bytes_total");
    reveal_strlit("Total bytes downloaded from downloader service");
}

/// The names and help texts of a group of metric definitions are accepted.
proof fn lemma_definitions_accepted_4()
    ensures
        valid_metric_name("pezzottify_download_queue_stale_in_progress"@),
        "Number of download queue items stuck in IN_PROGRESS state longer than threshold"@.len() > 0,
        valid_metric_name("pezzottify_download_queue_size"@),
        "Current download queue size by status and priority"@.len() > 0,
        valid_metric_name("pezzottify_download_processed_total"@),
        "Total processed downloads by content type and result"@.len() > 0,
        valid_metric_name("pezzottify_download_processing_duration_seconds"@),
        "Download processing duration in seconds"@.len() > 0,
        valid_metric_name("pezzottify_download_capacity_used"@),
        "Download capacity usage by period"@.len() > 0,
        valid_metric_name("pezzottify_download_user_requests_total"@),
        "Total user download requests by type"@.len() > 0,
        valid_metric_name("pezzottify_download_audit_events_total"@),
        "Total download audit events by type"@.len() > 0,
        valid_metric_name("pezzottify_download_throttle_bytes"@),
        "Current throttle bytes usage by period"@.len() > 0,
{
    reveal_strlit("pezzottify_download_queue_stale_in_progress");
    reveal_strlit("Number of download queue items stuck in IN_PROGRESS state longer than threshold");
    reveal_strlit("pezzottify_download_queue_size");
    reveal_strlit("Current download queue size by status and priority");
    reveal_strlit("pezzottify_download_processed_total");
    reveal_strlit("Total processed downloads by content type and result");
    reveal_strlit("pezzottify_download_processing_duration_seconds");
    reveal_strlit("Download processing duration in seconds");
    reveal_strlit("pezzottify_download_capacity_used");
    reveal_strlit("Download capacity usage by period");
    reveal_strlit("pezzottify_download_user_requests_total");
    reveal_strlit("Total user download requests by type");
    reveal_strlit("pezzottify_download_audit_events_total");
    reveal_strlit("Total download audit events by type");
    reveal_strlit("pezzottify_download_throttle_bytes");
    reveal_strlit("Current throttle bytes usage by period");
}

/// The names and help texts of a group of metric definitions are accepted.
proof fn lemma_definitions_accepted_5()
    ensures
        valid_metric_name("pezzottify_download_throttle_limit_bytes"@),
        "Throttle limit by period"@.len() > 0,
        valid_metric_name("pezzottify_download_throttle_is_throttled"@),
        "Whether downloads are currently throttled (1 = yes, 0 = no)"@.len() > 0,
        valid_metric_name("pezzottify_corruption_handler_level"@),
        "Current corruption handler escalation level (0 = base)"@.len() > 0,
        valid_metric_name("pezzottify_corruption_handler_in_cooldown"@),
        "Whether corruption handler is in cooldown (1 = yes, 0 = no)"@.len() > 0,
        valid_metric_name("pezzottify_corruption_handler_cooldown_remaining_secs"@),
        "Remaining cooldown time in seconds (0 if not in cooldown)"@.len() > 0,
        valid_metric_name("pezzottify_corruption_handler_restarts_total"@),
        "Total downloader restarts triggered by corruption handler"@.len() > 0,
        valid_metric_name("pezzottify_corruption_handler_corruptions_total"@),
        "Total corruption events (ffprobe failures) detected"@.len() > 0,
        valid_metric_name("pezzottify_background_job_executions_total"@),
        "Total background job executions"@.len() > 0,
{
    reveal_strlit("pezzottify_download_throttle_limit_bytes");
    reveal_strlit("Throttle limit by period");
    reveal_strlit("pezzottify_download_throttle_is_throttled");
    reveal_strlit("Whether downloads are currently throttled (1 = yes, 0 = no)");
    reveal_strlit("pezzottify_corruption_handler_level");
    reveal_strlit("Current corruption handler escalation level (0 = base)");
    reveal_strlit("pezzottify_corruption_handler_in_cooldown");
    reveal_strlit("Whether corruption handler is in cooldown (1 = yes, 0 = no)");
    reveal_strlit("pezzottify_corruption_handler_cooldown_remaining_secs");
    reveal_strlit("Remaining cooldown time in seconds (0 if not in cooldown)");
    reveal_strlit("pezzottify_corruption_handler_restarts_total");
    reveal_strlit("Total downloader restarts triggered by corruption handler");
    reveal_strlit("pezzottify_corruption_handler_corruptions_total");
    reveal_strlit("Total corruption events (ffprobe failures) detected");
    reveal_strlit("pezzottify_background_job_executions_total");
    reveal_strlit("Total background job executions");
}

/// The names and help texts of a group of metric definitions are accepted.
proof fn lemma_definitions_accepted_6()
    ensures
        valid_metric_name("pezzottify_background_job_duration_seconds"@),
        "Background job execution duration in seconds"@.len() > 0,
        valid_metric_name("pezzottify_background_job_running"@),
        "Whether a background job is currently running"@.len() > 0,
        valid_metric_name("pezzottify_background_job_queued"@),
        "Background jobs waiting for scheduler capacity"@.len() > 0,
        valid_metric_name("pezzottify_background_job_active"@),
        "Background jobs actively executing"@.len() > 0,
        valid_metric_name("pezzottify_background_job_queue_wait_seconds"@),
        "Time background jobs wait for global and resource-class capacity"@.len() > 0,
        valid_metric_name("pezzottify_background_job_circuit_open"@),
        "Whether a job circuit breaker is currently open"@.len() > 0,
        valid_metric_name("pezzottify_background_job_circuit_trips_total"@),
        "Background job circuit breaker trips"@.len() > 0,
        valid_metric_name("homelab_storage_bytes"@),
        "Storage usage in bytes"@.len() > 0,
{
    reveal_strlit("pezzottify_background_job_duration_seconds");
    reveal_strlit("Background job execution duration in seconds");
    reveal_strlit("pezzottify_background_job_running");
    reveal_strlit("Whether a background job is currently running");
    reveal_strlit("pezzottify_background_job_queued");
    reveal_strlit("Background jobs waiting for scheduler capacity");
    reveal_strlit("pezzottify_background_job_active");
    reveal_strlit("Background jobs actively executing");
    reveal_strlit("pezzottify_background_job_queue_wait_seconds");
    reveal_strlit("Time background jobs wait for global and resource-class capacity");
    reveal_strlit("pezzottify_background_job_circuit_open");
    reveal_strlit("Whether a job circuit breaker is currently open");
    reveal_strlit("pezzottify_background_job_circuit_trips_total");
    reveal_strlit("Background job circuit breaker trips");
    reveal_strlit("homelab_storage_bytes");
    reveal_strlit("Storage usage in bytes");
}

/// Each label name of the metric families is accepted.
proof fn lemma_label_names_accepted()
    ensures
        valid_label_name("client_type"@),
        valid_label_name("completed"@),
        valid_label_name("content_type"@),
        valid_label_name("direction"@),
        valid_label_name("endpoint"@),
        valid_label_name("endpoint_category"@),
        valid_label_name("error_type"@),
        valid_label_name("event_type"@),
        valid_label_name("identifier_type"@),
        valid_label_name("job_id"@),
        valid_label_name("lane"@),
        valid_label_name("method"@),
        valid_label_name("operation"@),
        valid_label_name("outcome"@),
        valid_label_name("path"@),
        valid_label_name("period"@),
        valid_label_name("pool"@),
        valid_label_name("priority"@),
        valid_label_name("request_type"@),
        valid_label_name("resource_class"@),
        valid_label_name("result"@),
        valid_label_name("service"@),
        valid_label_name("status"@),
        valid_label_name("type"@),
{
    reveal_strlit("client_type");
    reveal_strlit("completed");
    reveal_strlit("content_type");
    reveal_strlit("direction");
    reveal_strlit("endpoint");
    reveal_strlit("endpoint_category");
    reveal_strlit("error_type");
    reveal_strlit("event_type");
    reveal_strlit("identifier_type");
    reveal_strlit("job_id");
    reveal_strlit("lane");
    reveal_strlit("method");
    reveal_strlit("operation");
    reveal_strlit("outcome");
    reveal_strlit("path");
    reveal_strlit("period");
    reveal_strlit("pool");
    reveal_strlit("priority");
    reveal_strlit("request_type");
    reveal_strlit("resource_class");
    reveal_strlit("result");
    reveal_strlit("service");
    reveal_strlit("status");
    reveal_strlit("type");
}

/// The label lists of the metric families are accepted.
proof fn lemma_label_lists_accepted()
    ensures
        valid_label_names(seq!["method"@, "path"@, "status"@]),
        valid_label_names(seq!["method"@, "path"@]),
        valid_label_names(seq!["status"@]),
        valid_label_names(seq!["endpoint"@, "identifier_type"@]),
        valid_label_names(seq!["operation"@]),
        valid_label_names(seq!["lane"@, "priority"@]),
        valid_label_names(seq!["lane"@, "priority"@, "outcome"@]),
        valid_label_names(seq!["priority"@]),
        valid_label_names(seq!["lane"@]),
        valid_label_names(seq!["pool"@]),
        valid_label_names(seq!["pool"@, "outcome"@]),
        valid_label_names(seq!["type"@]),
        valid_label_names(seq!["error_type"@, "endpoint"@]),
        valid_label_names(seq!["endpoint_category"@, "direction"@]),
        valid_label_names(seq!["endpoint_category"@]),
        valid_label_names(seq!["client_type"@, "completed"@]),
        valid_label_names(seq!["client_type"@]),
        valid_label_names(seq!["operation"@, "status"@]),
        valid_label_names(seq!["operation"@, "error_type"@]),
        valid_label_names(seq!["content_type"@]),
        valid_label_names(seq!["status"@, "priority"@]),
        valid_label_names(seq!["content_type"@, "result"@]),
        valid_label_names(seq!["period"@]),
        valid_label_names(seq!["request_type"@]),
        valid_label_names(seq!["event_type"@]),
        valid_label_names(seq!["job_id"@, "status"@]),
        valid_label_names(seq!["job_id"@]),
        valid_label_names(seq!["resource_class"@]),
        valid_label_names(seq!["service"@, "path"@]),
{
    lemma_label_names_accepted();
    reveal_strlit("client_type");
    reveal_strlit("completed");
    reveal_strlit("content_type");
    reveal_strlit("direction");
    reveal_strlit("endpoint");
    reveal_strlit("endpoint_category");
    reveal_strlit("error_type");
    reveal_strlit("event_type");
    reveal_strlit("identifier_type");
    reveal_strlit("job_id");
    reveal_strlit("lane");
    reveal_strlit("method");
    reveal_strlit("operation");
    reveal_strlit("outcome");
    reveal_strlit("path");
    reveal_strlit("period");
    reveal_strlit("pool");
    reveal_strlit("priority");
    reveal_strlit("request_type");
    reveal_strlit("resource_class");
    reveal_strlit("result");
    reveal_strlit("service");
    reveal_strlit("status");
    reveal_strlit("type");
    assert(seq!["method"@, "path"@, "status"@].len() == 3 && seq!["method"@, "path"@, "status"@][0] == "method"@ && seq!["method"@, "path"@, "status"@][1] == "path"@ && seq!["method"@, "path"@, "status"@][2] == "status"@);
    assert(seq!["method"@, "path"@].len() == 2 && seq!["method"@, "path"@][0] == "method"@ && seq!["method"@, "path"@][1] == "path"@);
    assert(seq!["status"@].len() == 1 && seq!["status"@][0] == "status"@);
    assert(seq!["endpoint"@, "identifier_type"@].len() == 2 && seq!["endpoint"@, "identifier_type"@][0] == "endpoint"@ && seq!["endpoint"@, "identifier_type"@][1] == "identifier_type"@);
    assert(seq!["operation"@].len() == 1 && seq!["operation"@][0] == "operation"@);
    assert(seq!["lane"@, "priority"@].len() == 2 && seq!["lane"@, "priority"@][0] == "lane"@ && seq!["lane"@, "priority"@][1] == "priority"@);
    assert(seq!["lane"@, "priority"@, "outcome"@].len() == 3 && seq!["lane"@, "priority"@, "outcome"@][0] == "lane"@ && seq!["lane"@, "priority"@, "outcome"@][1] == "priority"@ && seq!["lane"@, "priority"@, "outcome"@][2] == "outcome"@);
    assert(seq!["priority"@].len() == 1 && seq!["priority"@][0] == "priority"@);
    assert(seq!["lane"@].len() == 1 && seq!["lane"@][0] == "lane"@);
    assert(seq!["pool"@].len() == 1 && seq!["pool"@][0] == "pool"@);
    assert(seq!["pool"@, "outcome"@].len() == 2 && seq!["pool"@, "outcome"@][0] == "pool"@ && seq!["pool"@, "outcome"@][1] == "outcome"@);
    assert(seq!["type"@].len() == 1 && seq!["type"@][0] == "type"@);
    assert(seq!["error_type"@, "endpoint"@].len() == 2 && seq!["error_type"@, "endpoint"@][0] == "error_type"@ && seq!["error_type"@, "endpoint"@][1] == "endpoint"@);
    assert(seq!["endpoint_category"@, "direction"@].len() == 2 && seq!["endpoint_category"@, "direction"@][0] == "endpoint_category"@ && seq!["endpoint_category"@, "direction"@][1] == "direction"@);
    assert(seq!["endpoint_category"@].len() == 1 && seq!["endpoint_category"@][0] == "endpoint_category"@);
    assert(seq!["client_type"@, "completed"@].len() == 2 && seq!["client_type"@, "completed"@][0] == "client_type"@ && seq!["client_type"@, "completed"@][1] == "completed"@);
    assert(seq!["client_type"@].len() == 1 && seq!["client_type"@][0] == "client_type"@);
    assert(seq!["operation"@, "status"@].len() == 2 && seq!["operation"@, "status"@][0] == "operation"@ && seq!["operation"@, "status"@][1] == "status"@);
    assert(seq!["operation"@, "error_type"@].len() == 2 && seq!["operation"@, "error_type"@][0] == "operation"@ && seq!["operation"@, "error_type"@][1] == "error_type"@);
    assert(seq!["content_type"@].len() == 1 && seq!["content_type"@][0] == "content_type"@);
    assert(seq!["status"@, "priority"@].len() == 2 && seq!["status"@, "priority"@][0] == "status"@ && seq!["status"@, "priority"@][1] == "priority"@);
    assert(seq!["content_type"@, "result"@].len() == 2 && seq!["content_type"@, "result"@][0] == "content_type"@ && seq!["content_type"@, "result"@][1] == "result"@);
    assert(seq!["period"@].len() == 1 && seq!["period"@][0] == "period"@);
    assert(seq!["request_type"@].len() == 1 && seq!["request_type"@][0] == "request_type"@);
    assert(seq!["event_type"@].len() == 1 && seq!["event_type"@][0] == "event_type"@);
    assert(seq!["job_id"@, "status"@].len() == 2 && seq!["job_id"@, "status"@][0] == "job_id"@ && seq!["job_id"@, "status"@][1] == "status"@);
    assert(seq!["job_id"@].len() == 1 && seq!["job_id"@][0] == "job_id"@);
    assert(seq!["resource_class"@].len() == 1 && seq!["resource_class"@][0] == "resource_class"@);
    assert(seq!["service"@, "path"@].len() == 2 && seq!["service"@, "path"@][0] == "service"@ && seq!["service"@, "path"@][1] == "path"@);
}

/// Number of metrics declared.
pub const DECLARED_METRICS: usize = 56;

/// The name of the `k`-th declared metric, in the order they are registered.
#[verifier::opaque]
pub open spec fn declared_name(k: int) -> Seq<char> {
    if k == 0 {
        "pezzottify_http_requests_total"@
    } else if k == 1 {
        "pezzottify_http_request_duration_seconds"@
    } else if k == 2 {
        "pezzottify_auth_login_attempts_total"@
    } else if k == 3 {
        "pezzottify_auth_login_duration_seconds"@
    } else if k == 4 {
        "pezzottify_auth_active_sessions"@
    } else if k == 5 {
        "pezzottify_rate_limit_hits_total"@
    } else if k == 6 {
        "pezzottify_db_query_duration_seconds"@
    } else if k == 7 {
        "pezzottify_db_connection_errors_total"@
    } else if k == 8 {
        "pezzottify_db_executor_queue_wait_seconds"@
    } else if k == 9 {
        "pezzottify_db_executor_execution_seconds"@
    } else if k == 10 {
        "pezzottify_db_executor_operations_total"@
    } else if k == 11 {
        "pezzottify_db_executor_queued"@
    } else if k == 12 {
        "pezzottify_db_executor_active"@
    } else if k == 13 {
        "pezzottify_blocking_work_queue_wait_seconds"@
    } else if k == 14 {
        "pezzottify_blocking_work_execution_seconds"@
    } else if k == 15 {
        "pezzottify_blocking_work_operations_total"@
    } else if k == 16 {
        "pezzottify_blocking_work_waiting"@
    } else if k == 17 {
        "pezzottify_blocking_work_active"@
    } else if k == 18 {
        "pezzottify_catalog_items_total"@
    } else if k == 19 {
        "pezzottify_catalog_size_bytes"@
    } else if k == 20 {
        "pezzottify_errors_total"@
    } else if k == 21 {
        "pezzottify_process_memory_bytes"@
    } else if k == 22 {
        "pezzottify_bandwidth_bytes_total"@
    } else if k == 23 {
        "pezzottify_bandwidth_requests_total"@
    } else if k == 24 {
        "pezzottify_listening_events_total"@
    } else if k == 25 {
        "pezzottify_listening_duration_seconds_total"@
    } else if k == 26 {
        "pezzottify_changelog_stale_batches"@
    } else if k == 27 {
        "pezzottify_changelog_stale_batch_checks_total"@
    } else if k == 28 {
        "pezzottify_downloader_requests_total"@
    } else if k == 29 {
        "pezzottify_downloader_request_duration_seconds"@
    } else if k == 30 {
        "pezzottify_downloader_errors_total"@
    } else if k == 31 {
        "pezzottify_downloader_bytes_total"@
    } else if k == 32 {
        "pezzottify_download_queue_stale_in_progress"@
    } else if k == 33 {
        "pezzottify_download_queue_size"@
    } else if k == 34 {
        "pezzottify_download_processed_total"@
    } else if k == 35 {
        "pezzottify_download_processing_duration_seconds"@
    } else if k == 36 {
        "pezzottify_download_capacity_used"@
    } else if k == 37 {
        "pezzottify_download_user_requests_total"@
    } else if k == 38 {
        "pezzottify_download_audit_events_total"@
    } else if k == 39 {
        "pezzottify_download_throttle_bytes"@
    } else if k == 40 {
        "pezzottify_download_throttle_limit_bytes"@
    } else if k == 41 {
        "pezzottify_download_throttle_is_throttled"@
    } else if k == 42 {
        "pezzottify_corruption_handler_level"@
    } else if k == 43 {
        "pezzottify_corruption_handler_in_cooldown"@
    } else if k == 44 {
        "pezzottify_corruption_handler_cooldown_remaining_secs"@
    } else if k == 45 {
        "pezzottify_corruption_handler_restarts_total"@
    } else if k == 46 {
        "pezzottify_corruption_handler_corruptions_total"@
    } else if k == 47 {
        "pezzottify_background_job_executions_total"@
    } else if k == 48 {
        "pezzottify_background_job_duration_seconds"@
    } else if k == 49 {
        "pezzottify_background_job_running"@
    } else if k == 50 {
        "pezzottify_background_job_queued"@
    } else if k == 51 {
        "pezzottify_background_job_active"@
    } else if k == 52 {
        "pezzottify_background_job_queue_wait_seconds"@
    } else if k == 53 {
        "pezzottify_background_job_circuit_open"@
    } else if k == 54 {
        "pezzottify_background_job_circuit_trips_total"@
    } else if k == 55 {
        "homelab_storage_bytes"@
    } else {
        Seq::empty()
    }
}

/// The descriptor ids of the declared metrics are pairwise distinct (they are hashes of
/// distinct names; a collision would make the client refuse the later one).
pub open spec fn distinct_declared_ids() -> bool {
    forall|i: int, j: int|
        0 <= i < j < DECLARED_METRICS ==> #[trigger] descriptor_id(declared_name(i)) != #[trigger] descriptor_id(
            declared_name(j),
        )
}

/// The registry holds exactly the first `k` declared metrics, each as a collector of its
/// one descriptor.
pub open spec fn registered_first(r: Registry, k: int) -> bool {
    &&& forall|x: u64| #[trigger] registry_descriptor_ids(r).contains(x) <==> exists|i: int|
        0 <= i < k && x == #[trigger] descriptor_id(declared_name(i))
    &&& forall|x: u64| #[trigger] registry_collectors(r).contains_key(x) <==> exists|i: int|
        0 <= i < k && x == #[trigger] descriptor_id(declared_name(i))
    &&& forall|n: Seq<char>| #[trigger] registry_dimension_names(r).contains(n) <==> exists|i: int|
        0 <= i < k && n == #[trigger] declared_name(i)
    &&& forall|i: int|
        0 <= i < k ==> registry_collectors(r)[#[trigger] descriptor_id(declared_name(i))] == seq![declared_name(i)]
}

proof fn lemma_registry_starts_empty(r: Registry)
    requires
        registry_collectors(r).dom().is_empty(),
        registry_descriptor_ids(r).is_empty(),
        registry_dimension_names(r).is_empty(),
    ensures
        registered_first(r, 0),
{
    assert forall|x: u64| !registry_collectors(r).contains_key(x) by {
        assert(!registry_collectors(r).dom().contains(x));
    }
}

/// Registering the `k`-th declared metric into a registry that holds the first `k`
/// leaves it holding the first `k + 1`, when the declared ids are distinct.
proof fn lemma_register_step(old: Registry, new: Registry, k: int, name: Seq<char>, ok: bool)
    requires
        0 <= k < DECLARED_METRICS,
        name == declared_name(k),
        registered_one(old, new, name, ok),
        registry_free_for(old, name) ==> ok,
        distinct_declared_ids() ==> registered_first(old, k),
    ensures
        distinct_declared_ids() ==> registered_first(new, k + 1),
{
    if distinct_declared_ids() {
        let d = descriptor_id(name);
        if registry_descriptor_ids(old).contains(d) {
            let i = choose|i: int| 0 <= i < k && d == #[trigger] descriptor_id(declared_name(i));
            assert(false);
        }
        if registry_collectors(old).contains_key(d) {
            let i = choose|i: int| 0 <= i < k && d == #[trigger] descriptor_id(declared_name(i));
            assert(false);
        }
        if registry_dimension_names(old).contains(name) {
            let i = choose|i: int| 0 <= i < k && name == #[trigger] declared_name(i);
            assert(descriptor_id(declared_name(i)) == descriptor_id(declared_name(k)));
            assert(false);
        }
        assert(ok);
        assert forall|x: u64| #[trigger] registry_descriptor_ids(new).contains(x) <==> exists|i: int|
            0 <= i < k + 1 && x == #[trigger] descriptor_id(declared_name(i)) by {
            if x == d {
                assert(x == descriptor_id(declared_name(k)));
            }
        }
        assert forall|x: u64| #[trigger] registry_collectors(new).contains_key(x) <==> exists|i: int|
            0 <= i < k + 1 && x == #[trigger] descriptor_id(declared_name(i)) by {
            if x == d {
                assert(x == descriptor_id(declared_name(k)));
            }
        }
        assert forall|n: Seq<char>| #[trigger] registry_dimension_names(new).contains(n) <==> exists|i: int|
            0 <= i < k + 1 && n == #[trigger] declared_name(i) by {
            if n == name {
                assert(n == declared_name(k));
            }
        }
        assert forall|i: int| 0 <= i < k + 1 implies registry_collectors(new)[#[trigger] descriptor_id(declared_name(i))]
            == seq![declared_name(i)] by {
            if i < k {
                assert(descriptor_id(declared_name(i)) != d);
            }
        }
    }
}

/// Creates every metric family and registers each in a new registry. A registration the
/// registry refuses is left out; where the declared names' descriptor ids are distinct
/// (hashes of distinct names), none is refused and the registry holds exactly the
/// declared metrics.
#[verifier::rlimit(60)]
pub fn init_metrics() -> (r: Result<Metrics, MetricsError>)
    ensures
        r matches Ok(m) && m.wf() && m.is_fresh(),
        r matches Ok(m) && (distinct_declared_ids() ==> registered_first(m.registry, DECLARED_METRICS as int)),
{
        proof {
            lemma_histogram_label_names();
            lemma_definitions_accepted_0();
            lemma_definitions_accepted_1();
            lemma_definitions_accepted_2();
            lemma_definitions_accepted_3();
            lemma_definitions_accepted_4();
            lemma_definitions_accepted_5();
            lemma_definitions_accepted_6();
            lemma_label_lists_accepted();
        }
        let http_requests_total_labels = ["method", "path", "status"];
        assert(label_views(http_requests_total_labels@) =~= seq!["method"@, "path"@, "status"@]);
        let http_requests_total = match CounterFamily::new("pezzottify_http_requests_total", "Total number of HTTP requests", &http_requests_total_labels) {
            Ok(v) => v,
            Err(_) => return Err(MetricsError::InvalidDefinition),
        };
        let http_request_duration_seconds_labels = ["method", "path"];
        assert(label_views(http_request_duration_seconds_labels@) =~= seq!["method"@, "path"@]);
        let http_request_duration_seconds = match HistogramFamily::new("pezzottify_http_request_duration_seconds", "HTTP request duration in seconds", &[1000u64, 10000u64, 50000u64, 100000u64, 500000u64, 1000000u64, 2000000u64, 5000000u64, 10000000u64], &http_request_duration_seconds_labels) {
            Ok(v) => v,
            Err(_) => return Err(MetricsError::InvalidDefinition),
        };
        assert(usable_histogram(http_request_duration_seconds));
        let auth_login_attempts_total_labels = ["status"];
        assert(label_views(auth_login_attempts_total_labels@) =~= seq!["status"@]);
        let auth_login_attempts_total = match CounterFamily::new("pezzottify_auth_login_attempts_total", "Total login attempts", &auth_login_attempts_total_labels) {
            Ok(v) => v,
            Err(_) => return Err(MetricsError::InvalidDefinition),
        };
        let auth_login_duration_seconds = match HistogramMetric::new("pezzottify_auth_login_duration_seconds", "Login request duration in seconds", &[100000u64, 500000u64, 1000000u64, 2000000u64, 5000000u64, 10000000u64]) {
            Ok(v) => v,
            Err(_) => return Err(MetricsError::InvalidDefinition),
        };
        let auth_active_sessions = match GaugeMetric::new("pezzottify_auth_active_sessions", "Number of active authentication sessions") {
            Ok(v) => v,
            Err(_) => return Err(MetricsError::InvalidDefinition),
        };
        let rate_limit_hits_total_labels = ["endpoint", "identifier_type"];
        assert(label_views(rate_limit_hits_total_labels@) =~= seq!["endpoint"@, "identifier_type"@]);
        let rate_limit_hits_total = match CounterFamily::new("pezzottify_rate_limit_hits_total", "Rate limit violations", &rate_limit_hits_total_labels) {
            Ok(v) => v,
            Err(_) => return Err(MetricsError::InvalidDefinition),
        };
        let db_query_duration_seconds_labels = ["operation"];
        assert(label_views(db_query_duration_seconds_labels@) =~= seq!["operation"@]);
        let db_query_duration_seconds = match HistogramFamily::new("pezzottify_db_query_duration_seconds", "Database query duration in seconds", &[1000u64, 5000u64, 10000u64, 50000u64, 100000u64, 500000u64, 1000000u64], &db_query_duration_seconds_labels) {
            Ok(v) => v,
            Err(_) => return Err(MetricsError::InvalidDefinition),
        };
        assert(usable_histogram(db_query_duration_seconds));
        let db_connection_errors_total = match CounterMetric::new("pezzottify_db_connection_errors_total", "Total database connection errors") {
            Ok(v) => v,
            Err(_) => return Err(MetricsError::InvalidDefinition),
        };
        let db_executor_queue_wait_seconds_labels = ["lane", "priority"];
        assert(label_views(db_executor_queue_wait_seconds_labels@) =~= seq!["lane"@, "priority"@]);
        let db_executor_queue_wait_seconds = match HistogramFamily::new("pezzottify_db_executor_queue_wait_seconds", "Time database operations spend waiting for an executor worker", &[100u64, 1000u64, 5000u64, 10000u64, 50000u64, 100000u64, 500000u64, 1000000u64, 2000000u64, 5000000u64, 30000000u64], &db_executor_queue_wait_seconds_labels) {
            Ok(v) => v,
            Err(_) => return Err(MetricsError::InvalidDefinition),
        };
        assert(usable_histogram(db_executor_queue_wait_seconds));
        let db_executor_execution_seconds_labels = ["lane", "priority"];
        assert(label_views(db_executor_execution_seconds_labels@) =~= seq!["lane"@, "priority"@]);
        let db_executor_execution_seconds = match HistogramFamily::new("pezzottify_db_executor_execution_seconds", "Time database operations spend executing on a worker", &[100u64, 1000u64, 5000u64, 10000u64, 50000u64, 100000u64, 500000u64, 1000000u64, 5000000u64, 30000000u64, 300000000u64], &db_executor_execution_seconds_labels) {
            Ok(v) => v,
            Err(_) => return Err(MetricsError::InvalidDefinition),
        };
        assert(usable_histogram(db_executor_execution_seconds));
        let db_executor_operations_total_labels = ["lane", "priority", "outcome"];
        assert(label_views(db_executor_operations_total_labels@) =~= seq!["lane"@, "priority"@, "outcome"@]);
        let db_executor_operations_total = match CounterFamily::new("pezzottify_db_executor_operations_total", "Database executor operations by outcome", &db_executor_operations_total_labels) {
            Ok(v) => v,
            Err(_) => return Err(MetricsError::InvalidDefinition),
        };
        let db_executor_queued_labels = ["priority"];
        assert(label_views(db_executor_queued_labels@) =~= seq!["priority"@]);
        let db_executor_queued = match GaugeFamily::new("pezzottify_db_executor_queued", "Database operations currently queued by priority", &db_executor_queued_labels) {
            Ok(v) => v,
            Err(_) => return Err(MetricsError::InvalidDefinition),
        };
        let db_executor_active_labels = ["lane"];
        assert(label_views(db_executor_active_labels@) =~= seq!["lane"@]);
        let db_executor_active = match GaugeFamily::new("pezzottify_db_executor_active", "Database operations currently executing by lane", &db_executor_active_labels) {
            Ok(v) => v,
            Err(_) => return Err(MetricsError::InvalidDefinition),
        };
        let blocking_work_queue_wait_seconds_labels = ["pool"];
        assert(label_views(blocking_work_queue_wait_seconds_labels@) =~= seq!["pool"@]);
        let blocking_work_queue_wait_seconds = match HistogramFamily::new("pezzottify_blocking_work_queue_wait_seconds", "Time bounded blocking work spends waiting for capacity", &[100u64, 1000u64, 5000u64, 10000u64, 50000u64, 100000u64, 500000u64, 1000000u64, 2000000u64, 5000000u64], &blocking_work_queue_wait_seconds_labels) {
            Ok(v) => v,
            Err(_) => return Err(MetricsError::InvalidDefinition),
        };
        assert(usable_histogram(blocking_work_queue_wait_seconds));
        let blocking_work_execution_seconds_labels = ["pool"];
        assert(label_views(blocking_work_execution_seconds_labels@) =~= seq!["pool"@]);
        let blocking_work_execution_seconds = match HistogramFamily::new("pezzottify_blocking_work_execution_seconds", "Time bounded blocking work spends executing", &[100u64, 1000u64, 5000u64, 10000u64, 50000u64, 100000u64, 500000u64, 1000000u64, 5000000u64, 30000000u64, 60000000u64], &blocking_work_execution_seconds_labels) {
            Ok(v) => v,
            Err(_) => return Err(MetricsError::InvalidDefinition),
        };
        assert(usable_histogram(blocking_work_execution_seconds));
        let blocking_work_operations_total_labels = ["pool", "outcome"];
        assert(label_views(blocking_work_operations_total_labels@) =~= seq!["pool"@, "outcome"@]);
        let blocking_work_operations_total = match CounterFamily::new("pezzottify_blocking_work_operations_total", "Bounded blocking work operations by outcome", &blocking_work_operations_total_labels) {
            Ok(v) => v,
            Err(_) => return Err(MetricsError::InvalidDefinition),
        };
        let blocking_work_waiting_labels = ["pool"];
        assert(label_views(blocking_work_waiting_labels@) =~= seq!["pool"@]);
        let blocking_work_waiting = match GaugeFamily::new("pezzottify_blocking_work_waiting", "Bounded blocking operations currently waiting for capacity", &blocking_work_waiting_labels) {
            Ok(v) => v,
            Err(_) => return Err(MetricsError::InvalidDefinition),
        };
        let blocking_work_active_labels = ["pool"];
        assert(label_views(blocking_work_active_labels@) =~= seq!["pool"@]);
        let blocking_work_active = match GaugeFamily::new("pezzottify_blocking_work_active", "Bounded blocking operations currently executing", &blocking_work_active_labels) {
            Ok(v) => v,
            Err(_) => return Err(MetricsError::InvalidDefinition),
        };
        let catalog_items_total_labels = ["type"];
        assert(label_views(catalog_items_total_labels@) =~= seq!["type"@]);
        let catalog_items_total = match GaugeFamily::new("pezzottify_catalog_items_total", "Total items in catalog", &catalog_items_total_labels) {
            Ok(v) => v,
            Err(_) => return Err(MetricsError::InvalidDefinition),
        };
        let catalog_size_bytes = match GaugeMetric::new("pezzottify_catalog_size_bytes", "Catalog size in bytes") {
            Ok(v) => v,
            Err(_) => return Err(MetricsError::InvalidDefinition),
        };
        let errors_total_labels = ["error_type", "endpoint"];
        assert(label_views(errors_total_labels@) =~= seq!["error_type"@, "endpoint"@]);
        let errors_total = match CounterFamily::new("pezzottify_errors_total", "Total errors by type and endpoint", &errors_total_labels) {
            Ok(v) => v,
            Err(_) => return Err(MetricsError::InvalidDefinition),
        };
        let process_memory_bytes = match GaugeMetric::new("pezzottify_process_memory_bytes", "Process memory usage in bytes") {
            Ok(v) => v,
            Err(_) => return Err(MetricsError::InvalidDefinition),
        };
        let bandwidth_bytes_total_labels = ["endpoint_category", "direction"];
        assert(label_views(bandwidth_bytes_total_labels@) =~= seq!["endpoint_category"@, "direction"@]);
        let bandwidth_bytes_total = match CounterFamily::new("pezzottify_bandwidth_bytes_total", "Total bytes transferred by endpoint category", &bandwidth_bytes_total_labels) {
            Ok(v) => v,
            Err(_) => return Err(MetricsError::InvalidDefinition),
        };
        let bandwidth_requests_total_labels = ["endpoint_category"];
        assert(label_views(bandwidth_requests_total_labels@) =~= seq!["endpoint_category"@]);
        let bandwidth_requests_total = match CounterFamily::new("pezzottify_bandwidth_requests_total", "Total requests by endpoint category", &bandwidth_requests_total_labels) {
            Ok(v) => v,
            Err(_) => return Err(MetricsError::InvalidDefinition),
        };
        let listening_events_total_labels = ["client_type", "completed"];
        assert(label_views(listening_events_total_labels@) =~= seq!["client_type"@, "completed"@]);
        let listening_events_total = match CounterFamily::new("pezzottify_listening_events_total", "Total listening events recorded", &listening_events_total_labels) {
            Ok(v) => v,
            Err(_) => return Err(MetricsError::InvalidDefinition),
        };
        let listening_duration_seconds_total_labels = ["client_type"];
        assert(label_views(listening_duration_seconds_total_labels@) =~= seq!["client_type"@]);
        let listening_duration_seconds_total = match CounterFamily::new("pezzottify_listening_duration_seconds_total", "Total listening duration in seconds", &listening_duration_seconds_total_labels) {
            Ok(v) => v,
            Err(_) => return Err(MetricsError::InvalidDefinition),
        };
        let changelog_stale_batches = match GaugeMetric::new("pezzottify_changelog_stale_batches", "Number of changelog batches that have been open longer than the stale threshold") {
            Ok(v) => v,
            Err(_) => return Err(MetricsError::InvalidDefinition),
        };
        let changelog_stale_batch_checks_total = match CounterMetric::new("pezzottify_changelog_stale_batch_checks_total", "Total number of stale batch checks performed") {
            Ok(v) => v,
            Err(_) => return Err(MetricsError::InvalidDefinition),
        };
        let downloader_requests_total_labels = ["operation", "status"];
        assert(label_views(downloader_requests_total_labels@) =~= seq!["operation"@, "status"@]);
        let downloader_requests_total = match CounterFamily::new("pezzottify_downloader_requests_total", "Total requests to downloader service", &downloader_requests_total_labels) {
            Ok(v) => v,
            Err(_) => return Err(MetricsError::InvalidDefinition),
        };
        let downloader_request_duration_seconds_labels = ["operation"];
        assert(label_views(downloader_request_duration_seconds_labels@) =~= seq!["operation"@]);
        let downloader_request_duration_seconds = match HistogramFamily::new("pezzottify_downloader_request_duration_seconds", "Downloader request duration in seconds", &[100000u64, 500000u64, 1000000u64, 2000000u64, 5000000u64, 10000000u64, 30000000u64, 60000000u64, 120000000u64], &downloader_request_duration_seconds_labels) {
            Ok(v) => v,
            Err(_) => return Err(MetricsError::InvalidDefinition),
        };
        assert(usable_histogram(downloader_request_duration_seconds));
        let downloader_errors_total_labels = ["operation", "error_type"];
        assert(label_views(downloader_errors_total_labels@) =~= seq!["operation"@, "error_type"@]);
        let downloader_errors_total = match CounterFamily::new("pezzottify_downloader_errors_total", "Total downloader errors by type", &downloader_errors_total_labels) {
            Ok(v) => v,
            Err(_) => return Err(MetricsError::InvalidDefinition),
        };
        let downloader_bytes_total_labels = ["content_type"];
        assert(label_views(downloader_bytes_total_labels@) =~= seq!["content_type"@]);
        let downloader_bytes_total = match CounterFamily::new("pezzottify_downloader_bytes_total", "Total bytes downloaded from downloader service", &downloader_bytes_total_labels) {
            Ok(v) => v,
            Err(_) => return Err(MetricsError::InvalidDefinition),
        };
        let download_queue_stale_in_progress = match GaugeMetric::new("pezzottify_download_queue_stale_in_progress", "Number of download queue items stuck in IN_PROGRESS state longer than threshold") {
            Ok(v) => v,
            Err(_) => return Err(MetricsError::InvalidDefinition),
        };
        let download_queue_size_labels = ["status", "priority"];
        assert(label_views(download_queue_size_labels@) =~= seq!["status"@, "priority"@]);
        let download_queue_size = match GaugeFamily::new("pezzottify_download_queue_size", "Current download queue size by status and priority", &download_queue_size_labels) {
            Ok(v) => v,
            Err(_) => return Err(MetricsError::InvalidDefinition),
        };
        let download_processed_total_labels = ["content_type", "result"];
        assert(label_views(download_processed_total_labels@) =~= seq!["content_type"@, "result"@]);
        let download_processed_total = match CounterFamily::new("pezzottify_download_processed_total", "Total processed downloads by content type and result", &download_processed_total_labels) {
            Ok(v) => v,
            Err(_) => return Err(MetricsError::InvalidDefinition),
        };
        let download_processing_duration_seconds_labels = ["content_type"];
        assert(label_views(download_processing_duration_seconds_labels@) =~= seq!["content_type"@]);
        let download_processing_duration_seconds = match HistogramFamily::new("pezzottify_download_processing_duration_seconds", "Download processing duration in seconds", &[1000000u64, 5000000u64, 10000000u64, 30000000u64, 60000000u64, 120000000u64, 300000000u64], &download_processing_duration_seconds_labels) {
            Ok(v) => v,
            Err(_) => return Err(MetricsError::InvalidDefinition),
        };
        assert(usable_histogram(download_processing_duration_seconds));
        let download_capacity_used_labels = ["period"];
        assert(label_views(download_capacity_used_labels@) =~= seq!["period"@]);
        let download_capacity_used = match GaugeFamily::new("pezzottify_download_capacity_used", "Download capacity usage by period", &download_capacity_used_labels) {
            Ok(v) => v,
            Err(_) => return Err(MetricsError::InvalidDefinition),
        };
        let download_user_requests_total_labels = ["request_type"];
        assert(label_views(download_user_requests_total_labels@) =~= seq!["request_type"@]);
        let download_user_requests_total = match CounterFamily::new("pezzottify_download_user_requests_total", "Total user download requests by type", &download_user_requests_total_labels) {
            Ok(v) => v,
            Err(_) => return Err(MetricsError::InvalidDefinition),
        };
        let download_audit_events_total_labels = ["event_type"];
        assert(label_views(download_audit_events_total_labels@) =~= seq!["event_type"@]);
        let download_audit_events_total = match CounterFamily::new("pezzottify_download_audit_events_total", "Total download audit events by type", &download_audit_events_total_labels) {
            Ok(v) => v,
            Err(_) => return Err(MetricsError::InvalidDefinition),
        };
        let download_throttle_bytes_labels = ["period"];
        assert(label_views(download_throttle_bytes_labels@) =~= seq!["period"@]);
        let download_throttle_bytes = match GaugeFamily::new("pezzottify_download_throttle_bytes", "Current throttle bytes usage by period", &download_throttle_bytes_labels) {
            Ok(v) => v,
            Err(_) => return Err(MetricsError::InvalidDefinition),
        };
        let download_throttle_limit_bytes_labels = ["period"];
        assert(label_views(download_throttle_limit_bytes_labels@) =~= seq!["period"@]);
        let download_throttle_limit_bytes = match GaugeFamily::new("pezzottify_download_throttle_limit_bytes", "Throttle limit by period", &download_throttle_limit_bytes_labels) {
            Ok(v) => v,
            Err(_) => return Err(MetricsError::InvalidDefinition),
        };
        let download_throttle_is_throttled = match GaugeMetric::new("pezzottify_download_throttle_is_throttled", "Whether downloads are currently throttled (1 = yes, 0 = no)") {
            Ok(v) => v,
            Err(_) => return Err(MetricsError::InvalidDefinition),
        };
        let corruption_handler_level = match GaugeMetric::new("pezzottify_corruption_handler_level", "Current corruption handler escalation level (0 = base)") {
            Ok(v) => v,
            Err(_) => return Err(MetricsError::InvalidDefinition),
        };
        let corruption_handler_in_cooldown = match GaugeMetric::new("pezzottify_corruption_handler_in_cooldown", "Whether corruption handler is in cooldown (1 = yes, 0 = no)") {
            Ok(v) => v,
            Err(_) => return Err(MetricsError::InvalidDefinition),
        };
        let corruption_handler_cooldown_secs = match GaugeMetric::new("pezzottify_corruption_handler_cooldown_remaining_secs", "Remaining cooldown time in seconds (0 if not in cooldown)") {
            Ok(v) => v,
            Err(_) => return Err(MetricsError::InvalidDefinition),
        };
        let corruption_handler_restarts_total = match CounterMetric::new("pezzottify_corruption_handler_restarts_total", "Total downloader restarts triggered by corruption handler") {
            Ok(v) => v,
            Err(_) => return Err(MetricsError::InvalidDefinition),
        };
        let corruption_handler_corruptions_total = match CounterMetric::new("pezzottify_corruption_handler_corruptions_total", "Total corruption events (ffprobe failures) detected") {
            Ok(v) => v,
            Err(_) => return Err(MetricsError::InvalidDefinition),
        };
        let background_job_executions_total_labels = ["job_id", "status"];
        assert(label_views(background_job_executions_total_labels@) =~= seq!["job_id"@, "status"@]);
        let background_job_executions_total = match CounterFamily::new("pezzottify_background_job_executions_total", "Total background job executions", &background_job_executions_total_labels) {
            Ok(v) => v,
            Err(_) => return Err(MetricsError::InvalidDefinition),
        };
        let background_job_duration_seconds_labels = ["job_id"];
        assert(label_views(background_job_duration_seconds_labels@) =~= seq!["job_id"@]);
        let background_job_duration_seconds = match HistogramFamily::new("pezzottify_background_job_duration_seconds", "Background job execution duration in seconds", &[100000u64, 500000u64, 1000000u64, 5000000u64, 10000000u64, 30000000u64, 60000000u64, 300000000u64, 600000000u64], &background_job_duration_seconds_labels) {
            Ok(v) => v,
            Err(_) => return Err(MetricsError::InvalidDefinition),
        };
        assert(usable_histogram(background_job_duration_seconds));
        let background_job_running_labels = ["job_id"];
        assert(label_views(background_job_running_labels@) =~= seq!["job_id"@]);
        let background_job_running = match GaugeFamily::new("pezzottify_background_job_running", "Whether a background job is currently running", &background_job_running_labels) {
            Ok(v) => v,
            Err(_) => return Err(MetricsError::InvalidDefinition),
        };
        let background_job_queued_labels = ["resource_class"];
        assert(label_views(background_job_queued_labels@) =~= seq!["resource_class"@]);
        let background_job_queued = match GaugeFamily::new("pezzottify_background_job_queued", "Background jobs waiting for scheduler capacity", &background_job_queued_labels) {
            Ok(v) => v,
            Err(_) => return Err(MetricsError::InvalidDefinition),
        };
        let background_job_active_labels = ["resource_class"];
        assert(label_views(background_job_active_labels@) =~= seq!["resource_class"@]);
        let background_job_active = match GaugeFamily::new("pezzottify_background_job_active", "Background jobs actively executing", &background_job_active_labels) {
            Ok(v) => v,
            Err(_) => return Err(MetricsError::InvalidDefinition),
        };
        let background_job_queue_wait_seconds_labels = ["resource_class"];
        assert(label_views(background_job_queue_wait_seconds_labels@) =~= seq!["resource_class"@]);
        let background_job_queue_wait_seconds = match HistogramFamily::new("pezzottify_background_job_queue_wait_seconds", "Time background jobs wait for global and resource-class capacity", &[1000u64, 10000u64, 50000u64, 100000u64, 500000u64, 1000000u64, 5000000u64, 30000000u64, 60000000u64], &background_job_queue_wait_seconds_labels) {
            Ok(v) => v,
            Err(_) => return Err(MetricsError::InvalidDefinition),
        };
        assert(usable_histogram(background_job_queue_wait_seconds));
        let background_job_circuit_open_labels = ["job_id"];
        assert(label_views(background_job_circuit_open_labels@) =~= seq!["job_id"@]);
        let background_job_circuit_open = match GaugeFamily::new("pezzottify_background_job_circuit_open", "Whether a job circuit breaker is currently open", &background_job_circuit_open_labels) {
            Ok(v) => v,
            Err(_) => return Err(MetricsError::InvalidDefinition),
        };
        let background_job_circuit_trips_total_labels = ["job_id"];
        assert(label_views(background_job_circuit_trips_total_labels@) =~= seq!["job_id"@]);
        let background_job_circuit_trips_total = match CounterFamily::new("pezzottify_background_job_circuit_trips_total", "Background job circuit breaker trips", &background_job_circuit_trips_total_labels) {
            Ok(v) => v,
            Err(_) => return Err(MetricsError::InvalidDefinition),
        };
        let homelab_storage_bytes_labels = ["service", "path"];
        assert(label_views(homelab_storage_bytes_labels@) =~= seq!["service"@, "path"@]);
        let homelab_storage_bytes = match GaugeFamily::new("homelab_storage_bytes", "Storage usage in bytes", &homelab_storage_bytes_labels) {
            Ok(v) => v,
            Err(_) => return Err(MetricsError::InvalidDefinition),
        };
        let mut registry = registry_new();
        proof {
            lemma_registry_starts_empty(registry);
        }
        let ghost before = registry;
        let registered = http_requests_total.register_in(&mut registry);
        proof {
            reveal(declared_name);
            lemma_register_step(before, registry, 0, counter_family_name(http_requests_total), registered is Ok);
        }
        let ghost before = registry;
        let registered = http_request_duration_seconds.register_in(&mut registry);
        proof {
            reveal(declared_name);
            lemma_register_step(before, registry, 1, histogram_family_name(http_request_duration_seconds), registered is Ok);
        }
        let ghost before = registry;
        let registered = auth_login_attempts_total.register_in(&mut registry);
        proof {
            reveal(declared_name);
            lemma_register_step(before, registry, 2, counter_family_name(auth_login_attempts_total), registered is Ok);
        }
        let ghost before = registry;
        let registered = auth_login_duration_seconds.register_in(&mut registry);
        proof {
            reveal(declared_name);
            lemma_register_step(before, registry, 3, histogram_metric_name(auth_login_duration_seconds), registered is Ok);
        }
        let ghost before = registry;
        let registered = auth_active_sessions.register_in(&mut registry);
        proof {
            reveal(declared_name);
            lemma_register_step(before, registry, 4, gauge_metric_name(auth_active_sessions), registered is Ok);
        }
        let ghost before = registry;
        let registered = rate_limit_hits_total.register_in(&mut registry);
        proof {
            reveal(declared_name);
            lemma_register_step(before, registry, 5, counter_family_name(rate_limit_hits_total), registered is Ok);
        }
        let ghost before = registry;
        let registered = db_query_duration_seconds.register_in(&mut registry);
        proof {
            reveal(declared_name);
            lemma_register_step(before, registry, 6, histogram_family_name(db_query_duration_seconds), registered is Ok);
        }
        let ghost before = registry;
        let registered = db_connection_errors_total.register_in(&mut registry);
        proof {
            reveal(declared_name);
            lemma_register_step(before, registry, 7, counter_metric_name(db_connection_errors_total), registered is Ok);
        }
        let ghost before = registry;
        let registered = db_executor_queue_wait_seconds.register_in(&mut registry);
        proof {
            reveal(declared_name);
            lemma_register_step(before, registry, 8, histogram_family_name(db_executor_queue_wait_seconds), registered is Ok);
        }
        let ghost before = registry;
        let registered = db_executor_execution_seconds.register_in(&mut registry);
        proof {
            reveal(declared_name);
            lemma_register_step(before, registry, 9, histogram_family_name(db_executor_execution_seconds), registered is Ok);
        }
        let ghost before = registry;
        let registered = db_executor_operations_total.register_in(&mut registry);
        proof {
            reveal(declared_name);
            lemma_register_step(before, registry, 10, counter_family_name(db_executor_operations_total), registered is Ok);
        }
        let ghost before = registry;
        let registered = db_executor_queued.register_in(&mut registry);
        proof {
            reveal(declared_name);
            lemma_register_step(before, registry, 11, gauge_family_name(db_executor_queued), registered is Ok);
        }
        let ghost before = registry;
        let registered = db_executor_active.register_in(&mut registry);
        proof {
            reveal(declared_name);
            lemma_register_step(before, registry, 12, gauge_family_name(db_executor_active), registered is Ok);
        }
        let ghost before = registry;
        let registered = blocking_work_queue_wait_seconds.register_in(&mut registry);
        proof {
            reveal(declared_name);
            lemma_register_step(before, registry, 13, histogram_family_name(blocking_work_queue_wait_seconds), registered is Ok);
        }
        let ghost before = registry;
        let registered = blocking_work_execution_seconds.register_in(&mut registry);
        proof {
            reveal(declared_name);
            lemma_register_step(before, registry, 14, histogram_family_name(blocking_work_execution_seconds), registered is Ok);
        }
        let ghost before = registry;
        let registered = blocking_work_operations_total.register_in(&mut registry);
        proof {
            reveal(declared_name);
            lemma_register_step(before, registry, 15, counter_family_name(blocking_work_operations_total), registered is Ok);
        }
        let ghost before = registry;
        let registered = blocking_work_waiting.register_in(&mut registry);
        proof {
            reveal(declared_name);
            lemma_register_step(before, registry, 16, gauge_family_name(blocking_work_waiting), registered is Ok);
        }
        let ghost before = registry;
        let registered = blocking_work_active.register_in(&mut registry);
        proof {
            reveal(declared_name);
            lemma_register_step(before, registry, 17, gauge_family_name(blocking_work_active), registered is Ok);
        }
        let ghost before = registry;
        let registered = catalog_items_total.register_in(&mut registry);
        proof {
            reveal(declared_name);
            lemma_register_step(before, registry, 18, gauge_family_name(catalog_items_total), registered is Ok);
        }
        let ghost before = registry;
        let registered = catalog_size_bytes.register_in(&mut registry);
        proof {
            reveal(declared_name);
            lemma_register_step(before, registry, 19, gauge_metric_name(catalog_size_bytes), registered is Ok);
        }
        let ghost before = registry;
        let registered = errors_total.register_in(&mut registry);
        proof {
            reveal(declared_name);
            lemma_register_step(before, registry, 20, counter_family_name(errors_total), registered is Ok);
        }
        let ghost before = registry;
        let registered = process_memory_bytes.register_in(&mut registry);
        proof {
            reveal(declared_name);
            lemma_register_step(before, registry, 21, gauge_metric_name(process_memory_bytes), registered is Ok);
        }
        let ghost before = registry;
        let registered = bandwidth_bytes_total.register_in(&mut registry);
        proof {
            reveal(declared_name);
            lemma_register_step(before, registry, 22, counter_family_name(bandwidth_bytes_total), registered is Ok);
        }
        let ghost before = registry;
        let registered = bandwidth_requests_total.register_in(&mut registry);
        proof {
            reveal(declared_name);
            lemma_register_step(before, registry, 23, counter_family_name(bandwidth_requests_total), registered is Ok);
        }
        let ghost before = registry;
        let registered = listening_events_total.register_in(&mut registry);
        proof {
            reveal(declared_name);
            lemma_register_step(before, registry, 24, counter_family_name(listening_events_total), registered is Ok);
        }
        let ghost before = registry;
        let registered = listening_duration_seconds_total.register_in(&mut registry);
        proof {
            reveal(declared_name);
            lemma_register_step(before, registry, 25, counter_family_name(listening_duration_seconds_total), registered is Ok);
        }
        let ghost before = registry;
        let registered = changelog_stale_batches.register_in(&mut registry);
        proof {
            reveal(declared_name);
            lemma_register_step(before, registry, 26, gauge_metric_name(changelog_stale_batches), registered is Ok);
        }
        let ghost before = registry;
        let registered = changelog_stale_batch_checks_total.register_in(&mut registry);
        proof {
            reveal(declared_name);
            lemma_register_step(before, registry, 27, counter_metric_name(changelog_stale_batch_checks_total), registered is Ok);
        }
        let ghost before = registry;
        let registered = downloader_requests_total.register_in(&mut registry);
        proof {
            reveal(declared_name);
            lemma_register_step(before, registry, 28, counter_family_name(downloader_requests_total), registered is Ok);
        }
        let ghost before = registry;
        let registered = downloader_request_duration_seconds.register_in(&mut registry);
        proof {
            reveal(declared_name);
            lemma_register_step(before, registry, 29, histogram_family_name(downloader_request_duration_seconds), registered is Ok);
        }
        let ghost before = registry;
        let registered = downloader_errors_total.register_in(&mut registry);
        proof {
            reveal(declared_name);
            lemma_register_step(before, registry, 30, counter_family_name(downloader_errors_total), registered is Ok);
        }
        let ghost before = registry;
        let registered = downloader_bytes_total.register_in(&mut registry);
        proof {
            reveal(declared_name);
            lemma_register_step(before, registry, 31, counter_family_name(downloader_bytes_total), registered is Ok);
        }
        let ghost before = registry;
        let registered = download_queue_stale_in_progress.register_in(&mut registry);
        proof {
            reveal(declared_name);
            lemma_register_step(before, registry, 32, gauge_metric_name(download_queue_stale_in_progress), registered is Ok);
        }
        let ghost before = registry;
        let registered = download_queue_size.register_in(&mut registry);
        proof {
            reveal(declared_name);
            lemma_register_step(before, registry, 33, gauge_family_name(download_queue_size), registered is Ok);
        }
        let ghost before = registry;
        let registered = download_processed_total.register_in(&mut registry);
        proof {
            reveal(declared_name);
            lemma_register_step(before, registry, 34, counter_family_name(download_processed_total), registered is Ok);
        }
        let ghost before = registry;
        let registered = download_processing_duration_seconds.register_in(&mut registry);
        proof {
            reveal(declared_name);
            lemma_register_step(before, registry, 35, histogram_family_name(download_processing_duration_seconds), registered is Ok);
        }
        let ghost before = registry;
        let registered = download_capacity_used.register_in(&mut registry);
        proof {
            reveal(declared_name);
            lemma_register_step(before, registry, 36, gauge_family_name(download_capacity_used), registered is Ok);
        }
        let ghost before = registry;
        let registered = download_user_requests_total.register_in(&mut registry);
        proof {
            reveal(declared_name);
            lemma_register_step(before, registry, 37, counter_family_name(download_user_requests_total), registered is Ok);
        }
        let ghost before = registry;
        let registered = download_audit_events_total.register_in(&mut registry);
        proof {
            reveal(declared_name);
            lemma_register_step(before, registry, 38, counter_family_name(download_audit_events_total), registered is Ok);
        }
        let ghost before = registry;
        let registered = download_throttle_bytes.register_in(&mut registry);
        proof {
            reveal(declared_name);
            lemma_register_step(before, registry, 39, gauge_family_name(download_throttle_bytes), registered is Ok);
        }
        let ghost before = registry;
        let registered = download_throttle_limit_bytes.register_in(&mut registry);
        proof {
            reveal(declared_name);
            lemma_register_step(before, registry, 40, gauge_family_name(download_throttle_limit_bytes), registered is Ok);
        }
        let ghost before = registry;
        let registered = download_throttle_is_throttled.register_in(&mut registry);
        proof {
            reveal(declared_name);
            lemma_register_step(before, registry, 41, gauge_metric_name(download_throttle_is_throttled), registered is Ok);
        }
        let ghost before = registry;
        let registered = corruption_handler_level.register_in(&mut registry);
        proof {
            reveal(declared_name);
            lemma_register_step(before, registry, 42, gauge_metric_name(corruption_handler_level), registered is Ok);
        }
        let ghost before = registry;
        let registered = corruption_handler_in_cooldown.register_in(&mut registry);
        proof {
            reveal(declared_name);
            lemma_register_step(before, registry, 43, gauge_metric_name(corruption_handler_in_cooldown), registered is Ok);
        }
        let ghost before = registry;
        let registered = corruption_handler_cooldown_secs.register_in(&mut registry);
        proof {
            reveal(declared_name);
            lemma_register_step(before, registry, 44, gauge_metric_name(corruption_handler_cooldown_secs), registered is Ok);
        }
        let ghost before = registry;
        let registered = corruption_handler_restarts_total.register_in(&mut registry);
        proof {
            reveal(declared_name);
            lemma_register_step(before, registry, 45, counter_metric_name(corruption_handler_restarts_total), registered is Ok);
        }
        let ghost before = registry;
        let registered = corruption_handler_corruptions_total.register_in(&mut registry);
        proof {
            reveal(declared_name);
            lemma_register_step(before, registry, 46, counter_metric_name(corruption_handler_corruptions_total), registered is Ok);
        }
        let ghost before = registry;
        let registered = background_job_executions_total.register_in(&mut registry);
        proof {
            reveal(declared_name);
            lemma_register_step(before, registry, 47, counter_family_name(background_job_executions_total), registered is Ok);
        }
        let ghost before = registry;
        let registered = background_job_duration_seconds.register_in(&mut registry);
        proof {
            reveal(declared_name);
            lemma_register_step(before, registry, 48, histogram_family_name(background_job_duration_seconds), registered is Ok);
        }
        let ghost before = registry;
        let registered = background_job_running.register_in(&mut registry);
        proof {
            reveal(declared_name);
            lemma_register_step(before, registry, 49, gauge_family_name(background_job_running), registered is Ok);
        }
        let ghost before = registry;
        let registered = background_job_queued.register_in(&mut registry);
        proof {
            reveal(declared_name);
            lemma_register_step(before, registry, 50, gauge_family_name(background_job_queued), registered is Ok);
        }
        let ghost before = registry;
        let registered = background_job_active.register_in(&mut registry);
        proof {
            reveal(declared_name);
            lemma_register_step(before, registry, 51, gauge_family_name(background_job_active), registered is Ok);
        }
        let ghost before = registry;
        let registered = background_job_queue_wait_seconds.register_in(&mut registry);
        proof {
            reveal(declared_name);
            lemma_register_step(before, registry, 52, histogram_family_name(background_job_queue_wait_seconds), registered is Ok);
        }
        let ghost before = registry;
        let registered = background_job_circuit_open.register_in(&mut registry);
        proof {
            reveal(declared_name);
            lemma_register_step(before, registry, 53, gauge_family_name(background_job_circuit_open), registered is Ok);
        }
        let ghost before = registry;
        let registered = background_job_circuit_trips_total.register_in(&mut registry);
        proof {
            reveal(declared_name);
            lemma_register_step(before, registry, 54, counter_family_name(background_job_circuit_trips_total), registered is Ok);
        }
        let ghost before = registry;
        let registered = homelab_storage_bytes.register_in(&mut registry);
        proof {
            reveal(declared_name);
            lemma_register_step(before, registry, 55, gauge_family_name(homelab_storage_bytes), registered is Ok);
        }
        let m = Metrics {
            registry,
            http_requests_total,
            http_request_duration_seconds,
            auth_login_attempts_total,
            auth_login_duration_seconds,
            auth_active_sessions,
            rate_limit_hits_total,
            db_query_duration_seconds,
            db_connection_errors_total,
            db_executor_queue_wait_seconds,
            db_executor_execution_seconds,
            db_executor_operations_total,
            db_executor_queued,
            db_executor_active,
            blocking_work_queue_wait_seconds,
            blocking_work_execution_seconds,
            blocking_work_operations_total,
            blocking_work_waiting,
            blocking_work_active,
            catalog_items_total,
            catalog_size_bytes,
            errors_total,
            process_memory_bytes,
            bandwidth_bytes_total,
            bandwidth_requests_total,
            listening_events_total,
            listening_duration_seconds_total,
            changelog_stale_batches,
            changelog_stale_batch_checks_total,
            downloader_requests_total,
            downloader_request_duration_seconds,
            downloader_errors_total,
            downloader_bytes_total,
            download_queue_stale_in_progress,
            download_queue_size,
            download_processed_total,
            download_processing_duration_seconds,
            download_capacity_used,
            download_user_requests_total,
            download_audit_events_total,
            download_throttle_bytes,
            download_throttle_limit_bytes,
            download_throttle_is_throttled,
            corruption_handler_level,
            corruption_handler_in_cooldown,
            corruption_handler_cooldown_secs,
            corruption_handler_restarts_total,
            corruption_handler_corruptions_total,
            background_job_executions_total,
            background_job_duration_seconds,
            background_job_running,
            background_job_queued,
            background_job_active,
            background_job_queue_wait_seconds,
            background_job_circuit_open,
            background_job_circuit_trips_total,
            homelab_storage_bytes,
        };
        Ok(m)
}

/// HTTP methods that get a label of their own.
pub open spec fn is_standard_method(method: Seq<char>) -> bool {
    ||| method == "GET"@
    ||| method == "POST"@
    ||| method == "PUT"@
    ||| method == "PATCH"@
    ||| method == "DELETE"@
    ||| method == "HEAD"@
    ||| method == "OPTIONS"@
    ||| method == "CONNECT"@
    ||| method == "TRACE"@
}

/// The method label of a request: standard methods as they are, every other method
/// `OTHER`, so that clients cannot create labels at will.
pub fn http_method_label(method: &str) -> (r: &str)
    ensures
        r@ == (if is_standard_method(method@) {
            method@
        } else {
            "OTHER"@
        }),
{
    if str_eq(method, "GET") || str_eq(method, "POST") || str_eq(method, "PUT") || str_eq(method, "PATCH")
        || str_eq(method, "DELETE") || str_eq(method, "HEAD") || str_eq(method, "OPTIONS") || str_eq(
        method,
        "CONNECT",
    ) || str_eq(method, "TRACE") {
        method
    } else {
        "OTHER"
    }
}

/// The route label of a request that matched no route.
pub const UNMATCHED_ROUTE_LABEL: &'static str = "<unmatched>";

/// The route label of a request: the route pattern it matched (never its concrete path),
/// else `UNMATCHED_ROUTE_LABEL`.
pub fn route_label(matched_route: Option<&str>) -> (r: &str)
    ensures
        r@ == (match matched_route {
            Some(p) => p@,
            None => UNMATCHED_ROUTE_LABEL@,
        }),
{
    match matched_route {
        Some(p) => p,
        None => UNMATCHED_ROUTE_LABEL,
    }
}

/// The reading a gauge shows for the unsigned quantity `n`: `n` itself, or the largest
/// value a gauge holds where `n` is larger (never a negative reading).
pub open spec fn gauge_reading(n: nat) -> i64 {
    if n <= i64::MAX {
        n as i64
    } else {
        i64::MAX
    }
}

/// The gauge reading of `n` (see [`gauge_reading`]).
pub fn gauge_value(n: u64) -> (r: i64)
    ensures
        r == gauge_reading(n as nat),
{
    if n <= i64::MAX as u64 {
        n as i64
    } else {
        i64::MAX
    }
}

/// The value a 0/1 gauge takes for `flag`.
pub fn flag_value(flag: bool) -> (r: i64)
    ensures
        r == (if flag {
            1i64
        } else {
            0i64
        }),
{
    if flag {
        1
    } else {
        0
    }
}

/// The method label of a request, as [`http_method_label`] gives it.
pub open spec fn method_label(method: Seq<char>) -> Seq<char> {
    if is_standard_method(method) {
        method
    } else {
        "OTHER"@
    }
}

/// Requests with any two non-standard methods are counted under the same method label,
/// so that clients cannot create label values at will.
pub proof fn lemma_nonstandard_methods_share_label(a: Seq<char>, b: Seq<char>)
    requires
        !is_standard_method(a),
        !is_standard_method(b),
    ensures
        method_label(a) == method_label(b),
        method_label(a) == "OTHER"@,
{
}

/// Starting to wait and then stopping leaves a waiting gauge at the value it had (a gauge
/// not made before is then made at 0), and no gauge filed under another hash changes.
pub proof fn lemma_wait_then_stop_restores(values: Map<u64, i64>, key: u64)
    ensures
        gauge_at(stepped(stepped(values, key, 1), key, -1), key) == gauge_at(values, key),
        forall|other: u64|
            other != key ==> #[trigger] stepped(stepped(values, key, 1), key, -1).contains_key(other) == values.contains_key(
                other,
            ) && gauge_at(stepped(stepped(values, key, 1), key, -1), other) == gauge_at(values, other),
{
}

/// Record an HTTP request: one more request under (method label, route, status code) and
/// its duration under (method label, route).
pub fn record_http_request(m: &mut Metrics, method: &str, route: &str, status: u16, duration: Duration)
    requires
        old(m).wf(),
    ensures
        changed_only(*old(m), *final(m), set![MetricId::HttpRequestsTotal, MetricId::HttpRequestDurationSeconds]),
        final(m).wf(),
        counter_family_values(final(m).http_requests_total) == counted(
            counter_family_values(old(m).http_requests_total),
            series_key(seq![method_label(method@), route@, decimal(status as nat)]),
            1,
        ),
        histogram_family_observations(final(m).http_request_duration_seconds) == observed(
            histogram_family_observations(old(m).http_request_duration_seconds),
            series_key(seq![method_label(method@), route@]),
            duration,
        ),
{
    let method = http_method_label(method);
    let status_label = decimal_string(status as u64);
    let labels = [method, route, status_label.as_str()];
    assert(label_views(labels@) =~= seq![method@, route@, status_label@]);
    m.http_requests_total.inc(&labels);
    let labels = [method, route];
    assert(label_views(labels@) =~= seq![method@, route@]);
    m.http_request_duration_seconds.observe(&labels, duration);
}

/// Record a login attempt with its outcome and duration.
pub fn record_login_attempt(m: &mut Metrics, status: &str, duration: Duration)
    requires
        old(m).wf(),
    ensures
        changed_only(*old(m), *final(m), set![MetricId::AuthLoginAttemptsTotal, MetricId::AuthLoginDurationSeconds]),
        final(m).wf(),
        counter_family_values(final(m).auth_login_attempts_total) == counted(counter_family_values(old(m).auth_login_attempts_total), series_key(seq![status@]), 1),
        histogram_metric_observations(final(m).auth_login_duration_seconds) == histogram_metric_observations(old(m).auth_login_duration_seconds).push(duration),
{
    let labels = [status];
    assert(label_views(labels@) =~= seq![status@]);
    m.auth_login_attempts_total.inc(&labels);
    m.auth_login_duration_seconds.observe(duration);
}


/// Update the number of active sessions.
pub fn set_active_sessions(m: &mut Metrics, count: i64)
    ensures
        changed_only(*old(m), *final(m), set![MetricId::AuthActiveSessions]),
        old(m).wf() ==> final(m).wf(),
        gauge_metric_value(final(m).auth_active_sessions) == count,
{
    m.auth_active_sessions.set(count);
}


/// Record a rate limit hit on a route, by kind of identifier (`user`, `ip`, `unknown`).
pub fn record_rate_limit_hit(m: &mut Metrics, endpoint: &str, identifier_type: &str)
    requires
        old(m).wf(),
    ensures
        changed_only(*old(m), *final(m), set![MetricId::RateLimitHitsTotal]),
        final(m).wf(),
        counter_family_values(final(m).rate_limit_hits_total) == counted(counter_family_values(old(m).rate_limit_hits_total), series_key(seq![endpoint@, identifier_type@]), 1),
{
    let labels = [endpoint, identifier_type];
    assert(label_views(labels@) =~= seq![endpoint@, identifier_type@]);
    m.rate_limit_hits_total.inc(&labels);
}


/// Record the duration of a database query.
pub fn record_db_query(m: &mut Metrics, operation: &str, duration: Duration)
    requires
        old(m).wf(),
    ensures
        changed_only(*old(m), *final(m), set![MetricId::DbQueryDurationSeconds]),
        final(m).wf(),
        histogram_family_observations(final(m).db_query_duration_seconds) == observed(histogram_family_observations(old(m).db_query_duration_seconds), series_key(seq![operation@]), duration),
{
    let labels = [operation];
    assert(label_views(labels@) =~= seq![operation@]);
    m.db_query_duration_seconds.observe(&labels, duration);
}


/// Record a database connection error.
pub fn record_db_connection_error(m: &mut Metrics)
    ensures
        changed_only(*old(m), *final(m), set![MetricId::DbConnectionErrorsTotal]),
        old(m).wf() ==> final(m).wf(),
        counter_metric_value(final(m).db_connection_errors_total) == wrapping_add(counter_metric_value(old(m).db_connection_errors_total), 1),
{
    m.db_connection_errors_total.inc();
}


/// Record an error by type and endpoint.
pub fn record_error(m: &mut Metrics, error_type: &str, endpoint: &str)
    requires
        old(m).wf(),
    ensures
        changed_only(*old(m), *final(m), set![MetricId::ErrorsTotal]),
        final(m).wf(),
        counter_family_values(final(m).errors_total) == counted(counter_family_values(old(m).errors_total), series_key(seq![error_type@, endpoint@]), 1),
{
    let labels = [error_type, endpoint];
    assert(label_views(labels@) =~= seq![error_type@, endpoint@]);
    m.errors_total.inc(&labels);
}


/// The category of an endpoint path, from its prefix; the first matching rule wins.
pub open spec fn endpoint_category(path: Seq<char>) -> Seq<char> {
    if has_prefix(path, "/v1/content/stream"@) || has_prefix(path, "/v1/playback"@) {
        "stream"@
    } else if has_prefix(path, "/v1/content/image"@) {
        "image"@
    } else if has_prefix(path, "/v1/content"@) || has_prefix(path, "/v1/catalog"@) {
        "catalog"@
    } else if has_prefix(path, "/v1/search"@) {
        "search"@
    } else if has_prefix(path, "/v1/auth"@) {
        "auth"@
    } else if has_prefix(path, "/v1/user"@) {
        "user"@
    } else if has_prefix(path, "/v1/admin"@) {
        "admin"@
    } else {
        "other"@
    }
}

/// Categorize an endpoint path into a high-level category for bandwidth tracking.
pub fn categorize_endpoint(path: &str) -> (r: &'static str)
    ensures
        r@ == endpoint_category(path@),
{
    if starts_with(path, "/v1/content/stream") || starts_with(path, "/v1/playback") {
        "stream"
    } else if starts_with(path, "/v1/content/image") {
        "image"
    } else if starts_with(path, "/v1/content") || starts_with(path, "/v1/catalog") {
        "catalog"
    } else if starts_with(path, "/v1/search") {
        "search"
    } else if starts_with(path, "/v1/auth") {
        "auth"
    } else if starts_with(path, "/v1/user") {
        "user"
    } else if starts_with(path, "/v1/admin") {
        "admin"
    } else {
        "other"
    }
}

/// Record the response bytes of a request and count the request, by endpoint category.
pub fn record_bandwidth(m: &mut Metrics, endpoint_category: &str, response_bytes: u64)
    requires
        old(m).wf(),
    ensures
        changed_only(*old(m), *final(m), set![MetricId::BandwidthBytesTotal, MetricId::BandwidthRequestsTotal]),
        final(m).wf(),
        counter_family_values(final(m).bandwidth_bytes_total) == counted(counter_family_values(old(m).bandwidth_bytes_total), series_key(seq![endpoint_category@, "response"@]), response_bytes),
        counter_family_values(final(m).bandwidth_requests_total) == counted(counter_family_values(old(m).bandwidth_requests_total), series_key(seq![endpoint_category@]), 1),
{
    let labels = [endpoint_category, "response"];
    assert(label_views(labels@) =~= seq![endpoint_category@, "response"@]);
    m.bandwidth_bytes_total.inc_by(&labels, response_bytes);
    let labels = [endpoint_category];
    assert(label_views(labels@) =~= seq![endpoint_category@]);
    m.bandwidth_requests_total.inc(&labels);
}


/// The client label of a listening event, as [`listening_client_label`] gives it.
pub open spec fn client_label(client_type: Option<&str>) -> Seq<char> {
    match client_type {
        Some(c) => c@,
        None => "unknown"@,
    }
}

/// The completion label of a listening event, as [`completed_label`] gives it.
pub open spec fn completion_label(completed: bool) -> Seq<char> {
    if completed {
        "true"@
    } else {
        "false"@
    }
}

/// The client label of a listening event: its client type, or `unknown`.
pub fn listening_client_label<'a>(client_type: Option<&'a str>) -> (r: &'a str)
    ensures
        r@ == (match client_type {
            Some(c) => c@,
            None => "unknown"@,
        }),
{
    match client_type {
        Some(c) => c,
        None => "unknown",
    }
}

/// The completion label of a listening event: `true` or `false`.
pub fn completed_label(completed: bool) -> (r: &'static str)
    ensures
        r@ == (if completed {
            "true"@
        } else {
            "false"@
        }),
{
    if completed {
        "true"
    } else {
        "false"
    }
}

/// Record a listening event and the seconds listened, by client type.
pub fn record_listening_event(m: &mut Metrics, client_type: Option<&str>, completed: bool, duration_seconds: u32)
    requires
        old(m).wf(),
    ensures
        changed_only(*old(m), *final(m), set![MetricId::ListeningEventsTotal, MetricId::ListeningDurationSecondsTotal]),
        final(m).wf(),
        counter_family_values(final(m).listening_events_total) == counted(counter_family_values(old(m).listening_events_total), series_key(seq![client_label(client_type), completion_label(completed)]), 1),
        counter_family_values(final(m).listening_duration_seconds_total) == counted(counter_family_values(old(m).listening_duration_seconds_total), series_key(seq![client_label(client_type)]), duration_seconds as u64),
{
    let client = listening_client_label(client_type);
    let completed_text = completed_label(completed);
    let labels = [client, completed_text];
    assert(label_views(labels@) =~= seq![client@, completed_text@]);
    m.listening_events_total.inc(&labels);
    let labels = [client];
    assert(label_views(labels@) =~= seq![client@]);
    m.listening_duration_seconds_total.inc_by(&labels, duration_seconds as u64);
}


/// Record a successful downloader request and its duration.
pub fn record_downloader_request(m: &mut Metrics, operation: &str, duration: Duration)
    requires
        old(m).wf(),
    ensures
        changed_only(*old(m), *final(m), set![MetricId::DownloaderRequestsTotal, MetricId::DownloaderRequestDurationSeconds]),
        final(m).wf(),
        counter_family_values(final(m).downloader_requests_total) == counted(counter_family_values(old(m).downloader_requests_total), series_key(seq![operation@, "success"@]), 1),
        histogram_family_observations(final(m).downloader_request_duration_seconds) == observed(histogram_family_observations(old(m).downloader_request_duration_seconds), series_key(seq![operation@]), duration),
{
    let labels = [operation, "success"];
    assert(label_views(labels@) =~= seq![operation@, "success"@]);
    m.downloader_requests_total.inc(&labels);
    let labels = [operation];
    assert(label_views(labels@) =~= seq![operation@]);
    m.downloader_request_duration_seconds.observe(&labels, duration);
}


/// Record a failed downloader request with its error type.
pub fn record_downloader_error(m: &mut Metrics, operation: &str, error_type: &str)
    requires
        old(m).wf(),
    ensures
        changed_only(*old(m), *final(m), set![MetricId::DownloaderRequestsTotal, MetricId::DownloaderErrorsTotal]),
        final(m).wf(),
        counter_family_values(final(m).downloader_requests_total) == counted(counter_family_values(old(m).downloader_requests_total), series_key(seq![operation@, "error"@]), 1),
        counter_family_values(final(m).downloader_errors_total) == counted(counter_family_values(old(m).downloader_errors_total), series_key(seq![operation@, error_type@]), 1),
{
    let labels = [operation, "error"];
    assert(label_views(labels@) =~= seq![operation@, "error"@]);
    m.downloader_requests_total.inc(&labels);
    let labels = [operation, error_type];
    assert(label_views(labels@) =~= seq![operation@, error_type@]);
    m.downloader_errors_total.inc(&labels);
}


/// Record bytes downloaded from the downloader service.
pub fn record_downloader_bytes(m: &mut Metrics, content_type: &str, bytes: u64)
    requires
        old(m).wf(),
    ensures
        changed_only(*old(m), *final(m), set![MetricId::DownloaderBytesTotal]),
        final(m).wf(),
        counter_family_values(final(m).downloader_bytes_total) == counted(counter_family_values(old(m).downloader_bytes_total), series_key(seq![content_type@]), bytes),
{
    let labels = [content_type];
    assert(label_views(labels@) =~= seq![content_type@]);
    m.downloader_bytes_total.inc_by(&labels, bytes);
}


/// Set the count of stale in-progress download queue items.
pub fn set_download_stale_in_progress(m: &mut Metrics, count: usize)
    ensures
        changed_only(*old(m), *final(m), set![MetricId::DownloadQueueStaleInProgress]),
        old(m).wf() ==> final(m).wf(),
        gauge_metric_value(final(m).download_queue_stale_in_progress) == gauge_reading(count as nat),
{
    m.download_queue_stale_in_progress.set(gauge_value(count as u64));
}


/// Set the download queue size for a status and a priority (labelled in decimal).
pub fn set_download_queue_size(m: &mut Metrics, status: &str, priority: u8, count: usize)
    requires
        old(m).wf(),
    ensures
        changed_only(*old(m), *final(m), set![MetricId::DownloadQueueSize]),
        final(m).wf(),
        gauge_family_values(final(m).download_queue_size) == gauge_family_values(old(m).download_queue_size).insert(series_key(seq![status@, decimal(priority as nat)]), gauge_reading(count as nat)),
{
    let priority_label = decimal_string(priority as u64);
    let labels = [status, priority_label.as_str()];
    assert(label_views(labels@) =~= seq![status@, priority_label@]);
    m.download_queue_size.set(&labels, gauge_value(count as u64));
}


/// Record a processed download and its processing time.
pub fn record_download_processed(m: &mut Metrics, content_type: &str, result: &str, duration: Duration)
    requires
        old(m).wf(),
    ensures
        changed_only(*old(m), *final(m), set![MetricId::DownloadProcessedTotal, MetricId::DownloadProcessingDurationSeconds]),
        final(m).wf(),
        counter_family_values(final(m).download_processed_total) == counted(counter_family_values(old(m).download_processed_total), series_key(seq![content_type@, result@]), 1),
        histogram_family_observations(final(m).download_processing_duration_seconds) == observed(histogram_family_observations(old(m).download_processing_duration_seconds), series_key(seq![content_type@]), duration),
{
    let labels = [content_type, result];
    assert(label_views(labels@) =~= seq![content_type@, result@]);
    m.download_processed_total.inc(&labels);
    let labels = [content_type];
    assert(label_views(labels@) =~= seq![content_type@]);
    m.download_processing_duration_seconds.observe(&labels, duration);
}


/// Set the download capacity used in a period.
pub fn set_download_capacity_used(m: &mut Metrics, period: &str, count: usize)
    requires
        old(m).wf(),
    ensures
        changed_only(*old(m), *final(m), set![MetricId::DownloadCapacityUsed]),
        final(m).wf(),
        gauge_family_values(final(m).download_capacity_used) == gauge_family_values(old(m).download_capacity_used).insert(series_key(seq![period@]), gauge_reading(count as nat)),
{
    let labels = [period];
    assert(label_views(labels@) =~= seq![period@]);
    m.download_capacity_used.set(&labels, gauge_value(count as u64));
}


/// Record a user download request.
pub fn record_download_user_request(m: &mut Metrics, request_type: &str)
    requires
        old(m).wf(),
    ensures
        changed_only(*old(m), *final(m), set![MetricId::DownloadUserRequestsTotal]),
        final(m).wf(),
        counter_family_values(final(m).download_user_requests_total) == counted(counter_family_values(old(m).download_user_requests_total), series_key(seq![request_type@]), 1),
{
    let labels = [request_type];
    assert(label_views(labels@) =~= seq![request_type@]);
    m.download_user_requests_total.inc(&labels);
}


/// Record a download audit event.
pub fn record_download_audit_event(m: &mut Metrics, event_type: &str)
    requires
        old(m).wf(),
    ensures
        changed_only(*old(m), *final(m), set![MetricId::DownloadAuditEventsTotal]),
        final(m).wf(),
        counter_family_values(final(m).download_audit_events_total) == counted(counter_family_values(old(m).download_audit_events_total), series_key(seq![event_type@]), 1),
{
    let labels = [event_type];
    assert(label_views(labels@) =~= seq![event_type@]);
    m.download_audit_events_total.inc(&labels);
}


/// Update the throttle gauges: bytes used and limits per minute and per hour, and whether
/// downloads are throttled (1) or not (0).
pub fn update_throttle_metrics(m: &mut Metrics, bytes_last_minute: u64, bytes_last_hour: u64, max_bytes_per_minute: u64, max_bytes_per_hour: u64, is_throttled: bool)
    requires
        old(m).wf(),
    ensures
        changed_only(*old(m), *final(m), set![MetricId::DownloadThrottleBytes, MetricId::DownloadThrottleLimitBytes, MetricId::DownloadThrottleIsThrottled]),
        final(m).wf(),
        gauge_family_values(final(m).download_throttle_bytes) == gauge_family_values(old(m).download_throttle_bytes).insert(series_key(seq!["minute"@]), gauge_reading(bytes_last_minute as nat)).insert(series_key(seq!["hour"@]), gauge_reading(bytes_last_hour as nat)),
        gauge_family_values(final(m).download_throttle_limit_bytes) == gauge_family_values(old(m).download_throttle_limit_bytes).insert(series_key(seq!["minute"@]), gauge_reading(max_bytes_per_minute as nat)).insert(series_key(seq!["hour"@]), gauge_reading(max_bytes_per_hour as nat)),
        gauge_metric_value(final(m).download_throttle_is_throttled) == (if is_throttled { 1i64 } else { 0i64 }),
{
    let labels = ["minute"];
    assert(label_views(labels@) =~= seq!["minute"@]);
    m.download_throttle_bytes.set(&labels, gauge_value(bytes_last_minute as u64));
    let labels = ["hour"];
    assert(label_views(labels@) =~= seq!["hour"@]);
    m.download_throttle_bytes.set(&labels, gauge_value(bytes_last_hour as u64));
    let labels = ["minute"];
    assert(label_views(labels@) =~= seq!["minute"@]);
    m.download_throttle_limit_bytes.set(&labels, gauge_value(max_bytes_per_minute as u64));
    let labels = ["hour"];
    assert(label_views(labels@) =~= seq!["hour"@]);
    m.download_throttle_limit_bytes.set(&labels, gauge_value(max_bytes_per_hour as u64));
    m.download_throttle_is_throttled.set(flag_value(is_throttled));
}


/// Update the corruption handler gauges.
pub fn update_corruption_handler_metrics(m: &mut Metrics, level: u32, in_cooldown: bool, cooldown_remaining_secs: u64)
    ensures
        changed_only(*old(m), *final(m), set![MetricId::CorruptionHandlerLevel, MetricId::CorruptionHandlerInCooldown, MetricId::CorruptionHandlerCooldownSecs]),
        old(m).wf() ==> final(m).wf(),
        gauge_metric_value(final(m).corruption_handler_level) == gauge_reading(level as nat),
        gauge_metric_value(final(m).corruption_handler_in_cooldown) == (if in_cooldown { 1i64 } else { 0i64 }),
        gauge_metric_value(final(m).corruption_handler_cooldown_secs) == gauge_reading(cooldown_remaining_secs as nat),
{
    m.corruption_handler_level.set(gauge_value(level as u64));
    m.corruption_handler_in_cooldown.set(flag_value(in_cooldown));
    m.corruption_handler_cooldown_secs.set(gauge_value(cooldown_remaining_secs as u64));
}


/// Record a corruption event (an audio probe failure).
pub fn record_corruption_event(m: &mut Metrics)
    ensures
        changed_only(*old(m), *final(m), set![MetricId::CorruptionHandlerCorruptionsTotal]),
        old(m).wf() ==> final(m).wf(),
        counter_metric_value(final(m).corruption_handler_corruptions_total) == wrapping_add(counter_metric_value(old(m).corruption_handler_corruptions_total), 1),
{
    m.corruption_handler_corruptions_total.inc();
}


/// Record a downloader restart triggered by the corruption handler.
pub fn record_corruption_handler_restart(m: &mut Metrics)
    ensures
        changed_only(*old(m), *final(m), set![MetricId::CorruptionHandlerRestartsTotal]),
        old(m).wf() ==> final(m).wf(),
        counter_metric_value(final(m).corruption_handler_restarts_total) == wrapping_add(counter_metric_value(old(m).corruption_handler_restarts_total), 1),
{
    m.corruption_handler_restarts_total.inc();
}


/// Record a background job execution with its status and duration.
pub fn record_background_job_execution(m: &mut Metrics, job_id: &str, status: &str, duration: Duration)
    requires
        old(m).wf(),
    ensures
        changed_only(*old(m), *final(m), set![MetricId::BackgroundJobExecutionsTotal, MetricId::BackgroundJobDurationSeconds]),
        final(m).wf(),
        counter_family_values(final(m).background_job_executions_total) == counted(counter_family_values(old(m).background_job_executions_total), series_key(seq![job_id@, status@]), 1),
        histogram_family_observations(final(m).background_job_duration_seconds) == observed(histogram_family_observations(old(m).background_job_duration_seconds), series_key(seq![job_id@]), duration),
{
    let labels = [job_id, status];
    assert(label_views(labels@) =~= seq![job_id@, status@]);
    m.background_job_executions_total.inc(&labels);
    let labels = [job_id];
    assert(label_views(labels@) =~= seq![job_id@]);
    m.background_job_duration_seconds.observe(&labels, duration);
}


/// Set whether a background job is running (1) or not (0).
pub fn set_background_job_running(m: &mut Metrics, job_id: &str, running: bool)
    requires
        old(m).wf(),
    ensures
        changed_only(*old(m), *final(m), set![MetricId::BackgroundJobRunning]),
        final(m).wf(),
        gauge_family_values(final(m).background_job_running) == gauge_family_values(old(m).background_job_running).insert(series_key(seq![job_id@]), (if running { 1i64 } else { 0i64 })),
{
    let labels = [job_id];
    assert(label_views(labels@) =~= seq![job_id@]);
    m.background_job_running.set(&labels, flag_value(running));
}


/// A background job of a resource class starts or stops waiting for capacity.
pub fn background_job_waiting(m: &mut Metrics, resource_class: &str, waiting: bool)
    requires
        old(m).wf(),
    ensures
        changed_only(*old(m), *final(m), set![MetricId::BackgroundJobQueued]),
        final(m).wf(),
        gauge_family_values(final(m).background_job_queued) == stepped(gauge_family_values(old(m).background_job_queued), series_key(seq![resource_class@]), if waiting { 1int } else { -1int }),
{
    let labels = [resource_class];
    assert(label_views(labels@) =~= seq![resource_class@]);
    if waiting {
        m.background_job_queued.inc(&labels);
    } else {
        m.background_job_queued.dec(&labels);
    }
}


/// A background job starts after waiting `queue_wait`.
pub fn background_job_started(m: &mut Metrics, resource_class: &str, queue_wait: Duration)
    requires
        old(m).wf(),
    ensures
        changed_only(*old(m), *final(m), set![MetricId::BackgroundJobQueueWaitSeconds, MetricId::BackgroundJobActive]),
        final(m).wf(),
        histogram_family_observations(final(m).background_job_queue_wait_seconds) == observed(histogram_family_observations(old(m).background_job_queue_wait_seconds), series_key(seq![resource_class@]), queue_wait),
        gauge_family_values(final(m).background_job_active) == stepped(gauge_family_values(old(m).background_job_active), series_key(seq![resource_class@]), 1),
{
    let labels = [resource_class];
    assert(label_views(labels@) =~= seq![resource_class@]);
    m.background_job_queue_wait_seconds.observe(&labels, queue_wait);
    let labels = [resource_class];
    assert(label_views(labels@) =~= seq![resource_class@]);
    m.background_job_active.inc(&labels);
}


/// A background job finishes.
pub fn background_job_finished(m: &mut Metrics, resource_class: &str)
    requires
        old(m).wf(),
    ensures
        changed_only(*old(m), *final(m), set![MetricId::BackgroundJobActive]),
        final(m).wf(),
        gauge_family_values(final(m).background_job_active) == stepped(gauge_family_values(old(m).background_job_active), series_key(seq![resource_class@]), -1),
{
    let labels = [resource_class];
    assert(label_views(labels@) =~= seq![resource_class@]);
    m.background_job_active.dec(&labels);
}


/// Set whether the circuit breaker of a job is open (1) or closed (0).
pub fn set_background_job_circuit_open(m: &mut Metrics, job_id: &str, open: bool)
    requires
        old(m).wf(),
    ensures
        changed_only(*old(m), *final(m), set![MetricId::BackgroundJobCircuitOpen]),
        final(m).wf(),
        gauge_family_values(final(m).background_job_circuit_open) == gauge_family_values(old(m).background_job_circuit_open).insert(series_key(seq![job_id@]), (if open { 1i64 } else { 0i64 })),
{
    let labels = [job_id];
    assert(label_views(labels@) =~= seq![job_id@]);
    m.background_job_circuit_open.set(&labels, flag_value(open));
}


/// Record a trip of the circuit breaker of a job.
pub fn record_background_job_circuit_trip(m: &mut Metrics, job_id: &str)
    requires
        old(m).wf(),
    ensures
        changed_only(*old(m), *final(m), set![MetricId::BackgroundJobCircuitTripsTotal]),
        final(m).wf(),
        counter_family_values(final(m).background_job_circuit_trips_total) == counted(counter_family_values(old(m).background_job_circuit_trips_total), series_key(seq![job_id@]), 1),
{
    let labels = [job_id];
    assert(label_views(labels@) =~= seq![job_id@]);
    m.background_job_circuit_trips_total.inc(&labels);
}


/// Set the process memory usage.
pub fn set_process_memory_bytes(m: &mut Metrics, bytes: i64)
    ensures
        changed_only(*old(m), *final(m), set![MetricId::ProcessMemoryBytes]),
        old(m).wf() ==> final(m).wf(),
        gauge_metric_value(final(m).process_memory_bytes) == bytes,
{
    m.process_memory_bytes.set(bytes);
}


/// Initialize the catalog item counts by type.
pub fn init_catalog_metrics(m: &mut Metrics, num_artists: usize, num_albums: usize, num_tracks: usize)
    requires
        old(m).wf(),
    ensures
        changed_only(*old(m), *final(m), set![MetricId::CatalogItemsTotal]),
        final(m).wf(),
        gauge_family_values(final(m).catalog_items_total) == gauge_family_values(old(m).catalog_items_total).insert(series_key(seq!["artist"@]), gauge_reading(num_artists as nat)).insert(series_key(seq!["album"@]), gauge_reading(num_albums as nat)).insert(series_key(seq!["track"@]), gauge_reading(num_tracks as nat)),
{
    let labels = ["artist"];
    assert(label_views(labels@) =~= seq!["artist"@]);
    m.catalog_items_total.set(&labels, gauge_value(num_artists as u64));
    let labels = ["album"];
    assert(label_views(labels@) =~= seq!["album"@]);
    m.catalog_items_total.set(&labels, gauge_value(num_albums as u64));
    let labels = ["track"];
    assert(label_views(labels@) =~= seq!["track"@]);
    m.catalog_items_total.set(&labels, gauge_value(num_tracks as u64));
}


/// How a database or blocking operation ended.
#[derive(Clone, Copy, Debug, PartialEq, Eq, Structural)]
pub enum ExecutorOutcome {
    Success,
    StoreError,
    QueueTimeout,
    ExecutionTimeout,
    ShuttingDown,
    Panicked,
}

impl ExecutorOutcome {
    pub open spec fn label_spec(self) -> Seq<char> {
        match self {
            ExecutorOutcome::Success => "success"@,
            ExecutorOutcome::StoreError => "store_error"@,
            ExecutorOutcome::QueueTimeout => "queue_timeout"@,
            ExecutorOutcome::ExecutionTimeout => "execution_timeout"@,
            ExecutorOutcome::ShuttingDown => "shutting_down"@,
            ExecutorOutcome::Panicked => "panicked"@,
        }
    }

    /// The outcome label.
    pub fn label(self) -> (r: &'static str)
        ensures
            r@ == self.label_spec(),
    {
        match self {
            ExecutorOutcome::Success => "success",
            ExecutorOutcome::StoreError => "store_error",
            ExecutorOutcome::QueueTimeout => "queue_timeout",
            ExecutorOutcome::ExecutionTimeout => "execution_timeout",
            ExecutorOutcome::ShuttingDown => "shutting_down",
            ExecutorOutcome::Panicked => "panicked",
        }
    }
}

/// The database a worker lane serves, and whether it reads or writes.
#[derive(Clone, Copy, Debug, PartialEq, Eq, Structural)]
pub enum DbLane {
    CatalogRead,
    CatalogWrite,
    UserRead,
    UserWrite,
}

impl DbLane {
    pub open spec fn label_spec(self) -> Seq<char> {
        match self {
            DbLane::CatalogRead => "catalog_read"@,
            DbLane::CatalogWrite => "catalog_write"@,
            DbLane::UserRead => "user_read"@,
            DbLane::UserWrite => "user_write"@,
        }
    }

    /// The lane label.
    pub fn label(self) -> (r: &'static str)
        ensures
            r@ == self.label_spec(),
    {
        match self {
            DbLane::CatalogRead => "catalog_read",
            DbLane::CatalogWrite => "catalog_write",
            DbLane::UserRead => "user_read",
            DbLane::UserWrite => "user_write",
        }
    }
}

/// How urgently a database operation is scheduled.
#[derive(Clone, Copy, Debug, PartialEq, Eq, Structural)]
pub enum DbPriority {
    Interactive,
    Background,
}

impl DbPriority {
    pub open spec fn label_spec(self) -> Seq<char> {
        match self {
            DbPriority::Interactive => "interactive"@,
            DbPriority::Background => "background"@,
        }
    }

    /// The priority label.
    pub fn label(self) -> (r: &'static str)
        ensures
            r@ == self.label_spec(),
    {
        match self {
            DbPriority::Interactive => "interactive",
            DbPriority::Background => "background",
        }
    }
}

/// A database operation is queued.
pub fn db_executor_enqueued(m: &mut Metrics, priority: DbPriority)
    requires
        old(m).wf(),
    ensures
        changed_only(*old(m), *final(m), set![MetricId::DbExecutorQueued]),
        final(m).wf(),
        gauge_family_values(final(m).db_executor_queued) == stepped(gauge_family_values(old(m).db_executor_queued), series_key(seq![priority.label_spec()]), 1),
{
    let p = priority.label();
    let labels = [p];
    assert(label_views(labels@) =~= seq![p@]);
    m.db_executor_queued.inc(&labels);
}


/// A queued database operation starts executing after waiting `queue_wait`.
pub fn db_executor_started(m: &mut Metrics, lane: DbLane, priority: DbPriority, queue_wait: Duration)
    requires
        old(m).wf(),
    ensures
        changed_only(*old(m), *final(m), set![MetricId::DbExecutorQueued, MetricId::DbExecutorActive, MetricId::DbExecutorQueueWaitSeconds]),
        final(m).wf(),
        gauge_family_values(final(m).db_executor_queued) == stepped(gauge_family_values(old(m).db_executor_queued), series_key(seq![priority.label_spec()]), -1),
        gauge_family_values(final(m).db_executor_active) == stepped(gauge_family_values(old(m).db_executor_active), series_key(seq![lane.label_spec()]), 1),
        histogram_family_observations(final(m).db_executor_queue_wait_seconds) == observed(histogram_family_observations(old(m).db_executor_queue_wait_seconds), series_key(seq![lane.label_spec(), priority.label_spec()]), queue_wait),
{
    let p = priority.label();
    let lane_label = lane.label();
    let labels = [p];
    assert(label_views(labels@) =~= seq![p@]);
    m.db_executor_queued.dec(&labels);
    let labels = [lane_label];
    assert(label_views(labels@) =~= seq![lane_label@]);
    m.db_executor_active.inc(&labels);
    let labels = [lane_label, p];
    assert(label_views(labels@) =~= seq![lane_label@, p@]);
    m.db_executor_queue_wait_seconds.observe(&labels, queue_wait);
}


/// A queued database operation is dropped before it starts.
pub fn db_executor_cancelled(m: &mut Metrics, priority: DbPriority)
    requires
        old(m).wf(),
    ensures
        changed_only(*old(m), *final(m), set![MetricId::DbExecutorQueued]),
        final(m).wf(),
        gauge_family_values(final(m).db_executor_queued) == stepped(gauge_family_values(old(m).db_executor_queued), series_key(seq![priority.label_spec()]), -1),
{
    let p = priority.label();
    let labels = [p];
    assert(label_views(labels@) =~= seq![p@]);
    m.db_executor_queued.dec(&labels);
}


/// A database operation finishes after executing for `execution`.
pub fn db_executor_execution_finished(m: &mut Metrics, lane: DbLane, priority: DbPriority, execution: Duration)
    requires
        old(m).wf(),
    ensures
        changed_only(*old(m), *final(m), set![MetricId::DbExecutorActive, MetricId::DbExecutorExecutionSeconds]),
        final(m).wf(),
        gauge_family_values(final(m).db_executor_active) == stepped(gauge_family_values(old(m).db_executor_active), series_key(seq![lane.label_spec()]), -1),
        histogram_family_observations(final(m).db_executor_execution_seconds) == observed(histogram_family_observations(old(m).db_executor_execution_seconds), series_key(seq![lane.label_spec(), priority.label_spec()]), execution),
{
    let p = priority.label();
    let lane_label = lane.label();
    let labels = [lane_label];
    assert(label_views(labels@) =~= seq![lane_label@]);
    m.db_executor_active.dec(&labels);
    let labels = [lane_label, p];
    assert(label_views(labels@) =~= seq![lane_label@, p@]);
    m.db_executor_execution_seconds.observe(&labels, execution);
}


/// Record how a database operation ended.
pub fn record_db_executor_outcome(m: &mut Metrics, lane: DbLane, priority: DbPriority, outcome: ExecutorOutcome)
    requires
        old(m).wf(),
    ensures
        changed_only(*old(m), *final(m), set![MetricId::DbExecutorOperationsTotal]),
        final(m).wf(),
        counter_family_values(final(m).db_executor_operations_total) == counted(counter_family_values(old(m).db_executor_operations_total), series_key(seq![lane.label_spec(), priority.label_spec(), outcome.label_spec()]), 1),
{
    let p = priority.label();
    let lane_label = lane.label();
    let outcome_label = outcome.label();
    let labels = [lane_label, p, outcome_label];
    assert(label_views(labels@) =~= seq![lane_label@, p@, outcome_label@]);
    m.db_executor_operations_total.inc(&labels);
}


/// Blocking work of a pool starts or stops waiting for capacity.
pub fn blocking_work_waiting(m: &mut Metrics, pool: &str, waiting: bool)
    requires
        old(m).wf(),
    ensures
        changed_only(*old(m), *final(m), set![MetricId::BlockingWorkWaiting]),
        final(m).wf(),
        gauge_family_values(final(m).blocking_work_waiting) == stepped(gauge_family_values(old(m).blocking_work_waiting), series_key(seq![pool@]), if waiting { 1int } else { -1int }),
{
    let labels = [pool];
    assert(label_views(labels@) =~= seq![pool@]);
    if waiting {
        m.blocking_work_waiting.inc(&labels);
    } else {
        m.blocking_work_waiting.dec(&labels);
    }
}


/// Blocking work of a pool starts after waiting `queue_wait`.
pub fn blocking_work_started(m: &mut Metrics, pool: &str, queue_wait: Duration)
    requires
        old(m).wf(),
    ensures
        changed_only(*old(m), *final(m), set![MetricId::BlockingWorkActive, MetricId::BlockingWorkQueueWaitSeconds]),
        final(m).wf(),
        gauge_family_values(final(m).blocking_work_active) == stepped(gauge_family_values(old(m).blocking_work_active), series_key(seq![pool@]), 1),
        histogram_family_observations(final(m).blocking_work_queue_wait_seconds) == observed(histogram_family_observations(old(m).blocking_work_queue_wait_seconds), series_key(seq![pool@]), queue_wait),
{
    let labels = [pool];
    assert(label_views(labels@) =~= seq![pool@]);
    m.blocking_work_active.inc(&labels);
    let labels = [pool];
    assert(label_views(labels@) =~= seq![pool@]);
    m.blocking_work_queue_wait_seconds.observe(&labels, queue_wait);
}


/// Blocking work of a pool finishes after executing for `execution`.
pub fn blocking_work_finished(m: &mut Metrics, pool: &str, execution: Duration)
    requires
        old(m).wf(),
    ensures
        changed_only(*old(m), *final(m), set![MetricId::BlockingWorkActive, MetricId::BlockingWorkExecutionSeconds]),
        final(m).wf(),
        gauge_family_values(final(m).blocking_work_active) == stepped(gauge_family_values(old(m).blocking_work_active), series_key(seq![pool@]), -1),
        histogram_family_observations(final(m).blocking_work_execution_seconds) == observed(histogram_family_observations(old(m).blocking_work_execution_seconds), series_key(seq![pool@]), execution),
{
    let labels = [pool];
    assert(label_views(labels@) =~= seq![pool@]);
    m.blocking_work_active.dec(&labels);
    let labels = [pool];
    assert(label_views(labels@) =~= seq![pool@]);
    m.blocking_work_execution_seconds.observe(&labels, execution);
}


/// Record how blocking work of a pool ended.
pub fn record_blocking_work_outcome(m: &mut Metrics, pool: &str, outcome: ExecutorOutcome)
    requires
        old(m).wf(),
    ensures
        changed_only(*old(m), *final(m), set![MetricId::BlockingWorkOperationsTotal]),
        final(m).wf(),
        counter_family_values(final(m).blocking_work_operations_total) == counted(counter_family_values(old(m).blocking_work_operations_total), series_key(seq![pool@, outcome.label_spec()]), 1),
{
    let outcome_label = outcome.label();
    let labels = [pool, outcome_label];
    assert(label_views(labels@) =~= seq![pool@, outcome_label@]);
    m.blocking_work_operations_total.inc(&labels);
}


/// Storage used by the service, in bytes, with its breakdown.
#[derive(Clone, Copy, Debug, Default)]
pub struct StorageMetrics {
    /// Total storage of the service.
    pub total: u64,
    /// Database storage and its breakdown by database file.
    pub db_total: u64,
    pub db_catalog: u64,
    pub db_user: u64,
    pub db_server: u64,
    pub db_download_queue: u64,
    pub db_search: u64,
    /// Media storage and its breakdown.
    pub catalog_total: u64,
    pub catalog_audio: u64,
    pub catalog_images: u64,
}

/// The storage breakdown from the measured sizes of the five database files and the two
/// media directories: database and media totals, and their sum.
pub fn calculate_storage_metrics(
    db_catalog: u64,
    db_user: u64,
    db_server: u64,
    db_download_queue: u64,
    db_search: u64,
    catalog_audio: u64,
    catalog_images: u64,
) -> (r: StorageMetrics)
    requires
        db_catalog + db_user + db_server + db_download_queue + db_search + catalog_audio + catalog_images
            <= u64::MAX,
    ensures
        r.db_catalog == db_catalog,
        r.db_user == db_user,
        r.db_server == db_server,
        r.db_download_queue == db_download_queue,
        r.db_search == db_search,
        r.db_total == db_catalog + db_user + db_server + db_download_queue + db_search,
        r.catalog_audio == catalog_audio,
        r.catalog_images == catalog_images,
        r.catalog_total == catalog_audio + catalog_images,
        r.total == r.db_total + r.catalog_total,
{
    let db_total = db_catalog + db_user + db_server + db_download_queue + db_search;
    let catalog_total = catalog_audio + catalog_images;
    let total = db_total + catalog_total;
    StorageMetrics {
        total,
        db_total,
        db_catalog,
        db_user,
        db_server,
        db_download_queue,
        db_search,
        catalog_total,
        catalog_audio,
        catalog_images,
    }
}

/// Publish a storage breakdown under the service's `homelab_storage_bytes` paths.
pub fn update_storage_metrics(m: &mut Metrics, metrics: &StorageMetrics)
    requires
        old(m).wf(),
    ensures
        changed_only(*old(m), *final(m), set![MetricId::HomelabStorageBytes]),
        final(m).wf(),
        gauge_family_values(final(m).homelab_storage_bytes) == gauge_family_values(old(m).homelab_storage_bytes).insert(series_key(seq!["pezzottify"@, "/"@]), gauge_reading(metrics.total as nat)).insert(series_key(seq!["pezzottify"@, "/db"@]), gauge_reading(metrics.db_total as nat)).insert(series_key(seq!["pezzottify"@, "/db/catalog"@]), gauge_reading(metrics.db_catalog as nat)).insert(series_key(seq!["pezzottify"@, "/db/user"@]), gauge_reading(metrics.db_user as nat)).insert(series_key(seq!["pezzottify"@, "/db/server"@]), gauge_reading(metrics.db_server as nat)).insert(series_key(seq!["pezzottify"@, "/db/download_queue"@]), gauge_reading(metrics.db_download_queue as nat)).insert(series_key(seq!["pezzottify"@, "/db/search"@]), gauge_reading(metrics.db_search as nat)).insert(series_key(seq!["pezzottify"@, "/catalog"@]), gauge_reading(metrics.catalog_total as nat)).insert(series_key(seq!["pezzottify"@, "/catalog/audio"@]), gauge_reading(metrics.catalog_audio as nat)).insert(series_key(seq!["pezzottify"@, "/catalog/images"@]), gauge_reading(metrics.catalog_images as nat)),
{
    let labels = ["pezzottify", "/"];
    assert(label_views(labels@) =~= seq!["pezzottify"@, "/"@]);
    m.homelab_storage_bytes.set(&labels, gauge_value(metrics.total as u64));
    let labels = ["pezzottify", "/db"];
    assert(label_views(labels@) =~= seq!["pezzottify"@, "/db"@]);
    m.homelab_storage_bytes.set(&labels, gauge_value(metrics.db_total as u64));
    let labels = ["pezzottify", "/db/catalog"];
    assert(label_views(labels@) =~= seq!["pezzottify"@, "/db/catalog"@]);
    m.homelab_storage_bytes.set(&labels, gauge_value(metrics.db_catalog as u64));
    let labels = ["pezzottify", "/db/user"];
    assert(label_views(labels@) =~= seq!["pezzottify"@, "/db/user"@]);
    m.homelab_storage_bytes.set(&labels, gauge_value(metrics.db_user as u64));
    let labels = ["pezzottify", "/db/server"];
    assert(label_views(labels@) =~= seq!["pezzottify"@, "/db/server"@]);
    m.homelab_storage_bytes.set(&labels, gauge_value(metrics.db_server as u64));
    let labels = ["pezzottify", "/db/download_queue"];
    assert(label_views(labels@) =~= seq!["pezzottify"@, "/db/download_queue"@]);
    m.homelab_storage_bytes.set(&labels, gauge_value(metrics.db_download_queue as u64));
    let labels = ["pezzottify", "/db/search"];
    assert(label_views(labels@) =~= seq!["pezzottify"@, "/db/search"@]);
    m.homelab_storage_bytes.set(&labels, gauge_value(metrics.db_search as u64));
    let labels = ["pezzottify", "/catalog"];
    assert(label_views(labels@) =~= seq!["pezzottify"@, "/catalog"@]);
    m.homelab_storage_bytes.set(&labels, gauge_value(metrics.catalog_total as u64));
    let labels = ["pezzottify", "/catalog/audio"];
    assert(label_views(labels@) =~= seq!["pezzottify"@, "/catalog/audio"@]);
    m.homelab_storage_bytes.set(&labels, gauge_value(metrics.catalog_audio as u64));
    let labels = ["pezzottify", "/catalog/images"];
    assert(label_views(labels@) =~= seq!["pezzottify"@, "/catalog/images"@]);
    m.homelab_storage_bytes.set(&labels, gauge_value(metrics.catalog_images as u64));
}


/// The names of the metric families currently exported by the registry.
pub fn metric_names(m: &Metrics) -> (r: Vec<String>) {
    gathered_family_names(&m.registry)
}

impl Metrics {
    /// The registry the metrics were registered in.
    pub closed spec fn registry_spec(&self) -> Registry {
        self.registry
    }

    /// The registry that every metric is registered in, as the metrics endpoint gathers
    /// it.
    pub fn registry(&self) -> (r: &Registry)
        ensures
            *r == self.registry_spec(),
    {
        &self.registry
    }
}

} // verus!
