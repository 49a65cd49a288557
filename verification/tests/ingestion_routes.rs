use pezzottify::ingestion::output_bitrate;
use pezzottify::access::parse_grantable_permission;
use pezzottify::access::Permission;
use pezzottify::access::Session;
use pezzottify::api_error::DbRunError;
use pezzottify::api_error::StoreFailure;
use pezzottify::ingestion::upload_failure_status;
use pezzottify::ingestion::authorize_job;
use pezzottify::ingestion::can_access_ingestion_job;
use pezzottify::ingestion::complete_upload;
use pezzottify::ingestion::default_limit;
use pezzottify::ingestion::may_use_ingestion;
use pezzottify::ingestion::upload_response;
use pezzottify::ingestion::IngestionContextType;
use pezzottify::ingestion::IngestionJob;
use pezzottify::ingestion::IngestionJobAction;
use pezzottify::ingestion::JobLookup;
use pezzottify::ingestion::PaginationQuery;
use pezzottify::ingestion::UploadField;
use pezzottify::ingestion::UploadForm;

fn session(user_id: usize, permissions: Vec<Permission>) -> Session {
    Session {
        user_id,
        token: "test".to_string(),
        permissions,
        device_id: None,
        device_type: None,
    }
}

#[test]
fn owner_with_edit_catalog_can_access_job() {
    let session = session(42, vec![Permission::EditCatalog]);
    let job = IngestionJob::new("job", "42", "album.zip", 1, 1);

    assert!(can_access_ingestion_job(
        &session,
        &job,
        IngestionJobAction::Process
    ));
}

#[test]
fn edit_catalog_does_not_grant_cross_user_access() {
    let session = session(42, vec![Permission::EditCatalog]);
    let job = IngestionJob::new("job", "7", "album.zip", 1, 1);

    assert!(!can_access_ingestion_job(
        &session,
        &job,
        IngestionJobAction::ResolveReview
    ));
}

#[test]
fn server_admin_grants_audited_cross_user_access() {
    let session = session(42, vec![Permission::ServerAdmin]);
    let job = IngestionJob::new("job", "7", "album.zip", 1, 1);

    assert!(can_access_ingestion_job(
        &session,
        &job,
        IngestionJobAction::Delete
    ));
}

#[test]
fn owner_without_edit_catalog_cannot_access_job() {
    let session = session(42, vec![]);
    let job = IngestionJob::new("job", "42", "album.zip", 1, 1);

    assert!(!can_access_ingestion_job(
        &session,
        &job,
        IngestionJobAction::View
    ));
}

#[test]
fn job_lookups_answer_forbidden_missing_or_unavailable() {
    let owner = session(42, vec![Permission::EditCatalog]);
    let stranger = session(9, vec![Permission::EditCatalog]);
    let job = IngestionJob::new("job", "42", "album.zip", 1, 1);
    assert!(authorize_job(&owner, JobLookup::Found(job.clone()), IngestionJobAction::View).is_ok());
    assert_eq!(
        authorize_job(&stranger, JobLookup::Found(job), IngestionJobAction::View).unwrap_err(),
        403
    );
    assert_eq!(authorize_job(&owner, JobLookup::Missing, IngestionJobAction::View).unwrap_err(), 404);
    assert_eq!(
        authorize_job(&owner, JobLookup::Failed(DbRunError::QueueTimeout), IngestionJobAction::View)
            .unwrap_err(),
        503
    );
    assert_eq!(
        authorize_job(
            &owner,
            JobLookup::Failed(DbRunError::Panicked("boom".to_string())),
            IngestionJobAction::View
        )
        .unwrap_err(),
        500
    );
}

#[test]
fn ingestion_needs_edit_catalog_or_server_admin() {
    assert!(may_use_ingestion(&session(1, vec![Permission::EditCatalog])));
    assert!(may_use_ingestion(&session(1, vec![Permission::AccessCatalog, Permission::ServerAdmin])));
    assert!(!may_use_ingestion(&session(1, vec![Permission::AccessCatalog])));
}

#[test]
fn uploads_need_a_named_non_empty_file() {
    let mut form = UploadForm::new();
    form.accept(UploadField::ContextType("download_request".to_string()));
    form.accept(UploadField::ContextId(String::new()));
    form.accept(UploadField::Ignored);
    assert_eq!(complete_upload(form.clone()).unwrap_err().error, "No filename provided");

    form.accept(UploadField::File { filename: Some("album.zip".to_string()), data: vec![] });
    assert_eq!(complete_upload(form.clone()).unwrap_err().error, "No file data provided");

    form.accept(UploadField::File { filename: Some("album.zip".to_string()), data: vec![1, 2] });
    form.accept(UploadField::ContextId("q-7".to_string()));
    let upload = complete_upload(form).unwrap();
    assert_eq!(upload.filename, "album.zip");
    assert_eq!(upload.data, vec![1, 2]);
    assert_eq!(upload.context_type, IngestionContextType::DownloadRequest);
    assert_eq!(upload.context_id.as_deref(), Some("q-7"));
}

#[test]
fn upload_answer_names_the_first_job() {
    let r = upload_response(vec!["j1".to_string(), "j2".to_string()], "s".to_string(), 2);
    assert_eq!(r.job_id, "j1");
    assert_eq!(r.job_ids.len(), 2);
    assert_eq!(r.status, "PENDING");
    let empty = upload_response(vec![], "s".to_string(), 0);
    assert_eq!(empty.job_id, "");
}

#[test]
fn pages_default_to_fifty_items() {
    assert_eq!(default_limit(), 50);
    let q = PaginationQuery::default();
    assert_eq!(q.limit, 50);
    assert_eq!(q.offset, 0);
}

#[test]
fn grantable_permissions_are_read_by_name() {
    assert_eq!(parse_grantable_permission("ServerAdmin"), Some(Permission::ServerAdmin));
    assert_eq!(parse_grantable_permission("DownloadManagerAdmin"), Some(Permission::DownloadManagerAdmin));
    assert_eq!(parse_grantable_permission("ReportBug"), None);
    assert_eq!(parse_grantable_permission("serveradmin"), None);
    assert_eq!(Permission::EditCatalog.name(), "EditCatalog");
}

#[test]
fn output_bitrates_read_with_or_without_their_unit() {
    assert_eq!(output_bitrate("320k"), 320);
    assert_eq!(output_bitrate("192K"), 192);
    assert_eq!(output_bitrate("256kk"), 256);
    assert_eq!(output_bitrate("128"), 128);
    assert_eq!(output_bitrate("fast"), 320);
    assert_eq!(output_bitrate("k"), 320);
    assert_eq!(output_bitrate("99999999999k"), 320);
}

#[test]
fn upload_failure_status_maps_invalid_context_to_bad_request() {
    let store_error = DbRunError::Store(StoreFailure::Other("invalid context".to_string()));
    assert_eq!(upload_failure_status(&store_error, true), 400);
    assert_eq!(upload_failure_status(&store_error, false), 500);
    assert_eq!(upload_failure_status(&DbRunError::QueueTimeout, true), 503);
    assert_eq!(upload_failure_status(&DbRunError::Panicked("boom".to_string()), true), 500);
}
