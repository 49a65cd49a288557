//! Who may see and act on ingestion jobs, and the shapes the ingestion routes exchange.

use vstd::prelude::*;

use crate::access::Permission;
use crate::access::Session;
use crate::api_error::capacity_failure;
use crate::api_error::executor_status;
use crate::api_error::DbRunError;
use crate::numeric::parse_decimal_range;
use crate::numeric::parse_unsigned_decimal;
use crate::text::chars_of;
use crate::text::decimal;
use crate::text::decimal_string;
use crate::text::str_eq;

verus! {

/// What the routes keep of an ingestion job: its id, the user who uploaded it (as the
/// decimal text of their id), the uploaded file's name, its size and how many files it
/// held.
#[derive(Clone, Debug)]
pub struct IngestionJob {
    pub id: String,
    pub user_id: String,
    pub original_filename: String,
    pub total_size_bytes: u64,
    pub file_count: usize,
}

impl IngestionJob {
    pub fn new(id: &str, user_id: &str, original_filename: &str, total_size_bytes: u64, file_count: usize) -> (r: IngestionJob)
        ensures
            r.id@ == id@,
            r.user_id@ == user_id@,
            r.original_filename@ == original_filename@,
            r.total_size_bytes == total_size_bytes,
            r.file_count == file_count,
    {
        IngestionJob {
            id: id.to_string(),
            user_id: user_id.to_string(),
            original_filename: original_filename.to_string(),
            total_size_bytes,
            file_count,
        }
    }
}

/// What a route does with a job.
#[derive(Clone, Copy, Debug, PartialEq, Eq, Structural)]
pub enum IngestionJobAction {
    View,
    Process,
    Convert,
    ResolveReview,
    Delete,
}

/// The session's user uploaded the job.
pub open spec fn owns_job(session: Session, job: IngestionJob) -> bool {
    job.user_id@ == decimal(session.user_id as nat)
}

/// Whether the session's user uploaded `job`.
pub fn is_job_owner(session: &Session, job: &IngestionJob) -> (r: bool)
    ensures
        r == owns_job(*session, *job),
{
    let actor = decimal_string(session.user_id as u64);
    str_eq(job.user_id.as_str(), actor.as_str())
}

/// The one policy for every read and change of an ingestion job, whatever the action: the
/// owner needs `EditCatalog`; anyone else needs `ServerAdmin` (such access is audited).
pub open spec fn may_access_job(session: Session, job: IngestionJob) -> bool {
    if owns_job(session, job) {
        session.has_permission_spec(Permission::EditCatalog)
    } else {
        session.has_permission_spec(Permission::ServerAdmin)
    }
}

/// Whether `session` may perform `action` on `job`.
pub fn can_access_ingestion_job(session: &Session, job: &IngestionJob, action: IngestionJobAction) -> (r: bool)
    ensures
        r == may_access_job(*session, *job),
{
    if is_job_owner(session, job) {
        return session.has_permission(Permission::EditCatalog);
    }
    session.has_permission(Permission::ServerAdmin)
}

/// Whether the session may upload files or list its jobs: catalog editors and server
/// administrators may.
pub fn may_use_ingestion(session: &Session) -> (r: bool)
    ensures
        r == (session.has_permission_spec(Permission::EditCatalog)
            || session.has_permission_spec(Permission::ServerAdmin)),
{
    session.has_permission(Permission::EditCatalog) || session.has_permission(Permission::ServerAdmin)
}

/// Answer to an upload.
#[derive(Clone, Debug)]
pub struct UploadResponse {
    /// The first job created (kept for older clients).
    pub job_id: String,
    /// Every job created from the upload.
    pub job_ids: Vec<String>,
    /// The upload session grouping those jobs.
    pub session_id: String,
    /// Albums found in the upload.
    pub album_count: usize,
    pub status: String,
}

/// Answer to a job status request.
#[derive(Clone, Debug)]
pub struct JobStatusResponse {
    pub job: IngestionJob,
}

/// Answer to a review queue request: the items awaiting a human decision.
#[derive(Clone, Debug)]
pub struct ReviewQueueResponse<T> {
    pub items: Vec<T>,
}

/// Body of a base64 upload (kept for a future route).
#[derive(Clone, Debug)]
pub struct UploadBody {
    /// The original file name.
    pub filename: String,
    /// The file, base64-encoded.
    pub data: String,
    /// `spontaneous` or `download_request`.
    pub context_type: Option<String>,
    /// The download queue item the upload answers, if any.
    pub context_id: Option<String>,
}

/// Body of a review decision: the option chosen (`track:<id>`, or `no_match`).
#[derive(Clone, Debug)]
pub struct ResolveReviewBody {
    pub selected_option: String,
}

/// Page size asked for when the query names none.
pub fn default_limit() -> (r: usize)
    ensures
        r == 50,
{
    50
}

/// A page of results: how many and from where.
#[derive(Clone, Copy, Debug)]
pub struct PaginationQuery {
    pub limit: usize,
    pub offset: usize,
}

impl Default for PaginationQuery {
    fn default() -> (r: Self)
        ensures
            r.limit == 50,
            r.offset == 0,
    {
        PaginationQuery { limit: default_limit(), offset: 0 }
    }
}

/// Counts of jobs by state (kept for a future route).
#[derive(Clone, Copy, Debug)]
pub struct IngestionStatsResponse {
    pub pending_jobs: usize,
    pub processing_jobs: usize,
    pub awaiting_review: usize,
    pub completed_jobs: usize,
    pub failed_jobs: usize,
}

/// The body of an error answer.
#[derive(Clone, Debug)]
pub struct ErrorResponse {
    pub error: String,
}

/// Where an upload comes from.
#[derive(Clone, Copy, Debug, PartialEq, Eq, Structural)]
pub enum IngestionContextType {
    /// Uploaded on the user's own initiative.
    Spontaneous,
    /// Uploaded to answer a download request.
    DownloadRequest,
}

/// What the multipart fields of an upload have said so far.
#[derive(Clone, Debug)]
pub struct UploadForm {
    pub filename: Option<String>,
    pub data: Option<Vec<u8>>,
    pub context_type: IngestionContextType,
    pub context_id: Option<String>,
}

/// One multipart field of an upload, as read.
#[derive(Clone, Debug)]
pub enum UploadField {
    /// The `file` field: the name the client gave it and its bytes.
    File { filename: Option<String>, data: Vec<u8> },
    /// The `context_type` field, as text (invalid UTF-8 replaced).
    ContextType(String),
    /// The `context_id` field, as text (invalid UTF-8 replaced).
    ContextId(String),
    /// A field of another name, or one whose bytes could not be read.
    Ignored,
}

impl UploadForm {
    /// Nothing read yet: no file, a spontaneous upload, no context id.
    pub fn new() -> (r: UploadForm)
        ensures
            r.filename is None,
            r.data is None,
            r.context_type == IngestionContextType::Spontaneous,
            r.context_id is None,
    {
        UploadForm {
            filename: None,
            data: None,
            context_type: IngestionContextType::Spontaneous,
            context_id: None,
        }
    }

    /// Takes in one field: a later `file` field replaces an earlier one; a
    /// `context_type` of `download_request` marks the upload as such (any other value
    /// leaves it as it was); a non-empty `context_id` is kept.
    pub fn accept(&mut self, field: UploadField)
        ensures
            match field {
                UploadField::File { filename, data } => {
                    &&& final(self).filename == filename
                    &&& final(self).data == Some(data)
                    &&& final(self).context_type == old(self).context_type
                    &&& final(self).context_id == old(self).context_id
                },
                UploadField::ContextType(v) => {
                    &&& final(self).filename == old(self).filename
                    &&& final(self).data == old(self).data
                    &&& final(self).context_type == (if v@ == "download_request"@ {
                        IngestionContextType::DownloadRequest
                    } else {
                        old(self).context_type
                    })
                    &&& final(self).context_id == old(self).context_id
                },
                UploadField::ContextId(v) => {
                    &&& final(self).filename == old(self).filename
                    &&& final(self).data == old(self).data
                    &&& final(self).context_type == old(self).context_type
                    &&& final(self).context_id == (if v@.len() > 0 {
                        Some(v)
                    } else {
                        old(self).context_id
                    })
                },
                UploadField::Ignored => *final(self) == *old(self),
            },
    {
        match field {
            UploadField::File { filename, data } => {
                self.filename = filename;
                self.data = Some(data);
            },
            UploadField::ContextType(v) => {
                if str_eq(v.as_str(), "download_request") {
                    self.context_type = IngestionContextType::DownloadRequest;
                }
            },
            UploadField::ContextId(v) => {
                if v.as_str().unicode_len() > 0 {
                    self.context_id = Some(v);
                }
            },
            UploadField::Ignored => {},
        }
    }
}

/// An upload ready to be handed to the ingestion manager.
#[derive(Clone, Debug)]
pub struct AcceptedUpload {
    pub filename: String,
    pub data: Vec<u8>,
    pub context_type: IngestionContextType,
    pub context_id: Option<String>,
}

/// The upload names a file.
pub open spec fn names_file(form: UploadForm) -> bool {
    form.filename matches Some(f) && f@.len() > 0
}

/// The upload sent bytes.
pub open spec fn sends_data(form: UploadForm) -> bool {
    form.data matches Some(d) && d@.len() > 0
}

/// Checks that an upload named its file and sent bytes; the error is the message
/// answered with status 400.
pub fn complete_upload(form: UploadForm) -> (r: Result<AcceptedUpload, ErrorResponse>)
    ensures
        !names_file(form) ==> (r matches Err(e) && e.error@ == "No filename provided"@),
        names_file(form) && !sends_data(form) ==> (r matches Err(e) && e.error@
            == "No file data provided"@),
        names_file(form) && sends_data(form) ==> (r matches Ok(u) && Some(u.filename)
            == form.filename && Some(u.data) == form.data && u.context_type == form.context_type
            && u.context_id == form.context_id),
{
    let filename = match form.filename {
        Some(f) => {
            if f.as_str().unicode_len() == 0 {
                return Err(ErrorResponse { error: "No filename provided".to_string() });
            }
            f
        },
        None => return Err(ErrorResponse { error: "No filename provided".to_string() }),
    };
    let data = match form.data {
        Some(d) => {
            if d.len() == 0 {
                return Err(ErrorResponse { error: "No file data provided".to_string() });
            }
            d
        },
        None => return Err(ErrorResponse { error: "No file data provided".to_string() }),
    };
    Ok(
        AcceptedUpload {
            filename,
            data,
            context_type: form.context_type,
            context_id: form.context_id,
        },
    )
}

/// The status of a failed upload: 400 where the operation itself failed because the
/// ingestion manager refused the upload's context (`invalid_context`), else the executor's
/// status for the failure (503 without capacity, 500 otherwise).
pub fn upload_failure_status(error: &DbRunError, invalid_context: bool) -> (r: u16)
    ensures
        r == (if error is Store && invalid_context {
            400u16
        } else if capacity_failure(*error) {
            503u16
        } else {
            500u16
        }),
{
    match error {
        DbRunError::Store(_) => {
            if invalid_context {
                400
            } else {
                500
            }
        },
        _ => executor_status(error),
    }
}

/// The answer to an accepted upload: the first job (empty where none was created), all
/// jobs, the upload session and the album count, all `PENDING`.
pub fn upload_response(job_ids: Vec<String>, session_id: String, album_count: usize) -> (r: UploadResponse)
    ensures
        r.job_ids@ == job_ids@,
        r.session_id == session_id,
        r.album_count == album_count,
        r.status@ == "PENDING"@,
        job_ids@.len() > 0 ==> r.job_id@ == job_ids@[0]@,
        job_ids@.len() == 0 ==> r.job_id@ == Seq::<char>::empty(),
{
    let job_id = if job_ids.len() > 0 {
        job_ids[0].clone()
    } else {
        String::new()
    };
    UploadResponse { job_id, job_ids, session_id, album_count, status: "PENDING".to_string() }
}

/// How looking up a job for a route ended.
#[derive(Clone, Debug)]
pub enum JobLookup {
    Found(IngestionJob),
    Missing,
    Failed(crate::api_error::DbRunError),
}

/// The job a route may act on, or the status it answers: 403 where the policy refuses
/// the session, 404 where there is no such job, and the executor's status where the
/// lookup failed.
pub fn authorize_job(session: &Session, lookup: JobLookup, action: IngestionJobAction) -> (r: Result<IngestionJob, u16>)
    ensures
        match lookup {
            JobLookup::Found(job) => if may_access_job(*session, job) {
                r == Ok::<IngestionJob, u16>(job)
            } else {
                r == Err::<IngestionJob, u16>(403)
            },
            JobLookup::Missing => r == Err::<IngestionJob, u16>(404),
            JobLookup::Failed(e) => r == Err::<IngestionJob, u16>(
                if crate::api_error::capacity_failure(e) {
                    503
                } else {
                    500
                },
            ),
        },
{
    match lookup {
        JobLookup::Found(job) => {
            if can_access_ingestion_job(session, &job, action) {
                Ok(job)
            } else {
                Err(403)
            }
        },
        JobLookup::Missing => Err(404),
        JobLookup::Failed(e) => Err(crate::api_error::executor_status(&e)),
    }
}

/// Owners hold `EditCatalog` to reach their own jobs; that permission never reaches
/// another user's job, which only `ServerAdmin` reaches.
pub proof fn lemma_cross_user_access_needs_server_admin(session: Session, job: IngestionJob)
    requires
        !owns_job(session, job),
    ensures
        may_access_job(session, job) <==> session.has_permission_spec(Permission::ServerAdmin),
{
}

} // verus!

verus! {

/// `s` without the copies of `c` at its end.
pub open spec fn without_trailing(s: Seq<char>, c: char) -> Seq<char>
    decreases s.len(),
{
    if s.len() > 0 && s.last() == c {
        without_trailing(s.drop_last(), c)
    } else {
        s
    }
}

/// The bitrate used when the configured one does not read as a number.
pub const DEFAULT_OUTPUT_BITRATE: u32 = 320;

/// The output bitrate, in kbit/s, of a setting such as `320k`: the text without its
/// trailing `k`s and then `K`s, read as a `u32`; `DEFAULT_OUTPUT_BITRATE` where it does not
/// read.
pub open spec fn output_bitrate_spec(setting: Seq<char>) -> u32 {
    match parse_unsigned_decimal(without_trailing(without_trailing(setting, 'k'), 'K'), u32::MAX as nat) {
        Some(v) => v as u32,
        None => DEFAULT_OUTPUT_BITRATE,
    }
}

/// The output bitrate of a setting (see [`output_bitrate_spec`]).
pub fn output_bitrate(setting: &str) -> (r: u32)
    ensures
        r == output_bitrate_spec(setting@),
{
    let cs = chars_of(setting);
    let mut end = cs.len();
    assert(cs@.subrange(0, cs@.len() as int) =~= cs@);
    while end > 0 && cs[end - 1] == 'k'
        invariant
            end <= cs@.len(),
            without_trailing(cs@, 'k') == without_trailing(cs@.subrange(0, end as int), 'k'),
        decreases end,
    {
        assert(cs@.subrange(0, end as int).drop_last() =~= cs@.subrange(0, end - 1));
        end = end - 1;
    }
    let ghost after_k = cs@.subrange(0, end as int);
    assert(without_trailing(after_k, 'k') == after_k);
    while end > 0 && cs[end - 1] == 'K'
        invariant
            end <= after_k.len() <= cs@.len(),
            after_k == cs@.subrange(0, after_k.len() as int),
            without_trailing(after_k, 'K') == without_trailing(cs@.subrange(0, end as int), 'K'),
        decreases end,
    {
        assert(cs@.subrange(0, end as int).drop_last() =~= cs@.subrange(0, end - 1));
        end = end - 1;
    }
    match parse_decimal_range(&cs, 0, end, 0xffff_ffff) {
        Some(v) => v as u32,
        None => DEFAULT_OUTPUT_BITRATE,
    }
}

} // verus!
