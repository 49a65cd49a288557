//! The JSON error answers of the API: status, stable code, message, request id, and a
//! retry hint where the failure is a passing lack of capacity.

use vstd::prelude::*;

verus! {

/// Seconds a client should wait before retrying after a capacity failure.
pub const RETRY_AFTER_SECONDS: &'static str = "1";

/// A lower-case hexadecimal digit.
pub open spec fn lower_hex(c: char) -> bool {
    ('0' <= c <= '9') || ('a' <= c <= 'f')
}

/// The text of a UUID in hyphenated form: 36 characters, hyphens at 8, 13, 18 and 23,
/// lower-case hexadecimal digits elsewhere.
pub open spec fn hyphenated_uuid(s: Seq<char>) -> bool {
    &&& s.len() == 36
    &&& forall|i: int|
        0 <= i < 36 ==> if i == 8 || i == 13 || i == 18 || i == 23 {
            s[i] == '-'
        } else {
            lower_hex(#[trigger] s[i])
        }
}

/// Calls `uuid::Uuid::new_v4` and writes it with `to_string`. Claimed: the hyphenated
/// lower-case form that `uuid` writes. Which UUID comes out rests on chance and is not
/// stated.
#[verifier::external_body]
fn new_request_id() -> (r: String)
    ensures
        hyphenated_uuid(r@),
{
    uuid::Uuid::new_v4().to_string()
}

/// Why the user service refused an operation.
#[derive(Clone, Debug)]
pub enum UserServiceError {
    Validation(String),
    NotFound(String),
    Conflict(String),
    /// An internal failure, described for the log only.
    Internal(String),
}

impl UserServiceError {
    pub fn playlist_not_found() -> (r: UserServiceError)
        ensures
            r matches UserServiceError::NotFound(m) && m@ == "Playlist not found"@,
    {
        UserServiceError::NotFound("Playlist not found".to_string())
    }

    pub fn operation_conflict() -> (r: UserServiceError)
        ensures
            r matches UserServiceError::Conflict(m) && m@
                == "Operation conflicts with a previous request"@,
    {
        UserServiceError::Conflict("Operation conflicts with a previous request".to_string())
    }
}

/// What failed inside a database operation.
#[derive(Clone, Debug)]
pub enum StoreFailure {
    /// A refusal of the user service.
    UserService(UserServiceError),
    /// Any other failure, described for the log only.
    Other(String),
}

/// How a database operation handed to the executor failed.
#[derive(Clone, Debug)]
pub enum DbRunError {
    /// It waited too long for a worker.
    QueueTimeout,
    /// It ran too long.
    ExecutionTimeout,
    /// The executor is stopping.
    ShuttingDown,
    /// The worker panicked.
    Panicked(String),
    /// The operation itself failed.
    Store(StoreFailure),
}

/// The executor had no capacity (a passing condition, worth retrying).
pub open spec fn capacity_failure(e: DbRunError) -> bool {
    e is QueueTimeout || e is ExecutionTimeout || e is ShuttingDown
}

/// HTTP status for a database failure: 503 where the executor had no capacity, 500
/// otherwise.
pub fn executor_status(error: &DbRunError) -> (r: u16)
    ensures
        r == (if capacity_failure(*error) {
            503u16
        } else {
            500u16
        }),
{
    match error {
        DbRunError::QueueTimeout | DbRunError::ExecutionTimeout | DbRunError::ShuttingDown => 503,
        DbRunError::Panicked(_) | DbRunError::Store(_) => 500,
    }
}

/// A catalog change refused because of the catalog's contents.
#[derive(Clone, Debug)]
pub enum CatalogMutationError {
    AlreadyExists { entity: String, id: String },
    NotFound { entity: String, id: String },
    InvalidReference { entity: String, id: String },
}

/// An error answer of the API.
#[derive(Clone, Debug)]
pub struct ApiError {
    status: u16,
    code: &'static str,
    message: String,
    request_id: String,
    retry_after: Option<&'static str>,
}

impl ApiError {
    pub closed spec fn status_spec(&self) -> u16 {
        self.status
    }

    pub closed spec fn code_spec(&self) -> Seq<char> {
        self.code@
    }

    pub closed spec fn message_spec(&self) -> Seq<char> {
        self.message@
    }

    pub closed spec fn request_id_spec(&self) -> Seq<char> {
        self.request_id@
    }

    pub closed spec fn retry_after_spec(&self) -> Option<Seq<char>> {
        match self.retry_after {
            Some(r) => Some(r@),
            None => None,
        }
    }

    /// An answer with a fresh request id and no retry hint.
    pub open spec fn shaped(&self, status: u16, code: Seq<char>, message: Seq<char>) -> bool {
        &&& self.status_spec() == status
        &&& self.code_spec() == code
        &&& self.message_spec() == message
        &&& hyphenated_uuid(self.request_id_spec())
        &&& self.retry_after_spec() is None
    }

    /// A capacity failure: status 503 and a retry hint of one second.
    pub open spec fn retryable(&self, code: Seq<char>, message: Seq<char>) -> bool {
        &&& self.status_spec() == 503
        &&& self.code_spec() == code
        &&& self.message_spec() == message
        &&& hyphenated_uuid(self.request_id_spec())
        &&& self.retry_after_spec() == Some("1"@)
    }

    fn new(status: u16, code: &'static str, message: String) -> (r: ApiError)
        ensures
            r.shaped(status, code@, message@),
    {
        ApiError { status, code, message, request_id: new_request_id(), retry_after: None }
    }

    pub fn status(&self) -> (r: u16)
        ensures
            r == self.status_spec(),
    {
        self.status
    }

    pub fn code(&self) -> (r: &'static str)
        ensures
            r@ == self.code_spec(),
    {
        self.code
    }

    pub fn message(&self) -> (r: &str)
        ensures
            r@ == self.message_spec(),
    {
        self.message.as_str()
    }

    pub fn request_id(&self) -> (r: &str)
        ensures
            r@ == self.request_id_spec(),
    {
        self.request_id.as_str()
    }

    /// The `Retry-After` value, where the answer carries one.
    pub fn retry_after(&self) -> (r: Option<&'static str>)
        ensures
            match r {
                Some(v) => self.retry_after_spec() == Some(v@),
                None => self.retry_after_spec() is None,
            },
    {
        self.retry_after
    }

    pub fn bad_request(code: &'static str, message: String) -> (r: ApiError)
        ensures
            r.shaped(400, code@, message@),
    {
        ApiError::new(400, code, message)
    }

    pub fn not_found(code: &'static str, message: String) -> (r: ApiError)
        ensures
            r.shaped(404, code@, message@),
    {
        ApiError::new(404, code, message)
    }

    pub fn conflict(code: &'static str, message: String) -> (r: ApiError)
        ensures
            r.shaped(409, code@, message@),
    {
        ApiError::new(409, code, message)
    }

    /// An internal failure. Its cause is only logged (under `context`); the answer says
    /// nothing of it.
    pub fn internal(context: &'static str) -> (r: ApiError)
        ensures
            r.shaped(500, "internal_error"@, "An internal error occurred"@),
    {
        ApiError::new(500, "internal_error", "An internal error occurred".to_string())
    }

    /// Password checking has no capacity left for now.
    pub fn password_verification_unavailable() -> (r: ApiError)
        ensures
            r.retryable(
                "authentication_busy"@,
                "Authentication capacity is temporarily unavailable"@,
            ),
    {
        proof {
            reveal_strlit("1");
        }
        let mut error = ApiError::new(
            503,
            "authentication_busy",
            "Authentication capacity is temporarily unavailable".to_string(),
        );
        error.retry_after = Some(RETRY_AFTER_SECONDS);
        error
    }

    /// The database executor has no capacity left for now.
    pub fn database_unavailable() -> (r: ApiError)
        ensures
            r.retryable(
                "database_unavailable"@,
                "Database capacity is temporarily unavailable"@,
            ),
    {
        proof {
            reveal_strlit("1");
        }
        let mut error = ApiError::new(
            503,
            "database_unavailable",
            "Database capacity is temporarily unavailable".to_string(),
        );
        error.retry_after = Some(RETRY_AFTER_SECONDS);
        error
    }

    /// The answer to a refusal of the user service.
    pub fn from_user_service_error(error: UserServiceError) -> (r: ApiError)
        ensures
            match error {
                UserServiceError::Validation(m) => r.shaped(400, "invalid_request"@, m@),
                UserServiceError::NotFound(m) => r.shaped(404, "playlist_not_found"@, m@),
                UserServiceError::Conflict(m) => r.shaped(409, "idempotency_conflict"@, m@),
                UserServiceError::Internal(_) => r.shaped(
                    500,
                    "internal_error"@,
                    "An internal error occurred"@,
                ),
            },
    {
        match error {
            UserServiceError::Validation(m) => ApiError::bad_request("invalid_request", m),
            UserServiceError::NotFound(m) => ApiError::not_found("playlist_not_found", m),
            UserServiceError::Conflict(m) => ApiError::conflict("idempotency_conflict", m),
            UserServiceError::Internal(_) => ApiError::internal("User service operation failed"),
        }
    }

    /// The answer to a failed executor run: retryable where capacity ran out, an opaque
    /// internal error otherwise.
    pub fn from_db_run_error(error: DbRunError) -> (r: ApiError)
        ensures
            capacity_failure(error) ==> r.retryable(
                "database_unavailable"@,
                "Database capacity is temporarily unavailable"@,
            ),
            !capacity_failure(error) ==> r.shaped(
                500,
                "internal_error"@,
                "An internal error occurred"@,
            ),
    {
        match error {
            DbRunError::QueueTimeout | DbRunError::ExecutionTimeout | DbRunError::ShuttingDown => {
                ApiError::database_unavailable()
            },
            _ => ApiError::internal("Database executor operation failed"),
        }
    }

    /// The answer to a failed user-database run: the user service's refusal where there
    /// is one, retryable where capacity ran out, an opaque internal error otherwise.
    pub fn user_database(error: DbRunError) -> (r: ApiError)
        ensures
            match error {
                DbRunError::Store(StoreFailure::UserService(e)) => match e {
                    UserServiceError::Validation(m) => r.shaped(400, "invalid_request"@, m@),
                    UserServiceError::NotFound(m) => r.shaped(404, "playlist_not_found"@, m@),
                    UserServiceError::Conflict(m) => r.shaped(409, "idempotency_conflict"@, m@),
                    UserServiceError::Internal(_) => r.shaped(
                        500,
                        "internal_error"@,
                        "An internal error occurred"@,
                    ),
                },
                DbRunError::Store(StoreFailure::Other(_)) => r.shaped(
                    500,
                    "internal_error"@,
                    "An internal error occurred"@,
                ),
                other => if capacity_failure(other) {
                    r.retryable(
                        "database_unavailable"@,
                        "Database capacity is temporarily unavailable"@,
                    )
                } else {
                    r.shaped(500, "internal_error"@, "An internal error occurred"@)
                },
            },
    {
        match error {
            DbRunError::Store(StoreFailure::UserService(e)) => ApiError::from_user_service_error(e),
            DbRunError::Store(StoreFailure::Other(_)) => ApiError::internal(
                "User database operation failed",
            ),
            other => ApiError::from_db_run_error(other),
        }
    }

    /// The answer to a refused catalog change, by what refused it; `None` stands for any
    /// other failure, answered as an opaque internal error.
    pub fn catalog_mutation(error: Option<CatalogMutationError>) -> (r: ApiError)
        ensures
            match error {
                Some(CatalogMutationError::AlreadyExists { entity, id }) => r.shaped(
                    409,
                    "catalog_item_exists"@,
                    entity@ + " '"@ + id@ + "' already exists"@,
                ),
                Some(CatalogMutationError::NotFound { entity, id }) => r.shaped(
                    404,
                    "catalog_item_not_found"@,
                    entity@ + " '"@ + id@ + "' not found"@,
                ),
                Some(CatalogMutationError::InvalidReference { entity, id }) => r.shaped(
                    400,
                    "invalid_catalog_reference"@,
                    "Referenced "@ + entity@ + " '"@ + id@ + "' not found"@,
                ),
                None => r.shaped(500, "internal_error"@, "An internal error occurred"@),
            },
    {
        match error {
            Some(CatalogMutationError::AlreadyExists { entity, id }) => {
                let mut m = entity;
                m.append(" '");
                m.append(id.as_str());
                m.append("' already exists");
                ApiError::conflict("catalog_item_exists", m)
            },
            Some(CatalogMutationError::NotFound { entity, id }) => {
                let mut m = entity;
                m.append(" '");
                m.append(id.as_str());
                m.append("' not found");
                ApiError::not_found("catalog_item_not_found", m)
            },
            Some(CatalogMutationError::InvalidReference { entity, id }) => {
                let mut m = "Referenced ".to_string();
                m.append(entity.as_str());
                m.append(" '");
                m.append(id.as_str());
                m.append("' not found");
                ApiError::bad_request("invalid_catalog_reference", m)
            },
            None => ApiError::internal("Catalog mutation failed"),
        }
    }
}

/// The answer of the user administration routes to a failed run: an internal error,
/// logged under `context`, where the operation itself failed; otherwise what
/// `ApiError::from_db_run_error` answers.
pub fn admin_user_db_error(context: &'static str, error: DbRunError) -> (r: ApiError)
    ensures
        error is Store ==> r.shaped(500, "internal_error"@, "An internal error occurred"@),
        !(error is Store) && capacity_failure(error) ==> r.retryable(
            "database_unavailable"@,
            "Database capacity is temporarily unavailable"@,
        ),
        !(error is Store) && !capacity_failure(error) ==> r.shaped(
            500,
            "internal_error"@,
            "An internal error occurred"@,
        ),
{
    match error {
        DbRunError::Store(_) => ApiError::internal(context),
        other => ApiError::from_db_run_error(other),
    }
}

} // verus!
