//! The decisions of a password login, as a machine that the HTTP handler drives: each
//! event (what the last piece of outside work gave) yields the next piece of work, or the
//! answer and how the attempt is counted.

use vstd::prelude::*;

use crate::api_error::ApiError;
use crate::api_error::DbRunError;
use crate::api_error::capacity_failure;

verus! {

/// How a login attempt is counted in the metrics.
#[derive(Clone, Copy, Debug, PartialEq, Eq, Structural)]
pub enum LoginAttempt {
    Disabled,
    Failure,
    Error,
    Success,
}

impl LoginAttempt {
    pub open spec fn label_spec(self) -> Seq<char> {
        match self {
            LoginAttempt::Disabled => "disabled"@,
            LoginAttempt::Failure => "failure"@,
            LoginAttempt::Error => "error"@,
            LoginAttempt::Success => "success"@,
        }
    }

    /// The metric label of the attempt.
    pub fn label(&self) -> (r: &'static str)
        ensures
            r@ == self.label_spec(),
    {
        match self {
            LoginAttempt::Disabled => "disabled",
            LoginAttempt::Failure => "failure",
            LoginAttempt::Error => "error",
            LoginAttempt::Success => "success",
        }
    }
}

/// How the pool of password workers failed a check.
#[derive(Clone, Copy, Debug, PartialEq, Eq, Structural)]
pub enum PasswordWorkError {
    QueueTimeout,
    ExecutionTimeout,
    ShuttingDown,
    WorkerPanicked,
}

/// The answer to a failed password check: retryable where the pool had no capacity, an
/// opaque internal error where a worker panicked.
pub fn password_work_error_answer(error: PasswordWorkError) -> (r: ApiError)
    ensures
        error != PasswordWorkError::WorkerPanicked ==> r.retryable(
            "authentication_busy"@,
            "Authentication capacity is temporarily unavailable"@,
        ),
        error == PasswordWorkError::WorkerPanicked ==> r.shaped(
            500,
            "internal_error"@,
            "An internal error occurred"@,
        ),
{
    match error {
        PasswordWorkError::WorkerPanicked => ApiError::internal("Password verification failed"),
        _ => ApiError::password_verification_unavailable(),
    }
}

/// What looking up the account's credentials gave.
#[derive(Clone, Debug)]
pub enum CredentialsLookup {
    /// The account exists; it may or may not have a password.
    Found { has_password: bool },
    Missing,
    Failed(DbRunError),
}

/// What the last piece of outside work gave.
#[derive(Debug)]
pub enum LoginEvent {
    /// The request arrived; password logins may be switched off.
    Received { password_auth_disabled: bool },
    /// The device information was checked; `error` tells why it was refused.
    DeviceChecked { error: Option<String> },
    CredentialsLoaded(CredentialsLookup),
    /// The password was checked against the stored hash.
    PasswordChecked(Result<bool, PasswordWorkError>),
    /// The session (permissions, device, token) was created and stored.
    SessionCreated(Result<(), DbRunError>),
}

/// The answer to a login.
#[derive(Clone, Debug)]
pub enum LoginReply {
    /// 403 with this message.
    Forbidden(&'static str),
    /// 400 with the device check's message.
    BadRequest(String),
    /// 401.
    Unauthorized,
    /// An API error answer.
    Failed(ApiError),
    /// 201 with the token, the handle and the permissions, and the session cookies.
    Created,
}

/// What the handler does next.
#[derive(Clone, Debug)]
pub enum LoginStep {
    CheckDevice,
    LoadCredentials,
    VerifyPassword,
    CreateSession,
    Finish { attempt: LoginAttempt, reply: LoginReply },
}

/// Where a login stands: which event it waits for.
#[derive(Clone, Copy, Debug, PartialEq, Eq, Structural)]
pub enum LoginState {
    Received,
    CheckingDevice,
    LoadingCredentials,
    VerifyingPassword,
    CreatingSession,
    Finished,
}

/// The event that a state waits for.
pub open spec fn awaited(state: LoginState, event: LoginEvent) -> bool {
    match state {
        LoginState::Received => event is Received,
        LoginState::CheckingDevice => event is DeviceChecked,
        LoginState::LoadingCredentials => event is CredentialsLoaded,
        LoginState::VerifyingPassword => event is PasswordChecked,
        LoginState::CreatingSession => event is SessionCreated,
        LoginState::Finished => false,
    }
}

/// The message of a switched-off password login.
pub open spec fn disabled_message() -> Seq<char> {
    "Password authentication is disabled. Please use OIDC authentication."@
}

/// The next state of a login and what it does then. A refused check ends the login:
/// switched-off password logins (403, counted `disabled`), a refused device (400), an
/// unknown account, an account without password or a wrong password (401, all counted
/// `failure`); a failed lookup, check or session store ends it with the matching error
/// answer (counted `error`). Only a stored session answers 201 (counted `success`).
pub open spec fn login_transition(state: LoginState, event: LoginEvent, next: LoginState, step: LoginStep) -> bool {
    match event {
        LoginEvent::Received { password_auth_disabled } => if password_auth_disabled {
            &&& next == LoginState::Finished
            &&& step matches LoginStep::Finish { attempt, reply }
            &&& attempt == LoginAttempt::Disabled
            &&& reply matches LoginReply::Forbidden(m)
            &&& m@ == disabled_message()
        } else {
            next == LoginState::CheckingDevice && step is CheckDevice
        },
        LoginEvent::DeviceChecked { error } => match error {
            Some(e) => {
                &&& next == LoginState::Finished
                &&& step matches LoginStep::Finish { attempt, reply }
                &&& attempt == LoginAttempt::Failure
                &&& reply matches LoginReply::BadRequest(m)
                &&& m@ == e@
            },
            None => next == LoginState::LoadingCredentials && step is LoadCredentials,
        },
        LoginEvent::CredentialsLoaded(lookup) => match lookup {
            CredentialsLookup::Found { has_password } => if has_password {
                next == LoginState::VerifyingPassword && step is VerifyPassword
            } else {
                next == LoginState::Finished && step == (LoginStep::Finish {
                    attempt: LoginAttempt::Failure,
                    reply: LoginReply::Unauthorized,
                })
            },
            CredentialsLookup::Missing => next == LoginState::Finished && step == (
            LoginStep::Finish { attempt: LoginAttempt::Failure, reply: LoginReply::Unauthorized }),
            CredentialsLookup::Failed(e) => {
                &&& next == LoginState::Finished
                &&& step matches LoginStep::Finish { attempt, reply }
                &&& attempt == LoginAttempt::Error
                &&& reply matches LoginReply::Failed(api)
                &&& capacity_failure(e) ==> api.retryable(
                    "database_unavailable"@,
                    "Database capacity is temporarily unavailable"@,
                )
                &&& !capacity_failure(e) ==> api.shaped(
                    500,
                    "internal_error"@,
                    "An internal error occurred"@,
                )
            },
        },
        LoginEvent::PasswordChecked(check) => match check {
            Ok(true) => next == LoginState::CreatingSession && step is CreateSession,
            Ok(false) => next == LoginState::Finished && step == (LoginStep::Finish {
                attempt: LoginAttempt::Failure,
                reply: LoginReply::Unauthorized,
            }),
            Err(e) => {
                &&& next == LoginState::Finished
                &&& step matches LoginStep::Finish { attempt, reply }
                &&& attempt == LoginAttempt::Error
                &&& reply matches LoginReply::Failed(api)
                &&& e != PasswordWorkError::WorkerPanicked ==> api.retryable(
                    "authentication_busy"@,
                    "Authentication capacity is temporarily unavailable"@,
                )
                &&& e == PasswordWorkError::WorkerPanicked ==> api.shaped(
                    500,
                    "internal_error"@,
                    "An internal error occurred"@,
                )
            },
        },
        LoginEvent::SessionCreated(result) => match result {
            Ok(()) => next == LoginState::Finished && step == (LoginStep::Finish {
                attempt: LoginAttempt::Success,
                reply: LoginReply::Created,
            }),
            Err(e) => {
                &&& next == LoginState::Finished
                &&& step matches LoginStep::Finish { attempt, reply }
                &&& attempt == LoginAttempt::Error
                &&& reply matches LoginReply::Failed(api)
                &&& capacity_failure(e) ==> api.retryable(
                    "database_unavailable"@,
                    "Database capacity is temporarily unavailable"@,
                )
                &&& !capacity_failure(e) ==> api.shaped(
                    500,
                    "internal_error"@,
                    "An internal error occurred"@,
                )
            },
        },
    }
}

/// Takes one event of a login and says what comes next.
pub fn login_step(state: LoginState, event: LoginEvent) -> (r: (LoginState, LoginStep))
    requires
        awaited(state, event),
    ensures
        login_transition(state, event, r.0, r.1),
{
    match event {
        LoginEvent::Received { password_auth_disabled } => {
            if password_auth_disabled {
                (
                    LoginState::Finished,
                    LoginStep::Finish {
                        attempt: LoginAttempt::Disabled,
                        reply: LoginReply::Forbidden(
                            "Password authentication is disabled. Please use OIDC authentication.",
                        ),
                    },
                )
            } else {
                (LoginState::CheckingDevice, LoginStep::CheckDevice)
            }
        },
        LoginEvent::DeviceChecked { error } => match error {
            Some(e) => (
                LoginState::Finished,
                LoginStep::Finish { attempt: LoginAttempt::Failure, reply: LoginReply::BadRequest(e) },
            ),
            None => (LoginState::LoadingCredentials, LoginStep::LoadCredentials),
        },
        LoginEvent::CredentialsLoaded(lookup) => match lookup {
            CredentialsLookup::Found { has_password } => {
                if has_password {
                    (LoginState::VerifyingPassword, LoginStep::VerifyPassword)
                } else {
                    (
                        LoginState::Finished,
                        LoginStep::Finish {
                            attempt: LoginAttempt::Failure,
                            reply: LoginReply::Unauthorized,
                        },
                    )
                }
            },
            CredentialsLookup::Missing => (
                LoginState::Finished,
                LoginStep::Finish { attempt: LoginAttempt::Failure, reply: LoginReply::Unauthorized },
            ),
            CredentialsLookup::Failed(e) => (
                LoginState::Finished,
                LoginStep::Finish {
                    attempt: LoginAttempt::Error,
                    reply: LoginReply::Failed(ApiError::from_db_run_error(e)),
                },
            ),
        },
        LoginEvent::PasswordChecked(check) => match check {
            Ok(true) => (LoginState::CreatingSession, LoginStep::CreateSession),
            Ok(false) => (
                LoginState::Finished,
                LoginStep::Finish { attempt: LoginAttempt::Failure, reply: LoginReply::Unauthorized },
            ),
            Err(e) => (
                LoginState::Finished,
                LoginStep::Finish {
                    attempt: LoginAttempt::Error,
                    reply: LoginReply::Failed(password_work_error_answer(e)),
                },
            ),
        },
        LoginEvent::SessionCreated(result) => match result {
            Ok(()) => (
                LoginState::Finished,
                LoginStep::Finish { attempt: LoginAttempt::Success, reply: LoginReply::Created },
            ),
            Err(e) => (
                LoginState::Finished,
                LoginStep::Finish {
                    attempt: LoginAttempt::Error,
                    reply: LoginReply::Failed(ApiError::from_db_run_error(e)),
                },
            ),
        },
    }
}

/// A login answers 201 only after its session was stored, and every other way out of
/// the machine is counted as something other than a success.
pub proof fn lemma_only_stored_sessions_succeed(state: LoginState, event: LoginEvent, next: LoginState, step: LoginStep)
    requires
        login_transition(state, event, next, step),
        step matches LoginStep::Finish { attempt, .. } && attempt == LoginAttempt::Success,
    ensures
        event matches LoginEvent::SessionCreated(result) && result is Ok,
        step matches LoginStep::Finish { reply, .. } && reply is Created,
{
}

} // verus!
