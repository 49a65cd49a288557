//! The decisions that finish an OIDC login, as a machine that the handler drives: find
//! or provision the user, attach the device the login started from where that works,
//! then issue the session token.

use vstd::prelude::*;

verus! {

/// What the last call into the user store gave. Errors are described for the log.
#[derive(Debug)]
pub enum OidcEvent {
    /// The user bound to the OIDC subject, if any.
    SubjectLookedUp(Result<Option<usize>, String>),
    /// The user created for the subject.
    Provisioned(Result<usize, String>),
    /// The device known by the login's device UUID, if any.
    DeviceLookedUp(Result<Option<usize>, String>),
    /// The device was tied to the user (a failure is only logged).
    DeviceAssociated,
    /// The device registered from the login's device information; an error also stands
    /// for device information that does not validate.
    DeviceRegistered(Result<usize, String>),
    /// The session token issued.
    TokenIssued(Result<String, String>),
}

/// What the handler does next.
#[derive(Debug)]
pub enum OidcStep {
    LookUpSubject,
    ProvisionUser,
    /// Look the device up by its UUID.
    LookUpDevice,
    /// Tie `device_id` to `user_id`.
    AssociateDevice { device_id: usize, user_id: usize },
    /// Register the device, of the given type, from the login's device information.
    RegisterDevice { device_type: String },
    IssueToken { user_id: usize, device_id: Option<usize> },
    /// The user and the token, or the error that ended the login.
    Finish(Result<(usize, String), String>),
}

/// Where an OIDC login stands.
#[derive(Clone, Copy, Debug, PartialEq, Eq, Structural)]
pub enum OidcStage {
    LookingUpSubject,
    Provisioning,
    LookingUpDevice,
    Associating,
    Registering,
    IssuingToken,
    Finished,
}

/// An OIDC login in progress: what the stored login state said of the device, and what
/// is known so far.
#[derive(Clone, Debug)]
pub struct OidcLogin {
    pub stage: OidcStage,
    /// The device UUID the login started from, if any.
    pub device_uuid: Option<String>,
    /// The device type it declared, if any.
    pub device_type: Option<String>,
    pub user_id: Option<usize>,
    pub device_id: Option<usize>,
}

/// The event that a stage waits for.
pub open spec fn awaits(stage: OidcStage, event: OidcEvent) -> bool {
    match stage {
        OidcStage::LookingUpSubject => event is SubjectLookedUp,
        OidcStage::Provisioning => event is Provisioned,
        OidcStage::LookingUpDevice => event is DeviceLookedUp,
        OidcStage::Associating => event is DeviceAssociated,
        OidcStage::Registering => event is DeviceRegistered,
        OidcStage::IssuingToken => event is TokenIssued,
        OidcStage::Finished => false,
    }
}

/// The login knows its user in every stage after the user was found or provisioned.
pub open spec fn oidc_wf(s: OidcLogin) -> bool {
    (s.stage == OidcStage::LookingUpDevice || s.stage == OidcStage::Associating || s.stage
        == OidcStage::Registering || s.stage == OidcStage::IssuingToken) ==> s.user_id is Some
}

/// What follows once the user is known: the device lookup where the login named a
/// device, else the token.
pub open spec fn after_user(s: OidcLogin, user: usize, next: OidcLogin, step: OidcStep) -> bool {
    &&& next.user_id == Some(user)
    &&& next.device_uuid == s.device_uuid
    &&& next.device_type == s.device_type
    &&& if s.device_uuid is Some {
        next.stage == OidcStage::LookingUpDevice && step is LookUpDevice
    } else {
        next.stage == OidcStage::IssuingToken && next.device_id is None && step == (
        OidcStep::IssueToken { user_id: user, device_id: None })
    }
}

/// Going to the token with what is known of the device.
pub open spec fn to_token(s: OidcLogin, device: Option<usize>, next: OidcLogin, step: OidcStep) -> bool {
    &&& next.stage == OidcStage::IssuingToken
    &&& next.user_id == s.user_id
    &&& next.device_id == device
    &&& step == (OidcStep::IssueToken { user_id: s.user_id->0, device_id: device })
}

/// One step of the login. A failed subject lookup, provisioning or token ends it with
/// that error; every failure about the device only leaves the device out.
pub open spec fn oidc_transition(s: OidcLogin, event: OidcEvent, next: OidcLogin, step: OidcStep) -> bool {
    match event {
        OidcEvent::SubjectLookedUp(r) => match r {
            Err(e) => next.stage == OidcStage::Finished && step == (OidcStep::Finish(Err(e))),
            Ok(Some(user)) => after_user(s, user, next, step),
            Ok(None) => next.stage == OidcStage::Provisioning && next.device_uuid == s.device_uuid
                && next.device_type == s.device_type && step is ProvisionUser,
        },
        OidcEvent::Provisioned(r) => match r {
            Err(e) => next.stage == OidcStage::Finished && step == (OidcStep::Finish(Err(e))),
            Ok(user) => after_user(s, user, next, step),
        },
        OidcEvent::DeviceLookedUp(r) => match r {
            Ok(Some(device)) => {
                &&& next.stage == OidcStage::Associating
                &&& next.user_id == s.user_id
                &&& next.device_id == Some(device)
                &&& step == (OidcStep::AssociateDevice { device_id: device, user_id: s.user_id->0 })
            },
            Ok(None) => {
                &&& next.stage == OidcStage::Registering
                &&& next.user_id == s.user_id
                &&& step matches OidcStep::RegisterDevice { device_type }
                &&& device_type@ == match s.device_type {
                    Some(t) => t@,
                    None => "web"@,
                }
            },
            Err(_) => to_token(s, None, next, step),
        },
        OidcEvent::DeviceAssociated => to_token(s, s.device_id, next, step),
        OidcEvent::DeviceRegistered(r) => match r {
            Ok(device) => {
                &&& next.stage == OidcStage::Associating
                &&& next.user_id == s.user_id
                &&& next.device_id == Some(device)
                &&& step == (OidcStep::AssociateDevice { device_id: device, user_id: s.user_id->0 })
            },
            Err(_) => to_token(s, None, next, step),
        },
        OidcEvent::TokenIssued(r) => next.stage == OidcStage::Finished && match r {
            Ok(token) => step == (OidcStep::Finish(Ok((s.user_id->0, token)))),
            Err(e) => step == (OidcStep::Finish(Err(e))),
        },
    }
}

impl OidcLogin {
    /// A login that starts by looking up its subject.
    pub fn new(device_uuid: Option<String>, device_type: Option<String>) -> (r: OidcLogin)
        ensures
            r.stage == OidcStage::LookingUpSubject,
            r.device_uuid == device_uuid,
            r.device_type == device_type,
            r.user_id is None,
            r.device_id is None,
    {
        OidcLogin {
            stage: OidcStage::LookingUpSubject,
            device_uuid,
            device_type,
            user_id: None,
            device_id: None,
        }
    }

    fn user_known(&mut self, user: usize) -> (r: OidcStep)
        ensures
            after_user(*old(self), user, *final(self), r),
    {
        self.user_id = Some(user);
        if self.device_uuid.is_some() {
            self.stage = OidcStage::LookingUpDevice;
            OidcStep::LookUpDevice
        } else {
            self.stage = OidcStage::IssuingToken;
            self.device_id = None;
            OidcStep::IssueToken { user_id: user, device_id: None }
        }
    }

    fn token_with(&mut self, device: Option<usize>) -> (r: OidcStep)
        requires
            old(self).user_id is Some,
        ensures
            to_token(*old(self), device, *final(self), r),
    {
        self.stage = OidcStage::IssuingToken;
        self.device_id = device;
        let user = match self.user_id {
            Some(u) => u,
            None => 0,
        };
        OidcStep::IssueToken { user_id: user, device_id: device }
    }

    /// Takes the answer of the last call and says what to do next.
    pub fn step(&mut self, event: OidcEvent) -> (r: OidcStep)
        requires
            oidc_wf(*old(self)),
            awaits(old(self).stage, event),
        ensures
            oidc_wf(*final(self)),
            oidc_transition(*old(self), event, *final(self), r),
    {
        match event {
            OidcEvent::SubjectLookedUp(r) => match r {
                Err(e) => {
                    self.stage = OidcStage::Finished;
                    OidcStep::Finish(Err(e))
                },
                Ok(Some(user)) => self.user_known(user),
                Ok(None) => {
                    self.stage = OidcStage::Provisioning;
                    OidcStep::ProvisionUser
                },
            },
            OidcEvent::Provisioned(r) => match r {
                Err(e) => {
                    self.stage = OidcStage::Finished;
                    OidcStep::Finish(Err(e))
                },
                Ok(user) => self.user_known(user),
            },
            OidcEvent::DeviceLookedUp(r) => match r {
                Ok(Some(device)) => {
                    self.stage = OidcStage::Associating;
                    self.device_id = Some(device);
                    let user = match self.user_id {
                        Some(u) => u,
                        None => 0,
                    };
                    OidcStep::AssociateDevice { device_id: device, user_id: user }
                },
                Ok(None) => {
                    self.stage = OidcStage::Registering;
                    let device_type = match &self.device_type {
                        Some(t) => t.clone(),
                        None => "web".to_string(),
                    };
                    OidcStep::RegisterDevice { device_type }
                },
                Err(_) => self.token_with(None),
            },
            OidcEvent::DeviceAssociated => {
                let device = self.device_id;
                self.token_with(device)
            },
            OidcEvent::DeviceRegistered(r) => match r {
                Ok(device) => {
                    self.stage = OidcStage::Associating;
                    self.device_id = Some(device);
                    let user = match self.user_id {
                        Some(u) => u,
                        None => 0,
                    };
                    OidcStep::AssociateDevice { device_id: device, user_id: user }
                },
                Err(_) => self.token_with(None),
            },
            OidcEvent::TokenIssued(r) => {
                self.stage = OidcStage::Finished;
                match r {
                    Ok(token) => {
                        let user = match self.user_id {
                            Some(u) => u,
                            None => 0,
                        };
                        OidcStep::Finish(Ok((user, token)))
                    },
                    Err(e) => OidcStep::Finish(Err(e)),
                }
            },
        }
    }
}

} // verus!
