//! Recording sessions: their identifier and their state.
use vstd::prelude::*;
use vstd::string::*;
use uuid::Uuid;

verus! {

#[verifier::external_type_specification]
#[verifier::external_body]
pub struct ExUuid(Uuid);

/// Relies on `uuid::Uuid::new_v4`: a fresh random UUID, of which nothing is
/// promised here.
#[verifier::external_body]
fn fresh_uuid() -> Uuid {
    Uuid::new_v4()
}

/// Identifier of a recording session.
#[derive(Debug, Clone, Copy, PartialEq, Eq, Hash)]
pub struct SessionId(Uuid);

impl SessionId {
    /// The UUID behind the identifier.
    pub closed spec fn uuid(&self) -> Uuid {
        self.0
    }

    /// A fresh, randomly drawn identifier.
    pub fn new() -> Self {
        SessionId(fresh_uuid())
    }

    /// The identifier of `uuid`.
    pub fn from_uuid(uuid: Uuid) -> (r: Self)
        ensures
            r.uuid() == uuid,
    {
        SessionId(uuid)
    }

    /// The UUID behind the identifier.
    pub fn as_uuid(&self) -> (r: &Uuid)
        ensures
            *r == self.uuid(),
    {
        &self.0
    }
}

/// State of a recording session.
#[derive(Debug, Clone, Copy, PartialEq, Eq, Structural)]
pub enum SessionState {
    /// Waiting to start.
    Standby,
    /// Recording.
    Recording,
    /// Stopped, chunks being finalized.
    Finalizing,
    /// Every chunk synced to the server.
    Synced,
}

/// The lower-case name of a state.
pub open spec fn session_state_name(s: SessionState) -> Seq<char> {
    match s {
        SessionState::Standby => "standby"@,
        SessionState::Recording => "recording"@,
        SessionState::Finalizing => "finalizing"@,
        SessionState::Synced => "synced"@,
    }
}

impl SessionState {
    /// The lower-case name of the state.
    pub fn name(&self) -> (r: String)
        ensures
            r@ == session_state_name(*self),
    {
        match self {
            SessionState::Standby => String::from_str("standby"),
            SessionState::Recording => String::from_str("recording"),
            SessionState::Finalizing => String::from_str("finalizing"),
            SessionState::Synced => String::from_str("synced"),
        }
    }
}

} // verus!
