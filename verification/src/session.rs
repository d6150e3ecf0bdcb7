//! Per-connection session state and its protocol phase.

use vstd::prelude::*;

verus! {

/// The session's position in the protocol state machine. A session leaves
/// these states only when its connection closes, which destroys the state
/// rather than transitioning it.
#[derive(Debug, Clone, Copy, PartialEq, Eq, Structural)]
pub enum Phase {
    /// Right after the connection is accepted; no query yet.
    Idle,
    /// A query has been registered.
    QueryActive,
    /// Cards are being selected for the active query.
    Selecting,
    /// The narration for the active query has been delivered; a new
    /// `StartSession` re-enters `QueryActive`.
    InterpretationDelivered,
}

/// Relies on `uuid::Uuid::new_v4` and its hyphenated rendering: a fresh
/// random identifier, 36 characters long. Nothing is assumed about which
/// identifier comes back.
#[verifier::external_body]
pub fn new_session_id() -> (r: String)
    ensures
        r@.len() == 36,
{
    uuid::Uuid::new_v4().to_string()
}

/// Per-connection mutable record: identity, the active query, the
/// selection indices chosen so far, and the protocol phase. Owned by
/// exactly one connection's dispatching path and never shared, so no
/// locking is needed.
#[derive(Debug)]
pub struct SessionState {
    pub session_id: String,
    pub query: Option<String>,
    pub selected_cards: Vec<usize>,
    pub phase: Phase,
}

impl SessionState {
    /// The state invariant: no duplicate selections, and an active query
    /// exactly when the session has left `Idle`.
    pub open spec fn wf(&self) -> bool {
        &&& forall|i: int, j: int|
            #![trigger self.selected_cards@[i], self.selected_cards@[j]]
            0 <= i < j < self.selected_cards@.len() ==> self.selected_cards@[i]
                != self.selected_cards@[j]
        &&& (self.query is Some <==> !(self.phase is Idle))
    }

    /// Whether a query is active: the states in which card selection is
    /// permitted.
    pub open spec fn query_active(&self) -> bool {
        self.phase is QueryActive || self.phase is Selecting
    }

    /// A fresh session: new identity, no query, nothing selected.
    pub fn new() -> (s: SessionState)
        ensures
            s.wf(),
            s.phase is Idle,
            s.query is None,
            s.selected_cards@.len() == 0,
            s.session_id@.len() == 36,
    {
        SessionState {
            session_id: new_session_id(),
            query: None,
            selected_cards: Vec::new(),
            phase: Phase::Idle,
        }
    }
}

} // verus!
