//! Deputy mode for business continuity: a regin can be the deputy of a role,
//! holding a standing continuity brief, and takes over on a failover the
//! supervisor confirmed, handing back when the primary returns.
//!
//! [`DeputyStore`] is the state machine over the current assignment; the
//! caller loads the record from the store's file before an operation and
//! writes [`DeputyStore::record`] back after it.

use vstd::prelude::*;
use std::path::{Path, PathBuf};
use crate::bus::{owned_path, owned_path_of};
use crate::text::{chars_of, string_of};

verus! {

/// Whether the deputy is currently covering the role.
#[derive(Debug, Clone, Copy, PartialEq, Eq, Structural)]
pub enum DeputyState {
    /// Following along (brief and observer) but not acting as the role.
    Standby,
    /// Covering the role after a confirmed failover.
    Active,
}

/// The deputy record: the covered role, its primary, the current state and
/// the standing continuity brief.
pub struct DeputyRecord {
    pub role: String,
    pub primary: String,
    pub state: DeputyState,
    pub brief: String,
}

/// A record as plain values: (role, primary, state, brief).
pub type RecordView = (Seq<char>, Seq<char>, DeputyState, Seq<char>);

pub open spec fn record_view(r: DeputyRecord) -> RecordView {
    (r.role@, r.primary@, r.state, r.brief@)
}

impl DeputyRecord {
    /// A copy of the record.
    pub fn duplicate(&self) -> (r: DeputyRecord)
        ensures
            record_view(r) == record_view(*self),
    {
        DeputyRecord {
            role: self.role.clone(),
            primary: self.primary.clone(),
            state: self.state,
            brief: self.brief.clone(),
        }
    }
}

/// Why a deputy operation was refused.
#[derive(Debug, Clone, Copy, PartialEq, Eq, Structural)]
pub enum DeputyError {
    /// No role is assigned yet.
    NotAssigned,
    /// The failover was not confirmed by the supervisor.
    NotConfirmed,
}

impl DeputyError {
    pub open spec fn message_spec(self) -> Seq<char> {
        match self {
            DeputyError::NotAssigned => "no deputy assignment (run `regin deputy assign`)"@,
            DeputyError::NotConfirmed => "failover not confirmed by the supervisor — refusing to activate"@,
        }
    }

    /// The error's text.
    pub fn message(&self) -> (r: String)
        ensures
            r@ == self.message_spec(),
    {
        match self {
            DeputyError::NotAssigned => string_of(
                &chars_of("no deputy assignment (run `regin deputy assign`)"),
            ),
            DeputyError::NotConfirmed => string_of(
                &chars_of("failover not confirmed by the supervisor — refusing to activate"),
            ),
        }
    }
}

/// The deputy assignment kept at a file path.
pub struct DeputyStore {
    path: PathBuf,
    record: Option<DeputyRecord>,
}

/// The assignment after `set_brief(brief)`, and its result.
pub open spec fn set_brief_spec(v: Option<RecordView>, brief: Seq<char>) -> (
    Option<RecordView>,
    Result<(), DeputyError>,
) {
    match v {
        None => (None, Err(DeputyError::NotAssigned)),
        Some(r) => (Some((r.0, r.1, r.2, brief)), Ok(())),
    }
}

/// The assignment after `activate(confirmed)`, and the record it returns:
/// refused without the supervisor's confirmation (checked first), else
/// active with everything else kept.
pub open spec fn activate_spec(v: Option<RecordView>, confirmed: bool) -> (
    Option<RecordView>,
    Result<RecordView, DeputyError>,
) {
    if !confirmed {
        (v, Err(DeputyError::NotConfirmed))
    } else {
        match v {
            None => (None, Err(DeputyError::NotAssigned)),
            Some(r) => (Some((r.0, r.1, DeputyState::Active, r.3)), Ok((r.0, r.1, DeputyState::Active, r.3))),
        }
    }
}

/// The assignment after `handback()`, and the record it returns: back to
/// standby with everything else kept.
pub open spec fn handback_spec(v: Option<RecordView>) -> (
    Option<RecordView>,
    Result<RecordView, DeputyError>,
) {
    match v {
        None => (None, Err(DeputyError::NotAssigned)),
        Some(r) => (Some((r.0, r.1, DeputyState::Standby, r.3)), Ok((r.0, r.1, DeputyState::Standby, r.3))),
    }
}

pub open spec fn opt_record_view(r: Option<DeputyRecord>) -> Option<RecordView> {
    match r {
        Some(x) => Some(record_view(x)),
        None => None,
    }
}

pub open spec fn result_view(r: Result<DeputyRecord, DeputyError>) -> Result<RecordView, DeputyError> {
    match r {
        Ok(x) => Ok(record_view(x)),
        Err(e) => Err(e),
    }
}

impl DeputyStore {
    /// The current assignment.
    pub closed spec fn assignment(&self) -> Option<RecordView> {
        opt_record_view(self.record)
    }

    /// The file the assignment is kept in.
    pub closed spec fn path_spec(&self) -> PathBuf {
        self.path
    }

    /// A store at `path` with no assignment loaded.
    pub fn new(path: &Path) -> (s: Self)
        ensures
            s.assignment() is None,
            s.path_spec() == owned_path_of(path),
    {
        DeputyStore { path: owned_path(path), record: None }
    }

    /// A store at `path` holding the record read from it (`None` when the
    /// file does not exist).
    pub fn loaded(path: &Path, record: Option<DeputyRecord>) -> (s: Self)
        ensures
            s.assignment() == opt_record_view(record),
            s.path_spec() == owned_path_of(path),
    {
        DeputyStore { path: owned_path(path), record }
    }

    /// The file the assignment is kept in.
    pub fn path(&self) -> (r: &PathBuf)
        ensures
            *r == self.path_spec(),
    {
        &self.path
    }

    /// The record to write back, if any.
    pub fn record(&self) -> (r: Option<&DeputyRecord>)
        ensures
            match r {
                Some(x) => self.assignment() == Some(record_view(*x)),
                None => self.assignment() is None,
            },
    {
        match &self.record {
            Some(x) => Some(x),
            None => None,
        }
    }

    /// Assigns this regin as the deputy of `role`, held by `primary`: in
    /// standby, with an empty brief.
    pub fn assign(&mut self, role: &str, primary: &str) -> (r: DeputyRecord)
        ensures
            record_view(r) == (role@, primary@, DeputyState::Standby, Seq::<char>::empty()),
            final(self).assignment() == Some(record_view(r)),
            final(self).path_spec() == old(self).path_spec(),
    {
        let rec = DeputyRecord {
            role: string_of(&chars_of(role)),
            primary: string_of(&chars_of(primary)),
            state: DeputyState::Standby,
            brief: String::new(),
        };
        self.record = Some(rec.duplicate());
        rec
    }

    /// Updates the standing continuity brief.
    pub fn set_brief(&mut self, brief: &str) -> (r: Result<(), DeputyError>)
        ensures
            (final(self).assignment(), r) == set_brief_spec(old(self).assignment(), brief@),
            final(self).path_spec() == old(self).path_spec(),
    {
        match &mut self.record {
            None => Err(DeputyError::NotAssigned),
            Some(rec) => {
                rec.brief = string_of(&chars_of(brief));
                Ok(())
            },
        }
    }

    /// Activates the deputy on failover; refuses unless the supervisor
    /// confirmed it.
    pub fn activate(&mut self, confirmed_by_supervisor: bool) -> (r: Result<DeputyRecord, DeputyError>)
        ensures
            (final(self).assignment(), result_view(r)) == activate_spec(
                old(self).assignment(),
                confirmed_by_supervisor,
            ),
            final(self).path_spec() == old(self).path_spec(),
    {
        if !confirmed_by_supervisor {
            return Err(DeputyError::NotConfirmed);
        }
        match &mut self.record {
            None => Err(DeputyError::NotAssigned),
            Some(rec) => {
                rec.state = DeputyState::Active;
                Ok(rec.duplicate())
            },
        }
    }

    /// Hands back to the primary when it returns.
    pub fn handback(&mut self) -> (r: Result<DeputyRecord, DeputyError>)
        ensures
            (final(self).assignment(), result_view(r)) == handback_spec(old(self).assignment()),
            final(self).path_spec() == old(self).path_spec(),
    {
        match &mut self.record {
            None => Err(DeputyError::NotAssigned),
            Some(rec) => {
                rec.state = DeputyState::Standby;
                Ok(rec.duplicate())
            },
        }
    }
}

/// Failover needs the supervisor: an unconfirmed activation is refused and
/// changes nothing, whatever the assignment.
pub proof fn law_activation_needs_confirmation(v: Option<RecordView>)
    ensures
        activate_spec(v, false) == (v, Err::<RecordView, DeputyError>(DeputyError::NotConfirmed)),
{
}

/// Continuity: a brief set before a failover is what the active deputy
/// holds, the role and primary are kept, and handing back returns to
/// standby with the same brief.
pub proof fn law_brief_survives_failover(v: Option<RecordView>, brief: Seq<char>)
    requires
        v is Some,
    ensures
        ({
            let briefed = set_brief_spec(v, brief).0;
            let active = activate_spec(briefed, true).0;
            let back = handback_spec(active).0;
            let r = v.unwrap();
            &&& active == Some((r.0, r.1, DeputyState::Active, brief))
            &&& back == Some((r.0, r.1, DeputyState::Standby, brief))
        }),
{
}

/// Before any assignment every operation is refused and nothing changes.
pub proof fn law_unassigned_operations_refused(brief: Seq<char>, confirmed: bool)
    ensures
        set_brief_spec(None, brief).0 is None && set_brief_spec(None, brief).1 is Err,
        activate_spec(None, confirmed).0 is None && activate_spec(None, confirmed).1 is Err,
        handback_spec(None).0 is None && handback_spec(None).1 is Err,
{
}

} // verus!
