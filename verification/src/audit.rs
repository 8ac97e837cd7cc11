//! The append-only audit trail: one immutable row per recorded action, in
//! insertion order, each attributed to an acting user where one is known.

use vstd::prelude::*;
use crate::participants::{lookup_user_by_name, User};

verus! {

/// The kinds of recorded actions.
#[derive(Debug, Clone, Copy, PartialEq, Eq, Structural)]
pub enum Action {
    /// A successful login request was performed.
    SuccessfulLogin,
    /// A failed login request was performed.
    FailedLogin,
    /// The user selected a new winner.
    PickedWinner,
    /// The user removed a winner.
    RemovedWinner,
    /// The user selected a specific (initial) package for a winner.
    PackageSelected,
    /// The user edited the selected package for a winner.
    PackageChanged,
    /// The user changed their own password.
    PasswordChanged,
    /// The server indicated that it started.
    ServerStarted,
    /// The server indicated that it shuts down.
    ServerTerminated,
}

impl Action {
    /// The stable name under which the action is recorded.
    pub open spec fn name_spec(self) -> Seq<char> {
        match self {
            Action::SuccessfulLogin => "successful_login"@,
            Action::FailedLogin => "failed_login"@,
            Action::PickedWinner => "picked_winner"@,
            Action::RemovedWinner => "removed_winner"@,
            Action::PackageSelected => "package_selected"@,
            Action::PackageChanged => "package_changed"@,
            Action::PasswordChanged => "password_changed"@,
            Action::ServerStarted => "server_started"@,
            Action::ServerTerminated => "server_terminated"@,
        }
    }

    /// The stable name under which the action is recorded.
    pub fn name(&self) -> (r: String)
        ensures
            r@ == self.name_spec(),
    {
        match self {
            Action::SuccessfulLogin => "successful_login".to_owned(),
            Action::FailedLogin => "failed_login".to_owned(),
            Action::PickedWinner => "picked_winner".to_owned(),
            Action::RemovedWinner => "removed_winner".to_owned(),
            Action::PackageSelected => "package_selected".to_owned(),
            Action::PackageChanged => "package_changed".to_owned(),
            Action::PasswordChanged => "password_changed".to_owned(),
            Action::ServerStarted => "server_started".to_owned(),
            Action::ServerTerminated => "server_terminated".to_owned(),
        }
    }
}

/// One immutable audit row.
#[derive(Debug)]
pub struct AuditEntry {
    /// When the action happened, in seconds.
    pub time_of_action: u64,
    /// The acting user, absent for unauthenticated or system events.
    pub user_id: Option<i32>,
    /// What happened.
    pub action: Action,
    /// The participant the action concerns, for the selection actions.
    pub participant_id: Option<i32>,
    /// Optional free text beside the action.
    pub description: Option<String>,
}

impl AuditEntry {
    /// Field-wise sameness, the description compared by characters.
    pub open spec fn like(self, other: AuditEntry) -> bool {
        &&& self.time_of_action == other.time_of_action
        &&& self.user_id == other.user_id
        &&& self.action == other.action
        &&& self.participant_id == other.participant_id
        &&& crate::participants::opt_string_like(self.description, other.description)
    }
}

/// The number of audit rows written, as the count endpoint reports it.
#[derive(Debug, Clone, Copy, PartialEq, Eq, Structural)]
pub struct AuditEventCount {
    pub count: i64,
}

/// The append-only audit log; its view is the sequence of rows. The
/// operations of this crate only ever push onto it.
pub struct AuditLog {
    pub rows: Vec<AuditEntry>,
}

impl View for AuditLog {
    type V = Seq<AuditEntry>;

    open spec fn view(&self) -> Seq<AuditEntry> {
        self.rows@
    }
}

impl AuditLog {
    /// An empty trail.
    pub fn new() -> (r: AuditLog)
        ensures
            r@ == Seq::<AuditEntry>::empty(),
    {
        AuditLog { rows: Vec::new() }
    }

    /// Append one row; nothing already written moves or changes.
    pub fn append(&mut self, entry: AuditEntry)
        ensures
            final(self)@ == old(self)@.push(entry),
    {
        self.rows.push(entry);
    }

    /// A copy of the row at the index, for inspection.
    pub fn entry_at(&self, i: usize) -> (r: AuditEntry)
        requires
            i < self@.len(),
        ensures
            r.like(self@[i as int]),
    {
        let e = &self.rows[i];
        AuditEntry {
            time_of_action: e.time_of_action,
            user_id: e.user_id,
            action: e.action,
            participant_id: e.participant_id,
            description: match &e.description {
                Some(s) => Some(s.clone()),
                None => None,
            },
        }
    }

    pub fn len(&self) -> (r: usize)
        ensures
            r == self@.len(),
    {
        self.rows.len()
    }
}

/// Count the audit rows as the count endpoint reports them.
pub fn get_audit_event_count(audit: &AuditLog) -> (r: AuditEventCount)
    requires
        audit@.len() <= i64::MAX,
    ensures
        r.count == audit@.len(),
{
    AuditEventCount { count: audit.len() as i64 }
}

/// The entry's actor is the user the name resolves to: the id of a row
/// carrying the name, or nobody when no row does.
pub open spec fn user_attribution(users: Seq<User>, name: Seq<char>, user_id: Option<i32>) -> bool {
    match user_id {
        Some(id) => exists|i: int|
            0 <= i < users.len() && users[i].id == id && users[i].username@ == name,
        None => forall|i: int| 0 <= i < users.len() ==> users[i].username@ != name,
    }
}

/// Record an action, attributed to the named user where the user table
/// knows the name, and to no one otherwise — a failed login may carry a
/// name that no user row matches.
pub fn log_action(
    audit: &mut AuditLog,
    users: &Vec<User>,
    maybe_username_performing_action: Option<&str>,
    executed_action: Action,
    possible_description: Option<String>,
    now: u64,
)
    ensures
        final(audit)@.len() == old(audit)@.len() + 1,
        final(audit)@.subrange(0, old(audit)@.len() as int) == old(audit)@,
        ({
            let e = final(audit)@.last();
            &&& e.time_of_action == now
            &&& e.action == executed_action
            &&& e.participant_id is None
            &&& e.description == possible_description
            &&& match maybe_username_performing_action {
                Some(name) => user_attribution(users@, name@, e.user_id),
                None => e.user_id is None,
            }
        }),
{
    let user_id: Option<i32> = match maybe_username_performing_action {
        Some(name) => match lookup_user_by_name(users, name) {
            Ok(user) => Some(user.id),
            Err(_) => None,
        },
        None => None,
    };
    audit.append(
        AuditEntry {
            time_of_action: now,
            user_id,
            action: executed_action,
            participant_id: None,
            description: possible_description,
        },
    );
    proof {
        assert(audit@.subrange(0, old(audit)@.len() as int) =~= old(audit)@);
    }
}

} // verus!
