//! The participant and user records, and the in-memory participant store
//! that the selection engine mutates. A participant is eligible while
//! `won_on` is unset; the four selection fields transition together.

use vstd::prelude::*;

verus! {

/// A raffle participant. Dates are day numbers, times are seconds.
#[derive(Debug)]
pub struct Participant {
    pub id: i32,
    pub first_name: String,
    pub last_name: String,
    /// The day the participant won; `None` means still eligible.
    pub won_on: Option<i64>,
    /// The acting user who picked the participant as a winner.
    pub picked_by: Option<i32>,
    /// The time of the pick.
    pub picking_time: Option<u64>,
    /// The sub-package selected for the winner.
    pub present_identifier: Option<String>,
}

/// A user who may authenticate and act on the raffle.
#[derive(Debug)]
pub struct User {
    pub id: i32,
    pub username: String,
    pub password_hash: String,
}

/// The error of a failed user lookup.
#[derive(Debug, Clone, Copy, PartialEq, Eq, Structural)]
pub struct CouldNotFindUser;

/// Equality of two optional strings by their character sequences.
pub open spec fn opt_string_like(a: Option<String>, b: Option<String>) -> bool {
    match (a, b) {
        (Some(x), Some(y)) => x@ == y@,
        (None, None) => true,
        _ => false,
    }
}

impl Participant {
    /// The selection fields transition together: an eligible participant
    /// carries no attribution, a winner carries who picked it and when.
    pub open spec fn wf(self) -> bool {
        &&& self.won_on is None ==> self.picked_by is None && self.picking_time is None
            && self.present_identifier is None
        &&& self.won_on is Some ==> self.picked_by is Some && self.picking_time is Some
    }

    /// A participant is eligible while it has not won.
    pub open spec fn eligible(self) -> bool {
        self.won_on is None
    }

    /// Field-wise sameness, strings compared by their character sequences.
    pub open spec fn like(self, other: Participant) -> bool {
        &&& self.id == other.id
        &&& self.first_name@ == other.first_name@
        &&& self.last_name@ == other.last_name@
        &&& self.won_on == other.won_on
        &&& self.picked_by == other.picked_by
        &&& self.picking_time == other.picking_time
        &&& opt_string_like(self.present_identifier, other.present_identifier)
    }

    /// A copy of the participant, field for field.
    pub fn duplicate(&self) -> (r: Participant)
        ensures
            r.like(*self),
    {
        Participant {
            id: self.id,
            first_name: self.first_name.clone(),
            last_name: self.last_name.clone(),
            won_on: self.won_on,
            picked_by: self.picked_by,
            picking_time: self.picking_time,
            present_identifier: match &self.present_identifier {
                Some(s) => Some(s.clone()),
                None => None,
            },
        }
    }
}

/// No two rows share an id.
pub open spec fn unique_ids(s: Seq<Participant>) -> bool {
    forall|i: int, j: int| 0 <= i < j < s.len() ==> s[i].id != s[j].id
}

/// Every row is well formed and ids are unique.
pub open spec fn store_wf(s: Seq<Participant>) -> bool {
    &&& unique_ids(s)
    &&& forall|i: int| 0 <= i < s.len() ==> #[trigger] s[i].wf()
}

/// How many rows are still eligible.
pub open spec fn num_eligible(s: Seq<Participant>) -> nat
    decreases s.len(),
{
    if s.len() == 0 {
        0
    } else {
        num_eligible(s.drop_last()) + if s.last().eligible() {
            1nat
        } else {
            0nat
        }
    }
}

/// Some row carries the id.
pub open spec fn has_id(s: Seq<Participant>, id: i32) -> bool {
    exists|i: int| 0 <= i < s.len() && s[i].id == id
}

/// The index of the row with the id (unique when ids are unique).
pub open spec fn idx_of(s: Seq<Participant>, id: i32) -> int {
    choose|i: int| 0 <= i < s.len() && s[i].id == id
}

/// The row with the id.
pub open spec fn row_of(s: Seq<Participant>, id: i32) -> Participant {
    s[idx_of(s, id)]
}

pub proof fn lemma_num_eligible_update(s: Seq<Participant>, j: int, p: Participant)
    requires
        0 <= j < s.len(),
    ensures
        num_eligible(s.update(j, p)) + (if s[j].eligible() {
            1int
        } else {
            0int
        }) == num_eligible(s) + (if p.eligible() {
            1int
        } else {
            0int
        }),
    decreases s.len(),
{
    if j == s.len() - 1 {
        assert(s.update(j, p).drop_last() =~= s.drop_last());
    } else {
        assert(s.update(j, p).drop_last() =~= s.drop_last().update(j, p));
        lemma_num_eligible_update(s.drop_last(), j, p);
    }
}

/// With unique ids, the chosen index of `idx_of` is the only match.
pub proof fn lemma_idx_of_unique(s: Seq<Participant>, i: int, id: i32)
    requires
        unique_ids(s),
        0 <= i < s.len(),
        s[i].id == id,
    ensures
        has_id(s, id),
        idx_of(s, id) == i,
        row_of(s, id) == s[i],
{
    assert(has_id(s, id));
    let c = idx_of(s, id);
    assert(0 <= c < s.len() && s[c].id == id);
    if c != i {
        if c < i {
            assert(s[c].id != s[i].id);
        } else {
            assert(s[i].id != s[c].id);
        }
    }
}

/// The in-memory participant table; its view is the sequence of rows.
/// Callers keep `store_wf` of the view; every mutating operation of the
/// crate preserves it.
pub struct ParticipantStore {
    pub rows: Vec<Participant>,
}

impl View for ParticipantStore {
    type V = Seq<Participant>;

    open spec fn view(&self) -> Seq<Participant> {
        self.rows@
    }
}

impl ParticipantStore {
    /// An empty store.
    pub fn new() -> (r: ParticipantStore)
        ensures
            r@ == Seq::<Participant>::empty(),
    {
        ParticipantStore { rows: Vec::new() }
    }

    pub fn len(&self) -> (r: usize)
        ensures
            r == self@.len(),
    {
        self.rows.len()
    }

    /// A copy of the row at the index.
    pub fn row_at(&self, i: usize) -> (r: Participant)
        requires
            i < self@.len(),
        ensures
            r.like(self@[i as int]),
    {
        self.rows[i].duplicate()
    }

    /// Seed the store with one more participant; the id must be fresh.
    pub fn add_participant(&mut self, p: Participant)
        requires
            p.wf(),
            !has_id(old(self)@, p.id),
        ensures
            final(self)@ == old(self)@.push(p),
    {
        self.rows.push(p);
    }

    /// The index of the row with the id, scanning from the front.
    pub fn find_by_id(&self, id: i32) -> (r: Option<usize>)
        ensures
            match r {
                Some(i) => i < self@.len() && self@[i as int].id == id,
                None => !has_id(self@, id),
            },
    {
        let n: usize = self.rows.len();
        let mut i: usize = 0;
        while i < n
            invariant
                i <= n,
                n == self@.len(),
                forall|k: int| 0 <= k < i ==> self@[k].id != id,
            decreases n - i,
        {
            if self.rows[i].id == id {
                return Some(i);
            }
            i += 1;
        }
        None
    }
}

/// Look a user up by name, scanning from the front as the store would.
pub fn lookup_user_by_name<'a>(users: &'a Vec<User>, supplied_username: &str) -> (r: Result<
    &'a User,
    CouldNotFindUser,
>)
    ensures
        match r {
            Ok(u) => u.username@ == supplied_username@ && exists|i: int|
                0 <= i < users@.len() && users@[i] == *u,
            Err(_) => forall|i: int| 0 <= i < users@.len() ==> users@[i].username@
                != supplied_username@,
        },
{
    let wanted: String = supplied_username.to_owned();
    let n: usize = users.len();
    let mut i: usize = 0;
    while i < n
        invariant
            wanted@ == supplied_username@,
            i <= n,
            n == users@.len(),
            forall|k: int| 0 <= k < i ==> users@[k].username@ != supplied_username@,
        decreases n - i,
    {
        if users[i].username.eq(&wanted) {
            return Ok(&users[i]);
        }
        i += 1;
    }
    Err(CouldNotFindUser)
}

} // verus!
