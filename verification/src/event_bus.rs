//! The internal event bus: publishers fire well-known kinds; triggers bind a
//! kind (and an optional payload condition) to an action; the ledger records
//! every kind that has fired, which is what satisfies a task's event
//! dependencies. Structured bus messages become events through their own
//! `"kind"` member.

use vstd::prelude::*;
use crate::bus::BusMessage;
use crate::json::{json_str_member, json_string_member};
use crate::text::{chars_of, str_eq, string_of};

verus! {

pub const INCIDENT_CREATED: &'static str = "incident.created";
pub const OBJECTIVE_BREACHED: &'static str = "objective.breached";
pub const DEVIATION_DETECTED: &'static str = "deviation.detected";
pub const GOAL_CREATED: &'static str = "goal.created";
pub const SCHEDULE_TICK: &'static str = "schedule.tick";
pub const TASK_COMPLETED: &'static str = "task.completed";
pub const TASK_FAILED: &'static str = "task.failed";

/// Every event kind that has fired at least once. Once fired, a kind stays
/// recorded: a dependency on it is satisfied for good.
pub struct EventLedger {
    kinds: Vec<String>,
}

impl EventLedger {
    /// The kinds recorded so far.
    pub closed spec fn fired(&self) -> Set<Seq<char>> {
        Set::new(|k: Seq<char>| exists|i: int| 0 <= i < self.kinds@.len() && #[trigger] self.kinds@[i]@ == k)
    }

    /// An empty ledger.
    pub fn new() -> (l: Self)
        ensures
            l.fired() == Set::<Seq<char>>::empty(),
    {
        let l = EventLedger { kinds: Vec::new() };
        assert(l.fired() =~= Set::<Seq<char>>::empty());
        l
    }

    /// Records that `event_kind` fired.
    pub fn record(&mut self, event_kind: &str)
        ensures
            final(self).fired() == old(self).fired().insert(event_kind@),
    {
        if !self.is_satisfied(event_kind) {
            self.kinds.push(string_of(&chars_of(event_kind)));
            assert forall|k: Seq<char>| #[trigger] self.fired().contains(k) <==> old(self).fired().insert(
                event_kind@,
            ).contains(k) by {
                if old(self).fired().contains(k) {
                    let i = choose|i: int| 0 <= i < old(self).kinds@.len() && #[trigger] old(self).kinds@[i]@ == k;
                    assert(self.kinds@[i]@ == k);
                }
                if self.fired().contains(k) && k != event_kind@ {
                    let i = choose|i: int| 0 <= i < self.kinds@.len() && #[trigger] self.kinds@[i]@ == k;
                    assert(i < old(self).kinds@.len());
                    assert(old(self).kinds@[i]@ == k);
                }
                if k == event_kind@ {
                    assert(self.kinds@[self.kinds@.len() - 1]@ == k);
                }
            }
            assert(self.fired() =~= old(self).fired().insert(event_kind@));
        } else {
            assert(old(self).fired().insert(event_kind@) =~= old(self).fired());
        }
    }

    /// Whether `event_kind` has fired.
    pub fn is_satisfied(&self, event_kind: &str) -> (r: bool)
        ensures
            r == self.fired().contains(event_kind@),
    {
        let mut i: usize = 0;
        while i < self.kinds.len()
            invariant
                i <= self.kinds@.len(),
                forall|j: int| 0 <= j < i ==> self.kinds@[j]@ != event_kind@,
            decreases self.kinds.len() - i,
        {
            if str_eq(self.kinds[i].as_str(), event_kind) {
                assert(self.kinds@[i as int]@ == event_kind@);
                return true;
            }
            i = i + 1;
        }
        false
    }
}

/// Whether every one of a task's event dependencies has fired.
pub fn event_dependencies_satisfied(depends_on_events: &[String], ledger: &EventLedger) -> (r: bool)
    ensures
        r == (forall|i: int| 0 <= i < depends_on_events@.len() ==> ledger.fired().contains(
            #[trigger] depends_on_events@[i]@,
        )),
{
    let mut i: usize = 0;
    while i < depends_on_events.len()
        invariant
            i <= depends_on_events@.len(),
            forall|j: int| 0 <= j < i ==> ledger.fired().contains(#[trigger] depends_on_events@[j]@),
        decreases depends_on_events.len() - i,
    {
        if !ledger.is_satisfied(depends_on_events[i].as_str()) {
            return false;
        }
        i = i + 1;
    }
    true
}

/// The outcome of one publish.
pub struct PublishReport {
    /// Ids of the triggers whose action ran successfully.
    pub fired: Vec<String>,
    /// `(trigger id, error message)` for every action that failed: isolated,
    /// never stopping the others.
    pub errors: Vec<(String, String)>,
}

/// Whether a trigger bound to `trigger_kind` runs for an event of
/// `event_kind`, given whether its payload condition (if any) holds.
pub fn trigger_applies(trigger_kind: &str, event_kind: &str, condition_holds: bool) -> (r: bool)
    ensures
        r == (trigger_kind@ == event_kind@ && condition_holds),
{
    str_eq(trigger_kind, event_kind) && condition_holds
}

/// The event kind a bus message carries: only a structured message whose
/// JSON body has a string `kind` member is an event.
pub fn event_kind_of(msg: &BusMessage) -> (r: Option<String>)
    ensures
        msg.kind@ != "structured"@ ==> r is None,
        msg.kind@ == "structured"@ ==> match json_string_member(msg.body@, "kind"@) {
            Some(k) => r matches Some(x) && x@ == k,
            None => r is None,
        },
{
    if !str_eq(msg.kind.as_str(), "structured") {
        return None;
    }
    json_str_member(msg.body.as_str(), "kind")
}

/// A fired event is never un-fired: recording any kind keeps every kind
/// already recorded, so a satisfied dependency list stays satisfied.
pub proof fn law_ledger_never_unfires(before: Set<Seq<char>>, kind: Seq<char>, deps: Seq<Seq<char>>)
    ensures
        before.subset_of(before.insert(kind)),
        before.insert(kind).contains(kind),
        (forall|i: int| 0 <= i < deps.len() ==> before.contains(#[trigger] deps[i])) ==> (forall|i: int|
            0 <= i < deps.len() ==> before.insert(kind).contains(#[trigger] deps[i])),
{
}

/// The kinds a ledger holds after `new` and then `record` of each of
/// `kinds` in order (the steps those functions state).
pub open spec fn fired_after(kinds: Seq<Seq<char>>) -> Set<Seq<char>>
    decreases kinds.len(),
{
    if kinds.len() == 0 {
        Set::empty()
    } else {
        fired_after(kinds.drop_last()).insert(kinds.last())
    }
}

/// Every one of `deps` has fired.
pub open spec fn all_fired(fired: Set<Seq<char>>, deps: Seq<Seq<char>>) -> bool {
    forall|i: int| 0 <= i < deps.len() ==> fired.contains(#[trigger] deps[i])
}

proof fn lemma_fired_after_contains(kinds: Seq<Seq<char>>, k: Seq<char>)
    ensures
        fired_after(kinds).contains(k) <==> kinds.contains(k),
    decreases kinds.len(),
{
    if kinds.len() > 0 {
        lemma_fired_after_contains(kinds.drop_last(), k);
        if kinds.drop_last().contains(k) {
            let i = choose|i: int| 0 <= i < kinds.drop_last().len() && kinds.drop_last()[i] == k;
            assert(kinds[i] == k);
        }
        if kinds.contains(k) && k != kinds.last() {
            let i = choose|i: int| 0 <= i < kinds.len() && kinds[i] == k;
            assert(i < kinds.len() - 1);
            assert(kinds.drop_last()[i] == k);
        }
        if k == kinds.last() {
            assert(kinds[kinds.len() - 1] == k);
        }
    }
}

/// Over a whole sequence of publishes: a task's event dependencies are
/// satisfied exactly when each of them was published at least once, an empty
/// dependency list is always satisfied, and once satisfied they stay
/// satisfied whatever is published afterwards.
pub proof fn law_dependencies_follow_publishes(
    published: Seq<Seq<char>>,
    deps: Seq<Seq<char>>,
    later: Seq<Seq<char>>,
)
    ensures
        all_fired(fired_after(published), deps) <==> (forall|i: int|
            0 <= i < deps.len() ==> published.contains(#[trigger] deps[i])),
        all_fired(fired_after(published), Seq::empty()),
        all_fired(fired_after(published), deps) ==> all_fired(fired_after(published + later), deps),
{
    assert forall|i: int| 0 <= i < deps.len() implies (fired_after(published).contains(#[trigger] deps[i])
        <==> published.contains(deps[i])) by {
        lemma_fired_after_contains(published, deps[i]);
    }
    if all_fired(fired_after(published), deps) {
        assert forall|i: int| 0 <= i < deps.len() implies fired_after(published + later).contains(
            #[trigger] deps[i],
        ) by {
            lemma_fired_after_contains(published, deps[i]);
            lemma_fired_after_contains(published + later, deps[i]);
            let j = choose|j: int| 0 <= j < published.len() && published[j] == deps[i];
            assert((published + later)[j] == deps[i]);
        }
    }
}

} // verus!
