//! Debounced, cancellable incremental search.
//!
//! Each text change abandons the previously scheduled search by advancing a
//! monotonic generation marker and schedules a new delayed unit tagged with
//! the new generation.  A unit whose captured generation no longer equals the
//! current one is superseded: it performs no further work and never touches
//! visible state.  The check is made when the unit's timer fires and again
//! after its slow lookup step, so a result that went stale during network
//! latency is discarded silently — admission is by generation, not by
//! completion order.

use vstd::prelude::*;
use vstd::string::StrSliceExecFns;

use crate::DEBOUNCE_DELAY_MS;
use crate::emote::EmoteModel;
use crate::emote::WebmEmote;
use crate::emote::models_of;
use crate::errors::NetworkError;
use crate::text::normalize_query;
use crate::text::normalized;

verus! {

/// One scheduled unit of search work, tagged with the generation that was
/// current when it was scheduled.
pub struct ScheduledUnit {
    /// The generation captured at scheduling time.
    pub generation: u64,
    /// The normalized query text to search for.
    pub query: String,
    /// How long the unit waits before it runs, in milliseconds.
    pub delay_ms: u64,
}

/// What a unit does when its timer fires.
#[derive(Clone, Copy, Debug, PartialEq, Eq, Structural)]
pub enum TimerDecision {
    /// The unit's generation is stale: do nothing at all.
    Superseded,
    /// The query is empty: commit the recency snapshot; no disk-query or
    /// network lookup happens.
    CommitRecent,
    /// Look the query up: disk document first, network on a miss.
    RunQuery,
}

/// The decision a firing timer reaches, from the current generation, the
/// unit's captured generation, and whether its query is empty.
pub open spec fn timer_decision(current: u64, unit_gen: u64, query_empty: bool) -> TimerDecision {
    if unit_gen != current {
        TimerDecision::Superseded
    } else if query_empty {
        TimerDecision::CommitRecent
    } else {
        TimerDecision::RunQuery
    }
}

/// How a current, non-empty query is answered, given whether its result
/// document is already on disk.
#[derive(Clone, Copy, Debug, PartialEq, Eq, Structural)]
pub enum QueryLookupPlan {
    /// The result document is on disk: use it; the network is not touched.
    UseDiskDocument,
    /// No document yet: fetch from the network, persist the parsed result
    /// document, then re-check the generation before committing.
    FetchAndPersist,
}

/// The lookup plan, as a function of disk state.
pub open spec fn query_lookup_plan_of(doc_on_disk: bool) -> QueryLookupPlan {
    if doc_on_disk {
        QueryLookupPlan::UseDiskDocument
    } else {
        QueryLookupPlan::FetchAndPersist
    }
}

/// Decide how a query is answered: a result document already on disk is
/// used as it stands, and only a missing document goes to the network.
pub fn query_lookup_plan(doc_on_disk: bool) -> (p: QueryLookupPlan)
    ensures
        p == query_lookup_plan_of(doc_on_disk),
{
    if doc_on_disk {
        QueryLookupPlan::UseDiskDocument
    } else {
        QueryLookupPlan::FetchAndPersist
    }
}

/// Whether a unit of the given generation may still commit.
pub open spec fn commit_allowed(current: u64, unit_gen: u64) -> bool {
    unit_gen == current
}

/// The visible result list after a unit's lookup finishes: a stale unit
/// changes nothing, a failed lookup leaves the prior list standing, and only
/// a current, successful lookup replaces it.
pub open spec fn commit_step(
    current: u64,
    unit_gen: u64,
    prior: Seq<EmoteModel>,
    outcome: Result<Seq<EmoteModel>, NetworkError>,
) -> Seq<EmoteModel> {
    if unit_gen != current {
        prior
    } else {
        match outcome {
            Ok(found) => found,
            Err(_) => prior,
        }
    }
}

/// Per-input-session controller of the debounced search flow.  Its view is
/// the current generation marker.
pub struct QueryDebouncer {
    generation: u64,
}

impl View for QueryDebouncer {
    type V = u64;

    closed spec fn view(&self) -> u64 {
        self.generation
    }
}

impl QueryDebouncer {
    /// A fresh session, at generation zero with nothing scheduled.
    pub fn new() -> (d: Self)
        ensures
            d@ == 0,
    {
        QueryDebouncer { generation: 0 }
    }

    /// The session's current generation marker.
    pub fn generation(&self) -> (g: u64)
        ensures
            g == self@,
    {
        self.generation
    }

    /// Record a keystroke: abandon whatever was scheduled by advancing the
    /// generation, and schedule a new delayed unit carrying the normalized
    /// text and the new generation.
    pub fn on_text_changed(&mut self, text: &str) -> (unit: ScheduledUnit)
        requires
            old(self)@ < u64::MAX,
        ensures
            final(self)@ == old(self)@ + 1,
            unit.generation == final(self)@,
            unit.query@ == normalized(text@),
            text@.len() == 0 ==> unit.query@.len() == 0,
            unit.delay_ms == DEBOUNCE_DELAY_MS,
    {
        self.generation = self.generation + 1;
        let query = normalize_query(text);
        ScheduledUnit { generation: self.generation, query, delay_ms: DEBOUNCE_DELAY_MS }
    }

    /// Decide what a unit whose timer just fired does.
    pub fn on_timer_fired(&self, unit: &ScheduledUnit) -> (d: TimerDecision)
        ensures
            d == timer_decision(self@, unit.generation, unit.query@.len() == 0),
    {
        if unit.generation != self.generation {
            TimerDecision::Superseded
        } else if unit.query.as_str().is_empty() {
            TimerDecision::CommitRecent
        } else {
            TimerDecision::RunQuery
        }
    }

    /// Whether a unit of the given generation is still current.  This is
    /// re-checked after the slow lookup step, before anything becomes
    /// visible.
    pub fn may_commit(&self, unit_generation: u64) -> (b: bool)
        ensures
            b == commit_allowed(self@, unit_generation),
    {
        unit_generation == self.generation
    }

    /// Apply a finished lookup to the visible result list: replace it only
    /// if the unit is still current and the lookup succeeded; otherwise
    /// leave it exactly as it was.
    pub fn apply_outcome(
        &self,
        unit_generation: u64,
        visible: &mut Vec<WebmEmote>,
        outcome: Result<Vec<WebmEmote>, NetworkError>,
    )
        ensures
            models_of(final(visible)@) == commit_step(
                self@,
                unit_generation,
                models_of(old(visible)@),
                match outcome {
                    Ok(found) => Ok(models_of(found@)),
                    Err(e) => Err(e),
                },
            ),
    {
        if unit_generation == self.generation {
            match outcome {
                Ok(found) => {
                    *visible = found;
                },
                Err(_) => {},
            }
        }
    }
}

/// Debounce coalescing: of several units scheduled in one burst — strictly
/// increasing generations, none resolved before the last keystroke — every
/// unit but the last is superseded when its timer fires, and the last alone
/// proceeds, carrying the text of the last keystroke.
pub proof fn lemma_debounce_coalescing(units: Seq<(u64, bool)>, current: u64)
    requires
        units.len() > 0,
        forall|i: int, j: int|
            0 <= i < j < units.len() ==> (#[trigger] units[i]).0 < (#[trigger] units[j]).0,
        units.last().0 == current,
    ensures
        forall|i: int|
            0 <= i < units.len() - 1 ==> timer_decision(current, (#[trigger] units[i]).0, units[i].1)
                == TimerDecision::Superseded,
        !units.last().1 ==> timer_decision(current, units.last().0, units.last().1)
            == TimerDecision::RunQuery,
        units.last().1 ==> timer_decision(current, units.last().0, units.last().1)
            == TimerDecision::CommitRecent,
{
    assert forall|i: int| 0 <= i < units.len() - 1 implies timer_decision(
        current,
        (#[trigger] units[i]).0,
        units[i].1,
    ) == TimerDecision::Superseded by {
        assert(units[i].0 < units[units.len() - 1].0);
    }
}

/// Generation safety: once a unit is superseded by a later one, it can never
/// commit — even if its result arrives after the later unit was scheduled
/// and before the later unit's own result does.  Admission is by generation,
/// not by wall-clock completion order.
pub proof fn lemma_generation_safety(
    a_gen: u64,
    b_gen: u64,
    current: u64,
    prior: Seq<EmoteModel>,
    a_result: Result<Seq<EmoteModel>, NetworkError>,
)
    requires
        a_gen < b_gen,
        b_gen <= current,
    ensures
        !commit_allowed(current, a_gen),
        commit_step(current, a_gen, prior, a_result) == prior,
{
}

/// Empty-query behavior: a still-current unit whose query is empty commits
/// the recency snapshot, and neither a disk-query lookup nor a network step
/// is ever decided for it.
pub proof fn lemma_empty_query_commits_recent(current: u64)
    ensures
        timer_decision(current, current, true) == TimerDecision::CommitRecent,
        timer_decision(current, current, true) != TimerDecision::RunQuery,
{
}

} // verus!
