//! The sync cycle and its failure isolation.
//!
//! Each timer tick runs one cycle: fetch a batch from the remote
//! source, then reconcile it into the store. The fetch itself is I/O
//! and happens outside the library; `run_cycle` takes its outcome and
//! applies the cycle's store effect, so a failed fetch provably leaves
//! the store untouched and never reaches the reconciler. `sync_step`
//! is the phase machine of the loop: every event leads back to a live
//! phase, a failure always back to `Idle` — no single bad cycle
//! terminates the loop or blocks the next one.

use vstd::prelude::*;

use crate::records::{FetchError, RemoteNodeRecord};
use crate::store::{upsert_map, NodeStore, RowData};

verus! {

/// How one cycle ended.
#[derive(Clone, Copy, PartialEq, Eq, Structural, Debug)]
pub enum CycleOutcome {
    /// The fetch succeeded and the batch was reconciled.
    Synced,
    /// The fetch failed; this cycle was abandoned before reconciling.
    FetchFailed,
}

/// The store effect of one cycle: a successful fetch upserts its
/// batch, a failed fetch changes nothing.
pub open spec fn cycle_map(
    m: Map<Seq<char>, RowData>,
    fetched: Result<Seq<RemoteNodeRecord>, FetchError>,
) -> Map<Seq<char>, RowData> {
    match fetched {
        Ok(batch) => upsert_map(m, batch),
        Err(_) => m,
    }
}

/// Runs the store part of one sync cycle on the fetch outcome the
/// transport layer hands in. On a fetched batch the store is
/// reconciled; on a fetch error the store is left exactly as it was
/// and the reconciler is never invoked.
pub fn run_cycle(store: &mut NodeStore, fetched: Result<Vec<RemoteNodeRecord>, FetchError>) -> (r:
    CycleOutcome)
    requires
        old(store).wf(),
    ensures
        final(store).wf(),
        match fetched {
            Ok(batch) => final(store)@ == upsert_map(old(store)@, batch@) && r
                == CycleOutcome::Synced,
            Err(_) => final(store)@ == old(store)@ && r == CycleOutcome::FetchFailed,
        },
{
    match fetched {
        Ok(batch) => {
            let persisted = store.reconcile(&batch);
            proof {
                assert(persisted is Ok);
            }
            CycleOutcome::Synced
        },
        Err(_) => CycleOutcome::FetchFailed,
    }
}

/// A failed cycle leaves no trace: a cycle whose fetch failed followed
/// by a successful cycle ends in the same store as the successful
/// cycle alone.
pub proof fn lemma_failed_cycle_isolated(
    m: Map<Seq<char>, RowData>,
    e: FetchError,
    batch: Seq<RemoteNodeRecord>,
)
    ensures
        cycle_map(cycle_map(m, Err(e)), Ok(batch)) == cycle_map(m, Ok(batch)),
{
}

/// The phases of the sync loop.
#[derive(Clone, Copy, PartialEq, Eq, Structural, Debug)]
pub enum SyncPhase {
    /// Waiting for the next timer tick.
    Idle,
    /// The fetch is in flight.
    Fetching,
    /// The fetched batch is being written to the store.
    Reconciling,
}

/// What the loop observes: the timer, and each stage's outcome.
#[derive(Clone, Copy, PartialEq, Eq, Structural, Debug)]
pub enum SyncEvent {
    Tick,
    FetchSucceeded,
    FetchFailed,
    PersistSucceeded,
    PersistFailed,
}

/// The loop's transition table: a tick starts a fetch, a fetched batch
/// is reconciled, and every failure abandons only the current cycle.
/// An event that does not belong to the current phase changes nothing.
pub open spec fn sync_step_spec(phase: SyncPhase, event: SyncEvent) -> SyncPhase {
    match (phase, event) {
        (SyncPhase::Idle, SyncEvent::Tick) => SyncPhase::Fetching,
        (SyncPhase::Fetching, SyncEvent::FetchSucceeded) => SyncPhase::Reconciling,
        (SyncPhase::Fetching, SyncEvent::FetchFailed) => SyncPhase::Idle,
        (SyncPhase::Reconciling, SyncEvent::PersistSucceeded) => SyncPhase::Idle,
        (SyncPhase::Reconciling, SyncEvent::PersistFailed) => SyncPhase::Idle,
        (p, _) => p,
    }
}

/// Advances the sync loop one observed event.
pub fn sync_step(phase: SyncPhase, event: SyncEvent) -> (next: SyncPhase)
    ensures
        next == sync_step_spec(phase, event),
{
    match (phase, event) {
        (SyncPhase::Idle, SyncEvent::Tick) => SyncPhase::Fetching,
        (SyncPhase::Fetching, SyncEvent::FetchSucceeded) => SyncPhase::Reconciling,
        (SyncPhase::Fetching, SyncEvent::FetchFailed) => SyncPhase::Idle,
        (SyncPhase::Reconciling, SyncEvent::PersistSucceeded) => SyncPhase::Idle,
        (SyncPhase::Reconciling, SyncEvent::PersistFailed) => SyncPhase::Idle,
        (p, _) => p,
    }
}

/// Failures never terminate the loop: whatever phase a failure hits,
/// the loop stands in `Idle` afterwards, ready for the next tick.
pub proof fn lemma_failure_returns_to_idle(phase: SyncPhase)
    ensures
        phase is Fetching ==> sync_step_spec(phase, SyncEvent::FetchFailed) == SyncPhase::Idle,
        phase is Reconciling ==> sync_step_spec(phase, SyncEvent::PersistFailed)
            == SyncPhase::Idle,
        sync_step_spec(SyncPhase::Idle, SyncEvent::Tick) == SyncPhase::Fetching,
{
}

} // verus!
