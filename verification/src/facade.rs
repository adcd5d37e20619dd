use vstd::prelude::*;

use crate::discovery::{all_records_decode, spec_seed, Discovery};
use crate::errors::{InitError, RetrievalError};
use crate::messages::{response_matches, spec_response_matches, BeaconBlock, RetrievalRequest,
    RetrievalResponse};
use crate::networks::{spec_boot_records, Network};
use crate::peer_table::{candidates_selected, ids_of, spec_mark_stale, EntryModel};
use crate::records::enr_decode;

verus! {

/// Default candidate fan-out per retrieval call.
pub const DEFAULT_FANOUT: usize = 3;

/// Default per-call timeout in milliseconds, shared by all candidates of one
/// call.
pub const DEFAULT_TIMEOUT_MS: u64 = 5000;

/// The network stack this core drives: the Discovery Engine behind the Swarm
/// Adapter surface.
pub struct EthNetwork {
    pub discovery: Discovery,
}

impl EthNetwork {
    /// Start the network stack for `network`, seeding discovery from its
    /// bootstrap list.
    pub fn new(network: Network, now: u64) -> (r: Result<EthNetwork, InitError>)
        ensures
            ({
                let recs = spec_boot_records(network);
                match r {
                    Ok(n) => all_records_decode(recs) && n.discovery.table@ == spec_seed(
                        recs,
                        now,
                        recs.len() as int,
                    ) && n.discovery.table.wf() && n.discovery.pending@.len() == 0,
                    Err(e) => exists|i: int|
                        0 <= i < recs.len() && (#[trigger] enr_decode(recs[i])) is None && (forall|
                            j: int,
                        | 0 <= j < i ==> (#[trigger] enr_decode(recs[j])) is Some) && e == (
                        InitError::InvalidBootstrapRecord { index: i as usize }),
                }
            }),
    {
        match Discovery::new(network, now) {
            Ok(d) => Ok(EthNetwork { discovery: d }),
            Err(e) => Err(e),
        }
    }
}

/// One in-flight retrieval call: the typed request, the raced candidate set,
/// which candidates have already failed, and the single deadline shared by
/// all of them (so exhaustion takes at most one timeout, never one per
/// candidate).
pub struct CallState {
    pub request: RetrievalRequest,
    pub candidates: Vec<crate::records::PeerIdentity>,
    pub failed: Vec<bool>,
    pub deadline: u64,
}

impl CallState {
    pub open spec fn wf(self) -> bool {
        &&& self.failed@.len() == self.candidates@.len()
        &&& self.candidates@.len() >= 1
        &&& ids_of(self.candidates@).no_duplicates()
    }

    /// Every candidate but `i` has already failed.
    pub open spec fn exhausted_after(self, i: int) -> bool {
        forall|j: int| 0 <= j < self.failed@.len() && j != i ==> self.failed@[j]
    }
}

/// The outcome of one candidate's attempt, as the event loop observed it.
pub enum CandidateEvent {
    /// The candidate answered and its payload decoded into a typed response
    /// (which may still fail the shape check).
    Response(RetrievalResponse),
    /// The candidate answered with bytes that did not decode.
    Malformed,
    /// The candidate did not answer before the call's deadline.
    TimedOut,
}

/// What the racing state machine decides after one event.
pub enum CallStep {
    /// First shape-valid response: the call's result.
    Resolved(RetrievalResponse),
    /// The call failed as a whole.
    Failed(RetrievalError),
    /// The call stays in flight with the remaining candidates.
    Continue(CallState),
}

/// Whether an event wins the race: only a response that passes the shape
/// check does.
pub open spec fn event_accepted(req: RetrievalRequest, ev: CandidateEvent) -> bool {
    match ev {
        CandidateEvent::Response(resp) => spec_response_matches(req, resp),
        _ => false,
    }
}

/// Deadline arithmetic, saturating at the end of time.
pub open spec fn spec_deadline(now: u64, timeout_ms: u64) -> u64 {
    if now + timeout_ms <= u64::MAX {
        (now + timeout_ms) as u64
    } else {
        u64::MAX
    }
}

/// The table state after marking every still-outstanding candidate of `cs`
/// (its first `k`) stale.
pub open spec fn spec_stale_outstanding(
    s: Seq<EntryModel>,
    cs: CallState,
    k: int,
) -> Seq<EntryModel>
    decreases k,
{
    if k <= 0 {
        s
    } else {
        let prev = spec_stale_outstanding(s, cs, k - 1);
        if !cs.failed@[k - 1] {
            spec_mark_stale(prev, cs.candidates@[k - 1]@)
        } else {
            prev
        }
    }
}

/// P2P Retrieval Facade: implements the five-method retrieval contract by
/// selecting candidates from the live table and racing one wire request per
/// candidate under a shared deadline.
pub struct P2PRpc {
    pub network: EthNetwork,
    pub fanout: usize,
    pub timeout_ms: u64,
}

/// What holds of a freshly begun call: well-formed, carrying the request,
/// its candidates selected from the current table by freshness, none failed
/// yet, and one shared deadline a single timeout away.
pub open spec fn call_started(p: P2PRpc, cs: CallState, req: RetrievalRequest, now: u64) -> bool {
    &&& cs.wf()
    &&& cs.request == req
    &&& cs.deadline == spec_deadline(now, p.timeout_ms)
    &&& forall|j: int| 0 <= j < cs.failed@.len() ==> !(#[trigger] cs.failed@[j])
    &&& candidates_selected(p.table_model(), ids_of(cs.candidates@), p.fanout as int)
}

impl P2PRpc {
    pub open spec fn table_model(self) -> Seq<EntryModel> {
        self.network.discovery.table@
    }

    pub open spec fn wf(self) -> bool {
        &&& self.fanout >= 1
        &&& crate::peer_table::table_wf(self.table_model())
    }

    /// Start the facade for `network` with an explicit fan-out and per-call
    /// timeout.
    pub fn with_config(network: Network, fanout: usize, timeout_ms: u64, now: u64) -> (r: Result<
        P2PRpc,
        InitError,
    >)
        requires
            fanout >= 1,
        ensures
            ({
                let recs = spec_boot_records(network);
                match r {
                    Ok(p) => p.wf() && p.fanout == fanout && p.timeout_ms == timeout_ms
                        && all_records_decode(recs) && p.table_model() == spec_seed(
                        recs,
                        now,
                        recs.len() as int,
                    ),
                    Err(e) => exists|i: int|
                        0 <= i < recs.len() && (#[trigger] enr_decode(recs[i])) is None && (forall|
                            j: int,
                        | 0 <= j < i ==> (#[trigger] enr_decode(recs[j])) is Some) && e == (
                        InitError::InvalidBootstrapRecord { index: i as usize }),
                }
            }),
    {
        match EthNetwork::new(network, now) {
            Ok(n) => Ok(P2PRpc { network: n, fanout, timeout_ms }),
            Err(e) => Err(e),
        }
    }

    /// Start the facade for `network` with the default fan-out and timeout.
    pub fn new(network: Network, now: u64) -> (r: Result<P2PRpc, InitError>)
        ensures
            ({
                let recs = spec_boot_records(network);
                match r {
                    Ok(p) => p.wf() && p.fanout == DEFAULT_FANOUT && p.timeout_ms
                        == DEFAULT_TIMEOUT_MS && all_records_decode(recs) && p.table_model()
                        == spec_seed(recs, now, recs.len() as int),
                    Err(e) => exists|i: int|
                        0 <= i < recs.len() && (#[trigger] enr_decode(recs[i])) is None && (forall|
                            j: int,
                        | 0 <= j < i ==> (#[trigger] enr_decode(recs[j])) is Some) && e == (
                        InitError::InvalidBootstrapRecord { index: i as usize }),
                }
            }),
    {
        Self::with_config(network, DEFAULT_FANOUT, DEFAULT_TIMEOUT_MS, now)
    }

    /// Begin one retrieval call: fail immediately with `NoPeersAvailable` on
    /// an empty table — never wait for discovery — otherwise select the
    /// candidate set and arm the shared deadline.
    fn begin_call(&self, request: RetrievalRequest, now: u64) -> (r: Result<
        CallState,
        RetrievalError,
    >)
        requires
            self.wf(),
        ensures
            self.table_model().len() == 0 ==> r == Err::<CallState, RetrievalError>(
                RetrievalError::NoPeersAvailable,
            ),
            self.table_model().len() > 0 ==> (r matches Ok(cs) && call_started(
                *self,
                cs,
                request,
                now,
            )),
    {
        let candidates = self.network.discovery.table.select_candidates(self.fanout);
        if candidates.len() == 0 {
            return Err(RetrievalError::NoPeersAvailable);
        }
        let n = candidates.len();
        let mut failed: Vec<bool> = Vec::new();
        for k in 0..n
            invariant
                failed@.len() == k,
                forall|j: int| 0 <= j < k ==> !(#[trigger] failed@[j]),
        {
            failed.push(false);
        }
        let deadline = if now <= u64::MAX - self.timeout_ms {
            now + self.timeout_ms
        } else {
            u64::MAX
        };
        Ok(CallState { request, candidates, failed, deadline })
    }

    /// Fetch the sync-committee bootstrap anchored at `block_root`.
    pub fn get_bootstrap(&self, block_root: Vec<u8>, now: u64) -> (r: Result<
        CallState,
        RetrievalError,
    >)
        requires
            self.wf(),
        ensures
            self.table_model().len() == 0 ==> r == Err::<CallState, RetrievalError>(
                RetrievalError::NoPeersAvailable,
            ),
            self.table_model().len() > 0 ==> (r matches Ok(cs) && call_started(
                *self,
                cs,
                (RetrievalRequest::Bootstrap { block_root }),
                now,
            )),
    {
        self.begin_call(RetrievalRequest::Bootstrap { block_root }, now)
    }

    /// Fetch up to `count` consecutive committee updates starting at
    /// `start_period`.
    pub fn get_updates(&self, start_period: u64, count: u8, now: u64) -> (r: Result<
        CallState,
        RetrievalError,
    >)
        requires
            self.wf(),
        ensures
            self.table_model().len() == 0 ==> r == Err::<CallState, RetrievalError>(
                RetrievalError::NoPeersAvailable,
            ),
            self.table_model().len() > 0 ==> (r matches Ok(cs) && call_started(
                *self,
                cs,
                (RetrievalRequest::Updates { start_period, count }),
                now,
            )),
    {
        self.begin_call(RetrievalRequest::Updates { start_period, count }, now)
    }

    /// Fetch the latest finality update known to the queried peers.
    pub fn get_finality_update(&self, now: u64) -> (r: Result<CallState, RetrievalError>)
        requires
            self.wf(),
        ensures
            self.table_model().len() == 0 ==> r == Err::<CallState, RetrievalError>(
                RetrievalError::NoPeersAvailable,
            ),
            self.table_model().len() > 0 ==> (r matches Ok(cs) && call_started(
                *self,
                cs,
                RetrievalRequest::FinalityUpdate,
                now,
            )),
    {
        self.begin_call(RetrievalRequest::FinalityUpdate, now)
    }

    /// Fetch the latest optimistic (unfinalized) head update.
    pub fn get_optimistic_update(&self, now: u64) -> (r: Result<CallState, RetrievalError>)
        requires
            self.wf(),
        ensures
            self.table_model().len() == 0 ==> r == Err::<CallState, RetrievalError>(
                RetrievalError::NoPeersAvailable,
            ),
            self.table_model().len() > 0 ==> (r matches Ok(cs) && call_started(
                *self,
                cs,
                RetrievalRequest::OptimisticUpdate,
                now,
            )),
    {
        self.begin_call(RetrievalRequest::OptimisticUpdate, now)
    }

    /// Fetch the beacon block at `slot`.
    pub fn get_block(&self, slot: u64, now: u64) -> (r: Result<CallState, RetrievalError>)
        requires
            self.wf(),
        ensures
            self.table_model().len() == 0 ==> r == Err::<CallState, RetrievalError>(
                RetrievalError::NoPeersAvailable,
            ),
            self.table_model().len() > 0 ==> (r matches Ok(cs) && call_started(
                *self,
                cs,
                (RetrievalRequest::Block { slot }),
                now,
            )),
    {
        self.begin_call(RetrievalRequest::Block { slot }, now)
    }

    /// Absorb one candidate failure: mark the candidate failed (and, after a
    /// timeout, stale in the table), and fail the whole call only when no
    /// candidate remains outstanding.
    fn fail_candidate(&mut self, cs: CallState, i: usize, timed_out: bool) -> (r: CallStep)
        requires
            old(self).wf(),
            cs.wf(),
            i < cs.candidates@.len(),
            !cs.failed@[i as int],
        ensures
            final(self).wf(),
            final(self).fanout == old(self).fanout,
            final(self).timeout_ms == old(self).timeout_ms,
            timed_out ==> final(self).table_model() == spec_mark_stale(
                old(self).table_model(),
                cs.candidates@[i as int]@,
            ),
            !timed_out ==> final(self).table_model() == old(self).table_model(),
            cs.exhausted_after(i as int) ==> r == CallStep::Failed(
                RetrievalError::AllCandidatesFailed,
            ),
            !cs.exhausted_after(i as int) ==> (r matches CallStep::Continue(cs2) && cs2.request
                == cs.request && cs2.candidates@ == cs.candidates@ && cs2.failed@
                == cs.failed@.update(i as int, true) && cs2.deadline == cs.deadline && cs2.wf()),
    {
        let ghost cs0 = cs;
        if timed_out {
            self.network.discovery.table.mark_stale(&cs.candidates[i]);
        }
        let mut cs = cs;
        cs.failed.set(i, true);
        let n = cs.failed.len();
        let mut all = true;
        for j in 0..n
            invariant
                n == cs.failed@.len(),
                all == (forall|t: int| 0 <= t < j ==> (#[trigger] cs.failed@[t])),
        {
            let f = cs.failed[j];
            all = all && f;
        }
        proof {
            if all {
                assert forall|j: int| 0 <= j < cs0.failed@.len() && j != i as int implies cs0
                    .failed@[j] by {
                    assert(cs.failed@[j]);
                }
            }
        }
        if all {
            CallStep::Failed(RetrievalError::AllCandidatesFailed)
        } else {
            CallStep::Continue(cs)
        }
    }

    /// Race step: feed the outcome of candidate `i` into the call. The first
    /// response that passes the shape check resolves the call at once; any
    /// other outcome is absorbed — a timeout additionally marks the
    /// candidate stale — and only exhaustion of every candidate fails the
    /// call.
    pub fn on_candidate_event(&mut self, cs: CallState, i: usize, ev: CandidateEvent) -> (r:
        CallStep)
        requires
            old(self).wf(),
            cs.wf(),
            i < cs.candidates@.len(),
            !cs.failed@[i as int],
        ensures
            final(self).wf(),
            final(self).fanout == old(self).fanout,
            final(self).timeout_ms == old(self).timeout_ms,
            ev matches CandidateEvent::TimedOut ==> final(self).table_model() == spec_mark_stale(
                old(self).table_model(),
                cs.candidates@[i as int]@,
            ),
            !(ev matches CandidateEvent::TimedOut) ==> final(self).table_model() == old(
                self,
            ).table_model(),
            event_accepted(cs.request, ev) ==> (ev matches CandidateEvent::Response(resp) && r
                == CallStep::Resolved(resp)),
            !event_accepted(cs.request, ev) && cs.exhausted_after(i as int) ==> r
                == CallStep::Failed(RetrievalError::AllCandidatesFailed),
            !event_accepted(cs.request, ev) && !cs.exhausted_after(i as int) ==> (r matches
                CallStep::Continue(cs2) && cs2.request == cs.request && cs2.candidates@
                == cs.candidates@ && cs2.failed@ == cs.failed@.update(i as int, true)
                && cs2.deadline == cs.deadline && cs2.wf()),
    {
        match ev {
            CandidateEvent::Response(resp) => {
                if response_matches(&cs.request, &resp) {
                    CallStep::Resolved(resp)
                } else {
                    self.fail_candidate(cs, i, false)
                }
            },
            CandidateEvent::Malformed => self.fail_candidate(cs, i, false),
            CandidateEvent::TimedOut => self.fail_candidate(cs, i, true),
        }
    }

    /// The call's shared deadline passed: every still-outstanding candidate
    /// is treated as failed and marked stale, and the call fails as a whole
    /// — after one timeout, not one per candidate.
    pub fn on_deadline(&mut self, cs: CallState) -> (r: CallStep)
        requires
            old(self).wf(),
            cs.wf(),
        ensures
            final(self).wf(),
            final(self).fanout == old(self).fanout,
            final(self).timeout_ms == old(self).timeout_ms,
            r == CallStep::Failed(RetrievalError::AllCandidatesFailed),
            final(self).table_model() == spec_stale_outstanding(
                old(self).table_model(),
                cs,
                cs.candidates@.len() as int,
            ),
    {
        let n = cs.candidates.len();
        for k in 0..n
            invariant
                n == cs.candidates@.len(),
                n == cs.failed@.len(),
                self.wf(),
                self.fanout == old(self).fanout,
                self.timeout_ms == old(self).timeout_ms,
                self.table_model() == spec_stale_outstanding(old(self).table_model(), cs, k as int),
        {
            if !cs.failed[k] {
                self.network.discovery.table.mark_stale(&cs.candidates[k]);
            }
        }
        CallStep::Failed(RetrievalError::AllCandidatesFailed)
    }
}

/// Position of the first event that wins the race, or -1 where none does.
pub open spec fn first_accepted(req: RetrievalRequest, evs: Seq<CandidateEvent>) -> int
    decreases evs.len(),
{
    if evs.len() == 0 {
        -1
    } else if event_accepted(req, evs[0]) {
        0
    } else {
        let r = first_accepted(req, evs.drop_first());
        if r < 0 {
            -1
        } else {
            r + 1
        }
    }
}

proof fn lemma_first_accepted_at(req: RetrievalRequest, evs: Seq<CandidateEvent>, i: int)
    requires
        0 <= i < evs.len(),
        event_accepted(req, evs[i]),
        forall|j: int| 0 <= j < i ==> !event_accepted(req, #[trigger] evs[j]),
    ensures
        first_accepted(req, evs) == i,
    decreases evs.len(),
{
    if event_accepted(req, evs[0]) {
    } else {
        assert(forall|j: int| 0 <= j < evs.drop_first().len() ==> evs.drop_first()[j] == evs[j + 1]);
        lemma_first_accepted_at(req, evs.drop_first(), i - 1);
    }
}

proof fn lemma_first_accepted_none(req: RetrievalRequest, evs: Seq<CandidateEvent>)
    requires
        forall|j: int| 0 <= j < evs.len() ==> !event_accepted(req, #[trigger] evs[j]),
    ensures
        first_accepted(req, evs) == -1,
    decreases evs.len(),
{
    if evs.len() == 0 {
    } else {
        assert(forall|j: int| 0 <= j < evs.drop_first().len() ==> evs.drop_first()[j] == evs[j + 1]);
        lemma_first_accepted_none(req, evs.drop_first());
    }
}

/// The table after the first `k` candidate outcomes: each timed-out
/// candidate is marked stale, other outcomes leave the table alone.
pub open spec fn spec_stale_after_events(
    s: Seq<EntryModel>,
    cs: CallState,
    evs: Seq<CandidateEvent>,
    k: int,
) -> Seq<EntryModel>
    decreases k,
{
    if k <= 0 {
        s
    } else {
        let prev = spec_stale_after_events(s, cs, evs, k - 1);
        if (evs[k - 1] matches CandidateEvent::TimedOut) {
            spec_mark_stale(prev, cs.candidates@[k - 1]@)
        } else {
            prev
        }
    }
}

impl P2PRpc {
    /// Run a whole race to completion from recorded outcomes, one per
    /// candidate in candidate order: the first response that passes the
    /// shape check is the call's result, late outcomes are discarded, and
    /// the call fails only where no outcome is accepted. Each timed-out
    /// candidate that was reached is marked stale.
    pub fn resolve_with_outcomes(&mut self, cs: CallState, outcomes: Vec<CandidateEvent>) -> (r:
        Result<RetrievalResponse, RetrievalError>)
        requires
            old(self).wf(),
            cs.wf(),
            outcomes@.len() == cs.candidates@.len(),
            forall|j: int| 0 <= j < cs.failed@.len() ==> !(#[trigger] cs.failed@[j]),
        ensures
            final(self).wf(),
            final(self).fanout == old(self).fanout,
            final(self).timeout_ms == old(self).timeout_ms,
            ({
                let fa = first_accepted(cs.request, outcomes@);
                &&& fa >= 0 ==> (outcomes@[fa] matches CandidateEvent::Response(resp) && r == Ok::<
                    RetrievalResponse,
                    RetrievalError,
                >(resp))
                &&& fa == -1 ==> r == Err::<RetrievalResponse, RetrievalError>(
                    RetrievalError::AllCandidatesFailed,
                )
                &&& final(self).table_model() == spec_stale_after_events(
                    old(self).table_model(),
                    cs,
                    outcomes@,
                    if fa >= 0 {
                        fa
                    } else {
                        outcomes@.len() as int
                    },
                )
            }),
    {
        let ghost evs0 = outcomes@;
        let ghost cs0 = cs;
        let n = outcomes.len();
        let mut rest = outcomes;
        let mut state = cs;
        let mut i: usize = 0;
        while i < n
            invariant
                cs == cs0,
                outcomes@ == evs0,
                i <= n,
                n == cs0.candidates@.len(),
                n == evs0.len(),
                rest@ == evs0.skip(i as int),
                state.wf(),
                state.request == cs0.request,
                state.candidates@ == cs0.candidates@,
                state.failed@.len() == n,
                forall|j: int| 0 <= j < n ==> #[trigger] state.failed@[j] == (j < i),
                forall|j: int| 0 <= j < i ==> !event_accepted(cs0.request, #[trigger] evs0[j]),
                self.wf(),
                self.fanout == old(self).fanout,
                self.timeout_ms == old(self).timeout_ms,
                self.table_model() == spec_stale_after_events(
                    old(self).table_model(),
                    cs0,
                    evs0,
                    i as int,
                ),
            decreases n - i,
        {
            let ev = rest.remove(0);
            proof {
                assert(ev == evs0[i as int]);
                assert(rest@ =~= evs0.skip(i as int + 1));
            }
            let step = self.on_candidate_event(state, i, ev);
            match step {
                CallStep::Resolved(resp) => {
                    proof {
                        lemma_first_accepted_at(cs0.request, evs0, i as int);
                    }
                    return Ok(resp);
                },
                CallStep::Failed(e) => {
                    proof {
                        assert(!event_accepted(cs0.request, evs0[i as int]));
                        assert(state.exhausted_after(i as int));
                        assert(i as int == n - 1) by {
                            if (i as int) < n - 1 {
                                assert(state.failed@[n - 1]);
                            }
                        }
                        lemma_first_accepted_none(cs0.request, evs0);
                        assert(self.table_model() == spec_stale_after_events(
                            old(self).table_model(),
                            cs0,
                            evs0,
                            n as int,
                        ));
                    }
                    return Err(e);
                },
                CallStep::Continue(next) => {
                    state = next;
                },
            }
            i = i + 1;
        }
        proof {
            lemma_first_accepted_none(cs0.request, evs0);
        }
        Err(RetrievalError::AllCandidatesFailed)
    }
}

/// A block whose declared slot differs from the requested slot never wins
/// the race: its event is not accepted, so the step that processes it marks
/// the candidate failed and never resolves the call with it.
pub proof fn lemma_slot_mismatch_rejected(cs: CallState, b: BeaconBlock, s: u64)
    requires
        cs.request == (RetrievalRequest::Block { slot: s }),
        b.slot != s,
    ensures
        !event_accepted(cs.request, CandidateEvent::Response(RetrievalResponse::Block(b))),
{
}

} // verus!
