use vstd::prelude::*;

verus! {

/// Beacon block header, reduced to plain fields. The internal shape of the
/// sync-protocol artifacts is owned by the light client's domain model; this
/// core only moves them between wire bytes and typed values.
pub struct Header {
    pub slot: u64,
    pub proposer_index: u64,
    pub parent_root: Vec<u8>,
    pub state_root: Vec<u8>,
    pub body_root: Vec<u8>,
}

/// A sync committee: the member public keys and the aggregate key.
pub struct SyncCommittee {
    pub pubkeys: Vec<Vec<u8>>,
    pub aggregate_pubkey: Vec<u8>,
}

/// Participation bits and aggregate signature of a sync-committee message.
pub struct SyncAggregate {
    pub sync_committee_bits: Vec<u8>,
    pub sync_committee_signature: Vec<u8>,
}

/// Sync-committee bootstrap anchored at a beacon-block root.
pub struct Bootstrap {
    pub header: Header,
    pub current_sync_committee: SyncCommittee,
    pub current_sync_committee_branch: Vec<Vec<u8>>,
}

/// One sync-committee update.
pub struct Update {
    pub attested_header: Header,
    pub next_sync_committee: SyncCommittee,
    pub next_sync_committee_branch: Vec<Vec<u8>>,
    pub finalized_header: Header,
    pub finality_branch: Vec<Vec<u8>>,
    pub sync_aggregate: SyncAggregate,
    pub signature_slot: u64,
}

/// Latest finalized-head update known to the queried peers.
pub struct FinalityUpdate {
    pub attested_header: Header,
    pub finalized_header: Header,
    pub finality_branch: Vec<Vec<u8>>,
    pub sync_aggregate: SyncAggregate,
    pub signature_slot: u64,
}

/// Latest unfinalized-head update known to the queried peers.
pub struct OptimisticUpdate {
    pub attested_header: Header,
    pub sync_aggregate: SyncAggregate,
    pub signature_slot: u64,
}

/// A beacon block.
pub struct BeaconBlock {
    pub slot: u64,
    pub proposer_index: u64,
    pub parent_root: Vec<u8>,
    pub state_root: Vec<u8>,
    pub body: Vec<u8>,
}

/// A typed retrieval request, one of the five calls of the retrieval
/// contract; a value type constructed fresh per call.
pub enum RetrievalRequest {
    Bootstrap { block_root: Vec<u8> },
    Updates { start_period: u64, count: u8 },
    FinalityUpdate,
    OptimisticUpdate,
    Block { slot: u64 },
}

/// A decoded response from one candidate peer.
pub enum RetrievalResponse {
    Bootstrap(Bootstrap),
    Updates(Vec<Update>),
    FinalityUpdate(FinalityUpdate),
    OptimisticUpdate(OptimisticUpdate),
    Block(BeaconBlock),
}

/// The shape check a response must pass to win the race: the variant must
/// answer the request; a block must carry the requested slot; an updates
/// batch must not exceed the requested count. Syntactic checks only —
/// cryptographic and state-transition validity are out of scope.
pub open spec fn spec_response_matches(req: RetrievalRequest, resp: RetrievalResponse) -> bool {
    match req {
        RetrievalRequest::Bootstrap { .. } => resp matches RetrievalResponse::Bootstrap(_),
        RetrievalRequest::Updates { start_period: _, count } => match resp {
            RetrievalResponse::Updates(us) => us@.len() <= count as int,
            _ => false,
        },
        RetrievalRequest::FinalityUpdate => resp matches RetrievalResponse::FinalityUpdate(_),
        RetrievalRequest::OptimisticUpdate => resp matches RetrievalResponse::OptimisticUpdate(_),
        RetrievalRequest::Block { slot } => match resp {
            RetrievalResponse::Block(b) => b.slot == slot,
            _ => false,
        },
    }
}

/// Decide the shape check.
pub fn response_matches(req: &RetrievalRequest, resp: &RetrievalResponse) -> (r: bool)
    ensures
        r == spec_response_matches(*req, *resp),
{
    match req {
        RetrievalRequest::Bootstrap { .. } => matches!(resp, RetrievalResponse::Bootstrap(_)),
        RetrievalRequest::Updates { start_period: _, count } => match resp {
            RetrievalResponse::Updates(us) => us.len() <= *count as usize,
            _ => false,
        },
        RetrievalRequest::FinalityUpdate => matches!(resp, RetrievalResponse::FinalityUpdate(_)),
        RetrievalRequest::OptimisticUpdate => matches!(
            resp,
            RetrievalResponse::OptimisticUpdate(_)
        ),
        RetrievalRequest::Block { slot } => match resp {
            RetrievalResponse::Block(b) => b.slot == *slot,
            _ => false,
        },
    }
}

} // verus!
