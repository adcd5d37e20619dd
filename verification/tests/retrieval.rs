use p2p_rpc::discovery::{seed_table, Discovery, PollOutcome};
use p2p_rpc::errors::{InitError, RetrievalError};
use p2p_rpc::facade::{CallState, CallStep, CandidateEvent, EthNetwork, P2PRpc};
use p2p_rpc::messages::{BeaconBlock, FinalityUpdate, Header, RetrievalResponse, SyncAggregate,
    Update};
use p2p_rpc::networks::{bootstrap_list, Network};
use p2p_rpc::peer_table::PeerTable;
use p2p_rpc::records::{NodeRecord, PeerIdentity};

fn header() -> Header {
    Header {
        slot: 0,
        proposer_index: 0,
        parent_root: vec![],
        state_root: vec![],
        body_root: vec![],
    }
}

fn sync_aggregate() -> SyncAggregate {
    SyncAggregate { sync_committee_bits: vec![], sync_committee_signature: vec![] }
}

fn finality_update() -> FinalityUpdate {
    FinalityUpdate {
        attested_header: header(),
        finalized_header: header(),
        finality_branch: vec![],
        sync_aggregate: sync_aggregate(),
        signature_slot: 9,
    }
}

fn update() -> Update {
    Update {
        attested_header: header(),
        next_sync_committee: p2p_rpc::messages::SyncCommittee {
            pubkeys: vec![],
            aggregate_pubkey: vec![],
        },
        next_sync_committee_branch: vec![],
        finalized_header: header(),
        finality_branch: vec![],
        sync_aggregate: sync_aggregate(),
        signature_slot: 3,
    }
}

fn block(slot: u64) -> BeaconBlock {
    BeaconBlock { slot, proposer_index: 1, parent_root: vec![], state_root: vec![], body: vec![] }
}

fn record(id: u8, seq: u64) -> NodeRecord {
    NodeRecord { id: PeerIdentity { bytes: vec![id] }, seq }
}

fn rpc_with_peers(peers: &[(u8, u64)], fanout: usize, timeout_ms: u64) -> P2PRpc {
    let mut table = PeerTable::new();
    for (id, last_seen) in peers {
        table.insert(record(*id, 1), *last_seen);
    }
    P2PRpc {
        network: EthNetwork { discovery: Discovery { table, pending: vec![] } },
        fanout,
        timeout_ms,
    }
}

#[test]
fn bootstrap_lists_are_fixed_per_network() {
    let mainnet = bootstrap_list(Network::MAINNET);
    let goerli = bootstrap_list(Network::GOERLI);
    assert_eq!(mainnet.len(), 2);
    assert_eq!(goerli.len(), 2);
    assert_ne!(mainnet[0], goerli[0]);
    assert!(mainnet.iter().all(|s| s.starts_with("enr:")));
}

#[test]
fn mainnet_engine_seeds_both_records() {
    let d = Discovery::new(Network::MAINNET, 100).expect("mainnet bootstrap must decode");
    assert_eq!(d.table.len(), 2);
    assert!(d.pending.is_empty());
}

#[test]
fn goerli_engine_seeds_both_records() {
    let d = Discovery::new(Network::GOERLI, 100).expect("goerli bootstrap must decode");
    assert_eq!(d.table.len(), 2);
}

#[test]
fn corrupted_bootstrap_record_is_fatal() {
    let good = bootstrap_list(Network::MAINNET)[0];
    let bad = "enr:-Jq4QItoFUuugAAAAcorrupted";
    let r = seed_table(&vec![good, bad], 5);
    assert_eq!(r.err(), Some(InitError::InvalidBootstrapRecord { index: 1 }));
    let r = seed_table(&vec![bad, good], 5);
    assert_eq!(r.err(), Some(InitError::InvalidBootstrapRecord { index: 0 }));
}

#[test]
fn seeded_records_agree_with_direct_decoding() {
    // Decode one bootstrap record with the enr crate directly and check the
    // engine's table holds the same identity with the same sequence number.
    let text = bootstrap_list(Network::MAINNET)[0];
    let direct: enr::Enr<enr::CombinedKey> = text.parse().expect("record must decode");
    let id = PeerIdentity { bytes: direct.node_id().raw().to_vec() };
    let d = Discovery::new(Network::MAINNET, 100).expect("mainnet bootstrap must decode");
    let found = d.lookup(&id).expect("seeded identity must be present");
    assert_eq!(found.seq, direct.seq());
    assert_eq!(found.id.bytes, direct.node_id().raw().to_vec());
}

#[test]
fn lookup_is_idempotent_between_events() {
    let mut table = PeerTable::new();
    table.insert(record(7, 3), 50);
    let id = PeerIdentity { bytes: vec![7] };
    let a = table.lookup(&id).unwrap();
    let b = table.lookup(&id).unwrap();
    assert_eq!(a.seq, b.seq);
    assert_eq!(a.id.bytes, b.id.bytes);
    assert!(table.lookup(&PeerIdentity { bytes: vec![9] }).is_none());
}

#[test]
fn higher_sequence_replaces_record_wholesale() {
    let mut table = PeerTable::new();
    table.insert(record(7, 3), 50);
    table.insert(record(7, 5), 60);
    let id = PeerIdentity { bytes: vec![7] };
    assert_eq!(table.lookup(&id).unwrap().seq, 5);
    assert_eq!(table.len(), 1);
    // An older record never supersedes the current one.
    table.insert(record(7, 4), 70);
    assert_eq!(table.lookup(&id).unwrap().seq, 5);
}

#[test]
fn poll_drains_pending_batch_exactly_once() {
    let mut d = Discovery { table: PeerTable::new(), pending: vec![] };
    match d.poll() {
        PollOutcome::Pending => {},
        PollOutcome::Ready(_) => panic!("idle adapter must signal no event"),
    }
    d.record_discovered(record(1, 1), 10);
    d.record_discovered(record(2, 1), 11);
    assert_eq!(d.table.len(), 2);
    match d.poll() {
        PollOutcome::Ready(batch) => {
            assert_eq!(batch.peers.len(), 2);
            assert_eq!(batch.peers[0].bytes, vec![1]);
            assert_eq!(batch.peers[1].bytes, vec![2]);
        },
        PollOutcome::Pending => panic!("two discoveries must surface a batch"),
    }
    match d.poll() {
        PollOutcome::Pending => {},
        PollOutcome::Ready(_) => panic!("a batch is consumed exactly once"),
    }
}

#[test]
fn selection_prefers_most_recently_seen() {
    let rpc = rpc_with_peers(&[(1, 10), (2, 30), (3, 20)], 1, 1000);
    let cands = rpc.network.discovery.table.select_candidates(1);
    assert_eq!(cands.len(), 1);
    assert_eq!(cands[0].bytes, vec![2]);
    let cands = rpc.network.discovery.table.select_candidates(2);
    let mut ids: Vec<u8> = cands.iter().map(|c| c.bytes[0]).collect();
    ids.sort();
    assert_eq!(ids, vec![2, 3]);
}

#[test]
fn stale_peers_are_deprioritized_even_if_recent() {
    let mut rpc = rpc_with_peers(&[(1, 10), (2, 50)], 1, 5000);
    // Time the more recent peer out once: it is marked stale.
    let cs = rpc.get_block(1, 0).expect("peers are available");
    assert_eq!(cs.candidates[0].bytes, vec![2]);
    match rpc.on_candidate_event(cs, 0, CandidateEvent::TimedOut) {
        CallStep::Failed(e) => assert_eq!(e, RetrievalError::AllCandidatesFailed),
        _ => panic!("the single candidate timing out exhausts the call"),
    }
    // The fresh peer now wins selection despite its older last-seen time.
    let cands = rpc.network.discovery.table.select_candidates(1);
    assert_eq!(cands[0].bytes, vec![1]);
}

#[test]
fn deadline_saturates_at_the_end_of_time() {
    let rpc = rpc_with_peers(&[(1, 10)], 1, 5000);
    let cs = rpc.get_block(1, u64::MAX - 10).expect("peers are available");
    assert_eq!(cs.deadline, u64::MAX);
}

#[test]
fn empty_table_fails_immediately_with_no_peers() {
    let rpc = rpc_with_peers(&[], 3, 5000);
    assert_eq!(rpc.get_finality_update(0).err(), Some(RetrievalError::NoPeersAvailable));
    assert_eq!(rpc.get_bootstrap(vec![0xab], 0).err(), Some(RetrievalError::NoPeersAvailable));
    assert_eq!(rpc.get_updates(1, 4, 0).err(), Some(RetrievalError::NoPeersAvailable));
    assert_eq!(rpc.get_optimistic_update(0).err(), Some(RetrievalError::NoPeersAvailable));
    assert_eq!(rpc.get_block(5, 0).err(), Some(RetrievalError::NoPeersAvailable));
}

fn in_flight(step: CallStep) -> CallState {
    match step {
        CallStep::Continue(cs) => cs,
        _ => panic!("call should stay in flight"),
    }
}

#[test]
fn race_returns_first_valid_response() {
    let mut rpc = rpc_with_peers(&[(1, 10), (2, 20)], 3, 5000);
    let cs = rpc.get_block(7, 100).expect("peers are available");
    assert_eq!(cs.candidates.len(), 2);
    assert_eq!(cs.deadline, 5100);
    assert!(cs.failed.iter().all(|f| !f));
    let cs = in_flight(rpc.on_candidate_event(cs, 0, CandidateEvent::TimedOut));
    let step = rpc.on_candidate_event(
        cs,
        1,
        CandidateEvent::Response(RetrievalResponse::Block(block(7))),
    );
    match step {
        CallStep::Resolved(RetrievalResponse::Block(b)) => assert_eq!(b.slot, 7),
        _ => panic!("the one valid response must win the race"),
    }
}

#[test]
fn all_timeouts_exhaust_the_call_and_mark_candidates_stale() {
    let mut rpc = rpc_with_peers(&[(1, 10), (2, 20)], 3, 5000);
    let cs = rpc.get_optimistic_update(0).expect("peers are available");
    let cs = in_flight(rpc.on_candidate_event(cs, 0, CandidateEvent::TimedOut));
    let step = rpc.on_candidate_event(cs, 1, CandidateEvent::TimedOut);
    match step {
        CallStep::Failed(e) => assert_eq!(e, RetrievalError::AllCandidatesFailed),
        _ => panic!("exhaustion must fail the call"),
    }
    let entries = &rpc.network.discovery.table.entries;
    assert!(entries.iter().all(|e| e.stale));
}

#[test]
fn deadline_fails_outstanding_candidates_at_once() {
    let mut rpc = rpc_with_peers(&[(1, 10), (2, 20), (3, 30)], 3, 5000);
    let cs = rpc.get_finality_update(0).expect("peers are available");
    assert_eq!(cs.candidates.len(), 3);
    let cs = in_flight(rpc.on_candidate_event(cs, 1, CandidateEvent::Malformed));
    let step = rpc.on_deadline(cs);
    match step {
        CallStep::Failed(e) => assert_eq!(e, RetrievalError::AllCandidatesFailed),
        _ => panic!("the deadline must fail the whole call"),
    }
    // The two candidates that timed out are stale; the malformed answer is
    // absorbed without a staleness mark.
    let stale: Vec<bool> = rpc.network.discovery.table.entries.iter().map(|e| e.stale).collect();
    assert_eq!(stale.iter().filter(|s| **s).count(), 2);
}

#[test]
fn wrong_slot_is_a_failed_candidate_never_a_result() {
    let mut rpc = rpc_with_peers(&[(1, 10), (2, 20)], 3, 5000);
    let cs = rpc.get_block(5, 0).expect("peers are available");
    let step = rpc.on_candidate_event(
        cs,
        0,
        CandidateEvent::Response(RetrievalResponse::Block(block(6))),
    );
    let cs = in_flight(step);
    assert!(cs.failed[0]);
    let step = rpc.on_candidate_event(
        cs,
        1,
        CandidateEvent::Response(RetrievalResponse::Block(block(5))),
    );
    match step {
        CallStep::Resolved(RetrievalResponse::Block(b)) => assert_eq!(b.slot, 5),
        _ => panic!("the matching block must be returned"),
    }
}

#[test]
fn oversized_update_batch_is_rejected() {
    let mut rpc = rpc_with_peers(&[(1, 10), (2, 20)], 3, 5000);
    let cs = rpc.get_updates(1, 2, 0).expect("peers are available");
    let step = rpc.on_candidate_event(
        cs,
        0,
        CandidateEvent::Response(RetrievalResponse::Updates(vec![update(), update(), update()])),
    );
    let cs = in_flight(step);
    let step = rpc.on_candidate_event(
        cs,
        1,
        CandidateEvent::Response(RetrievalResponse::Updates(vec![update(), update()])),
    );
    match step {
        CallStep::Resolved(RetrievalResponse::Updates(us)) => assert_eq!(us.len(), 2),
        _ => panic!("a batch within the requested count must win"),
    }
}

#[test]
fn mismatched_variant_is_rejected() {
    let mut rpc = rpc_with_peers(&[(1, 10)], 1, 5000);
    let cs = rpc.get_finality_update(0).expect("peers are available");
    let step = rpc.on_candidate_event(
        cs,
        0,
        CandidateEvent::Response(RetrievalResponse::Block(block(1))),
    );
    match step {
        CallStep::Failed(e) => assert_eq!(e, RetrievalError::AllCandidatesFailed),
        _ => panic!("a response of the wrong variant must not resolve the call"),
    }
}

#[test]
fn recorded_outcomes_resolve_to_first_valid_response() {
    let mut rpc = rpc_with_peers(&[(1, 10), (2, 20), (3, 30)], 3, 5000);
    let cs = rpc.get_block(4, 0).expect("peers are available");
    let outcomes = vec![
        CandidateEvent::TimedOut,
        CandidateEvent::Response(RetrievalResponse::Block(block(4))),
        CandidateEvent::Response(RetrievalResponse::Block(block(99))),
    ];
    match rpc.resolve_with_outcomes(cs, outcomes) {
        Ok(RetrievalResponse::Block(b)) => assert_eq!(b.slot, 4),
        _ => panic!("the first shape-valid response must be the result"),
    }
    // Only the candidate reached before the winner and timed out is stale.
    let stale: usize =
        rpc.network.discovery.table.entries.iter().filter(|e| e.stale).count();
    assert_eq!(stale, 1);
}

#[test]
fn recorded_outcomes_without_a_valid_response_exhaust() {
    let mut rpc = rpc_with_peers(&[(1, 10), (2, 20)], 3, 5000);
    let cs = rpc.get_updates(3, 1, 0).expect("peers are available");
    let outcomes = vec![
        CandidateEvent::Malformed,
        CandidateEvent::Response(RetrievalResponse::Updates(vec![update(), update()])),
    ];
    match rpc.resolve_with_outcomes(cs, outcomes) {
        Err(e) => assert_eq!(e, RetrievalError::AllCandidatesFailed),
        _ => panic!("no acceptable outcome may resolve the call"),
    }
}

#[test]
fn two_peer_network_proceeds_with_two_candidates() {
    // Fan-out 3 against a table of only 2 peers: the call proceeds with 2
    // candidates and succeeds as soon as either answers validly.
    let rpc = P2PRpc::with_config(Network::MAINNET, 3, 5000, 0).expect("seeding must succeed");
    let mut rpc = rpc;
    assert_eq!(rpc.network.discovery.table.len(), 2);
    let cs = rpc.get_finality_update(7).expect("two seeded peers are available");
    assert_eq!(cs.candidates.len(), 2);
    assert_eq!(cs.deadline, 5007);
    let step = rpc.on_candidate_event(
        cs,
        0,
        CandidateEvent::Response(RetrievalResponse::FinalityUpdate(finality_update())),
    );
    match step {
        CallStep::Resolved(RetrievalResponse::FinalityUpdate(f)) => {
            assert_eq!(f.signature_slot, 9)
        },
        _ => panic!("a valid finality update must resolve the call"),
    }
}
