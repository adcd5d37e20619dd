use vstd::prelude::*;

use crate::errors::InitError;
use crate::networks::{bootstrap_list, spec_boot_records, Network};
use crate::peer_table::{ids_of, spec_insert, EntryModel, PeerTable};
use crate::records::{clone_bytes, decoded_record, enr_decode, parse_node_record, NodeRecord,
    PeerIdentity};

verus! {

/// The table a list of textual records seeds: the decoded records inserted
/// in list order into an empty table.
pub open spec fn spec_seed(recs: Seq<Seq<char>>, now: u64, k: int) -> Seq<EntryModel>
    decreases k,
{
    if k <= 0 {
        Seq::empty()
    } else {
        spec_insert(spec_seed(recs, now, k - 1), decoded_record(enr_decode(recs[k - 1])), now)
    }
}

/// Whether every record of a bootstrap list decodes.
pub open spec fn all_records_decode(recs: Seq<Seq<char>>) -> bool {
    forall|i: int| 0 <= i < recs.len() ==> (#[trigger] enr_decode(recs[i])) is Some
}

/// Build a peer table from a list of textual bootstrap records, dated `now`.
/// A decode failure on any single record is fatal: the error names the first
/// offending position and no partial table is returned.
pub fn seed_table(records: &Vec<&str>, now: u64) -> (r: Result<PeerTable, InitError>)
    ensures
        ({
            let recs = records@.map_values(|t: &str| t@);
            match r {
                Ok(t) => all_records_decode(recs) && t@ == spec_seed(recs, now, recs.len() as int)
                    && t.wf(),
                Err(e) => exists|i: int|
                    0 <= i < recs.len() && (#[trigger] enr_decode(recs[i])) is None && (forall|
                        j: int,
                    | 0 <= j < i ==> (#[trigger] enr_decode(recs[j])) is Some) && e == (
                    InitError::InvalidBootstrapRecord { index: i as usize }),
            }
        }),
{
    let ghost recs = records@.map_values(|t: &str| t@);
    let mut table = PeerTable::new();
    proof {
        assert(table@ =~= spec_seed(recs, now, 0));
    }
    let n = records.len();
    for i in 0..n
        invariant
            n == records@.len(),
            recs == records@.map_values(|t: &str| t@),
            forall|j: int| 0 <= j < i ==> (#[trigger] enr_decode(recs[j])) is Some,
            table@ == spec_seed(recs, now, i as int),
            table.wf(),
    {
        match parse_node_record(records[i]) {
            Some(rec) => {
                proof {
                    assert(records@[i as int]@ == recs[i as int]);
                    assert(enr_decode(recs[i as int]) == Some((rec.id@, rec.seq)));
                    assert(decoded_record(enr_decode(recs[i as int])) == rec@);
                }
                table.insert(rec, now);
            },
            None => {
                proof {
                    assert(records@[i as int]@ == recs[i as int]);
                    assert(enr_decode(recs[i as int]) is None);
                }
                return Err(InitError::InvalidBootstrapRecord { index: i });
            },
        }
    }
    Ok(table)
}

/// A successfully seeded table contains every identity that decodes from the
/// bootstrap list — seeding never drops a seed, it can only supersede an
/// earlier record of the same identity with a later one.
pub proof fn lemma_seed_contains_decoded(recs: Seq<Seq<char>>, now: u64, i: int, k: int)
    requires
        0 <= i < k <= recs.len(),
        enr_decode(recs[i]) is Some,
    ensures
        crate::peer_table::find_index(
            spec_seed(recs, now, k),
            decoded_record(enr_decode(recs[i])).id,
        ) >= 0,
    decreases k,
{
    let id = decoded_record(enr_decode(recs[i])).id;
    if k == i + 1 {
        crate::peer_table::lemma_insert_contains_inserted(
            spec_seed(recs, now, k - 1),
            decoded_record(enr_decode(recs[k - 1])),
            now,
        );
    } else {
        lemma_seed_contains_decoded(recs, now, i, k - 1);
        crate::peer_table::lemma_insert_preserves_presence(
            spec_seed(recs, now, k - 1),
            decoded_record(enr_decode(recs[k - 1])),
            now,
            id,
        );
    }
}

/// A finite batch of identities surfaced by one poll cycle; consumed exactly
/// once by the caller that polls it.
pub struct DiscoveredPeers {
    pub peers: Vec<PeerIdentity>,
}

/// What one scheduler invocation of the adapter yields: a drained batch, or
/// a signal that no event is pending. The adapter never blocks waiting.
pub enum PollOutcome {
    Ready(DiscoveredPeers),
    Pending,
}

/// The connection handler the adapter owns for discovery-originated
/// connections: an explicit no-op, kept to document that those connections
/// carry no application data — requests travel over separately negotiated
/// streams.
#[derive(Clone, Copy, PartialEq, Eq, Structural, Debug)]
pub enum ConnectionHandlerKind {
    NoOp,
}

/// Discovery Engine: the live peer table seeded from the bootstrap list of
/// the selected network, plus the queue of identities discovered since the
/// last poll. The surrounding event loop performs the socket work and hands
/// decoded records in through `record_discovered`.
pub struct Discovery {
    pub table: PeerTable,
    pub pending: Vec<PeerIdentity>,
}

impl Discovery {
    /// Initialization: seed the table from the network's compiled-in
    /// bootstrap list. A decode failure on any record is surfaced as a
    /// distinct initialization error, never a partial table.
    pub fn new(network: Network, now: u64) -> (r: Result<Discovery, InitError>)
        ensures
            ({
                let recs = spec_boot_records(network);
                match r {
                    Ok(d) => all_records_decode(recs) && d.table@ == spec_seed(
                        recs,
                        now,
                        recs.len() as int,
                    ) && d.table.wf() && d.pending@.len() == 0,
                    Err(e) => exists|i: int|
                        0 <= i < recs.len() && (#[trigger] enr_decode(recs[i])) is None && (forall|
                            j: int,
                        | 0 <= j < i ==> (#[trigger] enr_decode(recs[j])) is Some) && e == (
                        InitError::InvalidBootstrapRecord { index: i as usize }),
                }
            }),
    {
        let list = bootstrap_list(network);
        proof {
            assert(list@.map_values(|t: &str| t@) =~= spec_boot_records(network));
        }
        match seed_table(&list, now) {
            Ok(table) => Ok(Discovery { table, pending: Vec::new() }),
            Err(e) => Err(e),
        }
    }

    /// Ingest a record surfaced by the discovery protocol: update the table
    /// and queue the identity for the next poll batch.
    pub fn record_discovered(&mut self, rec: NodeRecord, now: u64)
        requires
            old(self).table.wf(),
        ensures
            final(self).table@ == spec_insert(old(self).table@, rec@, now),
            final(self).table.wf(),
            ids_of(final(self).pending@) == ids_of(old(self).pending@).push(rec@.id),
    {
        let id = PeerIdentity { bytes: clone_bytes(&rec.id.bytes) };
        self.pending.push(id);
        self.table.insert(rec, now);
        proof {
            assert(ids_of(final(self).pending@) =~= ids_of(old(self).pending@).push(rec@.id));
        }
    }

    /// Synchronous table read.
    pub fn lookup(&self, id: &PeerIdentity) -> (r: Option<NodeRecord>)
        ensures
            match r {
                Some(rec) => crate::peer_table::spec_lookup(self.table@, id@) == Some(rec@),
                None => crate::peer_table::spec_lookup(self.table@, id@) is None,
            },
    {
        self.table.lookup(id)
    }

    /// Swarm Adapter poll: drain all currently pending identities into one
    /// batch, or signal that no event is ready — without ever blocking. The
    /// two adapter states are visible in the outcome: *Draining* yields the
    /// batch, *Idle* yields `Pending`.
    pub fn poll(&mut self) -> (r: PollOutcome)
        ensures
            final(self).table@ == old(self).table@,
            final(self).pending@.len() == 0,
            match r {
                PollOutcome::Ready(batch) => old(self).pending@.len() > 0 && batch.peers@ == old(
                    self,
                ).pending@,
                PollOutcome::Pending => old(self).pending@.len() == 0,
            },
    {
        let mut drained: Vec<PeerIdentity> = Vec::new();
        core::mem::swap(&mut self.pending, &mut drained);
        if drained.len() == 0 {
            PollOutcome::Pending
        } else {
            PollOutcome::Ready(DiscoveredPeers { peers: drained })
        }
    }

    /// Connection-handler creation for discovery-originated connections:
    /// always the explicit no-op handler.
    pub fn new_handler(&mut self) -> (r: ConnectionHandlerKind)
        ensures
            r == ConnectionHandlerKind::NoOp,
            final(self).table@ == old(self).table@,
            final(self).pending@ == old(self).pending@,
    {
        ConnectionHandlerKind::NoOp
    }

    /// Connection events from the no-op handler carry no application data;
    /// the engine's state is untouched.
    pub fn inject_event(&mut self, _peer: &PeerIdentity, _event: ConnectionHandlerKind)
        ensures
            final(self).table@ == old(self).table@,
            final(self).pending@ == old(self).pending@,
    {
    }
}

} // verus!
