use vstd::prelude::*;

verus! {

/// Opaque, globally-unique peer identifier: the raw node-id bytes derived
/// from a peer's public key. Immutable once created; the key into the live
/// peer table.
pub struct PeerIdentity {
    pub bytes: Vec<u8>,
}

impl View for PeerIdentity {
    type V = Seq<u8>;

    open spec fn view(&self) -> Seq<u8> {
        self.bytes@
    }
}

/// Mathematical model of a node record: the identity it belongs to and its
/// monotonically increasing sequence number.
pub struct RecordModel {
    pub id: Seq<u8>,
    pub seq: u64,
}

/// A peer's signed, versioned record, reduced to what the retrieval core
/// reads of it: the identity derived from its public key and the sequence
/// number that decides which of two records for one identity is current.
pub struct NodeRecord {
    pub id: PeerIdentity,
    pub seq: u64,
}

impl View for NodeRecord {
    type V = RecordModel;

    open spec fn view(&self) -> RecordModel {
        RecordModel { id: self.id@, seq: self.seq }
    }
}

/// What decoding a textual node record yields: `None` where the text is not a
/// well-formed record, otherwise the node-id bytes and the sequence number of
/// the decoded record. The decoding itself (base64, RLP, signature check) is
/// performed by the discovery protocol crate and depends on the text alone.
pub uninterp spec fn enr_decode(s: Seq<char>) -> Option<(Seq<u8>, u64)>;

/// The record model a successful decode stands for.
pub open spec fn decoded_record(o: Option<(Seq<u8>, u64)>) -> RecordModel {
    match o {
        Some(t) => RecordModel { id: t.0, seq: t.1 },
        None => RecordModel { id: Seq::empty(), seq: 0 },
    }
}

/// Relies on `FromStr` for `discv5::Enr` (the `enr` crate's URL-safe-base64
/// record decoder, re-exported by discv5) and on `Enr::node_id` and
/// `Enr::seq` to read the decoded record: the outcome is a function of the
/// text alone.
#[verifier::external_body]
pub(crate) fn parse_node_record(s: &str) -> (r: Option<NodeRecord>)
    ensures
        match r {
            Some(rec) => enr_decode(s@) == Some((rec.id@, rec.seq)),
            None => enr_decode(s@) is None,
        },
{
    match s.parse::<discv5::Enr>() {
        Ok(e) => Some(
            NodeRecord { id: PeerIdentity { bytes: e.node_id().raw().to_vec() }, seq: e.seq() },
        ),
        Err(_) => None,
    }
}

/// Byte-for-byte copy of an identity's bytes.
pub fn clone_bytes(v: &Vec<u8>) -> (r: Vec<u8>)
    ensures
        r@ == v@,
{
    let mut r: Vec<u8> = Vec::new();
    let n = v.len();
    for i in 0..n
        invariant
            n == v@.len(),
            r@ =~= v@.subrange(0, i as int),
    {
        r.push(v[i]);
    }
    proof {
        assert(r@ =~= v@);
    }
    r
}

/// Copy of a node record (the record type itself carries no `Clone`).
pub fn clone_record(r: &NodeRecord) -> (c: NodeRecord)
    ensures
        c@ == r@,
{
    NodeRecord { id: PeerIdentity { bytes: clone_bytes(&r.id.bytes) }, seq: r.seq }
}

/// Identity equality, decided on the underlying bytes.
pub fn identity_eq(a: &PeerIdentity, b: &PeerIdentity) -> (r: bool)
    ensures
        r == (a@ == b@),
{
    if a.bytes.len() != b.bytes.len() {
        return false;
    }
    let n = a.bytes.len();
    for i in 0..n
        invariant
            n == a.bytes@.len(),
            n == b.bytes@.len(),
            forall|j: int| 0 <= j < i ==> a.bytes@[j] == b.bytes@[j],
    {
        if a.bytes[i] != b.bytes[i] {
            return false;
        }
    }
    proof {
        assert(a.bytes@ =~= b.bytes@);
    }
    true
}

} // verus!
