use vstd::prelude::*;

use crate::records::{clone_bytes, clone_record, identity_eq, NodeRecord, PeerIdentity, RecordModel};

verus! {

/// Mathematical model of one peer-table entry: the current record of the
/// identity, the last time the identity was seen, and whether it has been
/// marked stale by a timed-out request.
pub struct EntryModel {
    pub record: RecordModel,
    pub last_seen: u64,
    pub stale: bool,
}

/// One live entry of the peer table.
pub struct PeerEntry {
    pub record: NodeRecord,
    pub last_seen: u64,
    pub stale: bool,
}

impl View for PeerEntry {
    type V = EntryModel;

    open spec fn view(&self) -> EntryModel {
        EntryModel { record: self.record@, last_seen: self.last_seen, stale: self.stale }
    }
}

/// The live peer table: at most one current record per identity.
pub struct PeerTable {
    pub entries: Vec<PeerEntry>,
}

impl View for PeerTable {
    type V = Seq<EntryModel>;

    open spec fn view(&self) -> Seq<EntryModel> {
        self.entries@.map_values(|e: PeerEntry| e@)
    }
}

/// Well-formedness: identities are pairwise distinct, so every identity has
/// at most one current record.
pub open spec fn table_wf(s: Seq<EntryModel>) -> bool {
    forall|i: int, j: int| 0 <= i < j < s.len() ==> s[i].record.id != s[j].record.id
}

/// Index of the first entry for `id`, or -1 where none exists.
pub open spec fn find_index(s: Seq<EntryModel>, id: Seq<u8>) -> int
    decreases s.len(),
{
    if s.len() == 0 {
        -1
    } else if s[0].record.id == id {
        0
    } else {
        let r = find_index(s.drop_first(), id);
        if r < 0 {
            -1
        } else {
            r + 1
        }
    }
}

/// The current record of `id`, where the table holds one.
pub open spec fn spec_lookup(s: Seq<EntryModel>, id: Seq<u8>) -> Option<RecordModel> {
    if find_index(s, id) >= 0 {
        Some(s[find_index(s, id)].record)
    } else {
        None
    }
}

/// Effect of seeing a record: an unknown identity is appended; a known one
/// has its liveness refreshed, and its record replaced wholesale exactly
/// where the new sequence number is strictly higher.
pub open spec fn spec_insert(s: Seq<EntryModel>, r: RecordModel, now: u64) -> Seq<EntryModel> {
    let fi = find_index(s, r.id);
    if fi < 0 {
        s.push(EntryModel { record: r, last_seen: now, stale: false })
    } else if r.seq > s[fi].record.seq {
        s.update(fi, EntryModel { record: r, last_seen: now, stale: false })
    } else {
        s.update(fi, EntryModel { record: s[fi].record, last_seen: now, stale: false })
    }
}

/// Effect of marking `id` stale; a table without `id` is unchanged.
pub open spec fn spec_mark_stale(s: Seq<EntryModel>, id: Seq<u8>) -> Seq<EntryModel> {
    let fi = find_index(s, id);
    if fi < 0 {
        s
    } else {
        s.update(fi, EntryModel { record: s[fi].record, last_seen: s[fi].last_seen, stale: true })
    }
}

/// Candidate-selection preference: fresh entries before stale ones, and among
/// equally fresh entries the more recently seen one.
pub open spec fn prefers(a: EntryModel, b: EntryModel) -> bool {
    if a.stale != b.stale {
        !a.stale
    } else {
        a.last_seen >= b.last_seen
    }
}

/// The identities of a sequence of peers.
pub open spec fn ids_of(ps: Seq<PeerIdentity>) -> Seq<Seq<u8>> {
    ps.map_values(|p: PeerIdentity| p@)
}

/// Whether `ids` holds `id`.
pub open spec fn id_chosen(ids: Seq<Seq<u8>>, id: Seq<u8>) -> bool {
    exists|k: int| 0 <= k < ids.len() && ids[k] == id
}

/// What the per-call candidate set is: as many distinct table identities as
/// the fan-out allows, and every identity left out is preferred no better
/// than any identity chosen.
pub open spec fn candidates_selected(s: Seq<EntryModel>, ids: Seq<Seq<u8>>, fanout: int) -> bool {
    &&& ids.len() == if fanout <= s.len() {
        fanout as int
    } else {
        s.len() as int
    }
    &&& ids.no_duplicates()
    &&& forall|k: int| 0 <= k < ids.len() ==> find_index(s, #[trigger] ids[k]) >= 0
    &&& forall|k: int, j: int|
        0 <= k < ids.len() && 0 <= j < s.len() && !id_chosen(ids, (#[trigger] s[j]).record.id)
            ==> prefers(s[find_index(s, #[trigger] ids[k])], s[j])
}

pub proof fn lemma_find_index_props(s: Seq<EntryModel>, id: Seq<u8>)
    ensures
        -1 <= find_index(s, id) < s.len(),
        find_index(s, id) >= 0 ==> s[find_index(s, id)].record.id == id,
        find_index(s, id) >= 0 ==> forall|j: int|
            0 <= j < find_index(s, id) ==> s[j].record.id != id,
        find_index(s, id) == -1 ==> forall|i: int| 0 <= i < s.len() ==> s[i].record.id != id,
    decreases s.len(),
{
    if s.len() == 0 {
    } else if s[0].record.id == id {
    } else {
        lemma_find_index_props(s.drop_first(), id);
        let st = s.drop_first();
        assert(forall|i: int| 0 <= i < st.len() ==> st[i] == s[i + 1]);
        if find_index(s, id) >= 0 {
            assert forall|j: int| 0 <= j < find_index(s, id) implies s[j].record.id != id by {
                if j > 0 {
                    assert(st[j - 1].record.id != id);
                }
            }
        } else {
            assert forall|i: int| 0 <= i < s.len() implies s[i].record.id != id by {
                if i > 0 {
                    assert(st[i - 1].record.id != id);
                }
            }
        }
    }
}

/// `find_index` returns the first matching position.
pub proof fn lemma_find_index_at(s: Seq<EntryModel>, id: Seq<u8>, i: int)
    requires
        0 <= i < s.len(),
        s[i].record.id == id,
        forall|j: int| 0 <= j < i ==> s[j].record.id != id,
    ensures
        find_index(s, id) == i,
    decreases s.len(),
{
    if s[0].record.id == id {
    } else {
        assert(forall|j: int|
            0 <= j < s.drop_first().len() ==> s.drop_first()[j] == s[j + 1]);
        lemma_find_index_at(s.drop_first(), id, i - 1);
    }
}

/// Under well-formedness, each position is found by its own identity.
pub proof fn lemma_find_index_unique(s: Seq<EntryModel>, i: int)
    requires
        table_wf(s),
        0 <= i < s.len(),
    ensures
        find_index(s, s[i].record.id) == i,
{
    lemma_find_index_at(s, s[i].record.id, i);
}

impl PeerTable {
    pub open spec fn wf(self) -> bool {
        table_wf(self@)
    }

    /// A fresh, empty table.
    pub fn new() -> (r: PeerTable)
        ensures
            r@.len() == 0,
            r.wf(),
    {
        PeerTable { entries: Vec::new() }
    }

    /// Number of identities currently known.
    pub fn len(&self) -> (r: usize)
        ensures
            r == self@.len(),
    {
        self.entries.len()
    }

    /// Position of `id`'s entry, where the table holds one.
    fn find(&self, id: &PeerIdentity) -> (r: Option<usize>)
        ensures
            match r {
                Some(i) => 0 <= i < self@.len() && i == find_index(self@, id@),
                None => find_index(self@, id@) == -1,
            },
    {
        let ghost s = self@;
        let n = self.entries.len();
        for i in 0..n
            invariant
                n == s.len(),
                s == self@,
                forall|j: int| 0 <= j < i ==> s[j].record.id != id@,
        {
            if identity_eq(&self.entries[i].record.id, id) {
                proof {
                    assert(s[i as int] == self.entries@[i as int]@);
                    lemma_find_index_at(s, id@, i as int);
                }
                return Some(i);
            }
        }
        proof {
            lemma_find_index_props(s, id@);
            if find_index(s, id@) >= 0 {
                assert(s[find_index(s, id@)].record.id == id@);
            }
        }
        None
    }

    /// Synchronous table read: the current record of `id`.
    pub fn lookup(&self, id: &PeerIdentity) -> (r: Option<NodeRecord>)
        ensures
            match r {
                Some(rec) => spec_lookup(self@, id@) == Some(rec@),
                None => spec_lookup(self@, id@) is None,
            },
    {
        match self.find(id) {
            Some(i) => Some(clone_record(&self.entries[i].record)),
            None => None,
        }
    }

    /// Ingest a record: seed, discovery response, or liveness refresh.
    pub fn insert(&mut self, rec: NodeRecord, now: u64)
        requires
            old(self).wf(),
        ensures
            final(self)@ == spec_insert(old(self)@, rec@, now),
            final(self).wf(),
    {
        let ghost s = old(self)@;
        match self.find(&rec.id) {
            None => {
                proof {
                    lemma_find_index_props(s, rec@.id);
                }
                self.entries.push(PeerEntry { record: rec, last_seen: now, stale: false });
                proof {
                    assert(final(self)@ =~= spec_insert(s, rec@, now));
                    assert forall|i: int, j: int|
                        0 <= i < j < final(self)@.len() implies final(self)@[i].record.id
                        != final(self)@[j].record.id by {
                        if j == final(self)@.len() - 1 {
                            assert(final(self)@[i] == s[i]);
                        }
                    }
                }
            },
            Some(i) => {
                let replace = rec.seq > self.entries[i].record.seq;
                if replace {
                    self.entries.set(i, PeerEntry { record: rec, last_seen: now, stale: false });
                } else {
                    let kept = clone_record(&self.entries[i].record);
                    self.entries.set(i, PeerEntry { record: kept, last_seen: now, stale: false });
                }
                proof {
                    lemma_find_index_props(s, rec@.id);
                    assert(final(self)@ =~= spec_insert(s, rec@, now));
                    assert forall|a: int, b: int|
                        0 <= a < b < final(self)@.len() implies final(self)@[a].record.id
                        != final(self)@[b].record.id by {
                        assert(s[a].record.id != s[b].record.id);
                        assert(final(self)@[a].record.id == s[a].record.id);
                        assert(final(self)@[b].record.id == s[b].record.id);
                    }
                }
            },
        }
    }

    /// Mark `id` stale after a timed-out request; future selection then
    /// prefers every fresh identity over it.
    pub fn mark_stale(&mut self, id: &PeerIdentity)
        requires
            old(self).wf(),
        ensures
            final(self)@ == spec_mark_stale(old(self)@, id@),
            final(self).wf(),
    {
        let ghost s = old(self)@;
        match self.find(id) {
            None => {
                proof {
                    assert(final(self)@ =~= spec_mark_stale(s, id@));
                }
            },
            Some(i) => {
                let kept = clone_record(&self.entries[i].record);
                let seen = self.entries[i].last_seen;
                self.entries.set(i, PeerEntry { record: kept, last_seen: seen, stale: true });
                proof {
                    assert(final(self)@ =~= spec_mark_stale(s, id@));
                    assert forall|a: int, b: int|
                        0 <= a < b < final(self)@.len() implies final(self)@[a].record.id
                        != final(self)@[b].record.id by {
                        assert(s[a].record.id != s[b].record.id);
                        assert(final(self)@[a].record.id == s[a].record.id);
                        assert(final(self)@[b].record.id == s[b].record.id);
                    }
                }
            },
        }
    }
}

/// Whether the index sequence `sel` holds `j`.
pub open spec fn idx_chosen(sel: Seq<usize>, j: int) -> bool {
    exists|k: int| 0 <= k < sel.len() && sel[k] as int == j
}

/// A duplicate-free sequence of indices below `n` has at most `n` elements.
proof fn lemma_distinct_indices_le(sel: Seq<usize>, n: int)
    requires
        sel.no_duplicates(),
        forall|k: int| 0 <= k < sel.len() ==> (#[trigger] sel[k]) < n,
        0 <= n,
    ensures
        sel.len() <= n,
{
    let si = sel.map_values(|u: usize| u as int);
    assert(si.no_duplicates());
    si.unique_seq_to_set();
    assert(si.to_set().subset_of(vstd::set_lib::set_int_range(0, n))) by {
        assert forall|x: int| si.to_set().contains(x) implies vstd::set_lib::set_int_range(
            0,
            n,
        ).contains(x) by {
            let k = choose|k: int| 0 <= k < si.len() && si[k] == x;
            assert(sel[k] < n);
        }
    }
    vstd::set_lib::lemma_int_range(0, n);
    vstd::set_lib::lemma_len_subset(si.to_set(), vstd::set_lib::set_int_range(0, n));
}

/// A duplicate-free sequence of indices that covers all of `0..n` has
/// exactly `n` elements.
proof fn lemma_all_indices_chosen(sel: Seq<usize>, n: int)
    requires
        sel.no_duplicates(),
        forall|k: int| 0 <= k < sel.len() ==> (#[trigger] sel[k]) < n,
        forall|j: int| 0 <= j < n ==> idx_chosen(sel, j),
        0 <= n,
    ensures
        sel.len() == n,
{
    lemma_distinct_indices_le(sel, n);
    let si = sel.map_values(|u: usize| u as int);
    assert(si.no_duplicates());
    si.unique_seq_to_set();
    assert(vstd::set_lib::set_int_range(0, n).subset_of(si.to_set())) by {
        assert forall|x: int| vstd::set_lib::set_int_range(0, n).contains(x) implies si.to_set()
            .contains(x) by {
            assert(idx_chosen(sel, x));
            let k = choose|k: int| 0 <= k < sel.len() && sel[k] as int == x;
            assert(si[k] == x);
        }
    }
    vstd::set_lib::lemma_int_range(0, n);
    vstd::set_lib::lemma_len_subset(vstd::set_lib::set_int_range(0, n), si.to_set());
}

/// Membership test for the working index set of the selection loop.
fn contains_index(sel: &Vec<usize>, i: usize) -> (r: bool)
    ensures
        r == idx_chosen(sel@, i as int),
{
    let n = sel.len();
    for k in 0..n
        invariant
            n == sel@.len(),
            forall|t: int| 0 <= t < k ==> (#[trigger] sel@[t]) != i,
    {
        if sel[k] == i {
            return true;
        }
    }
    false
}

impl PeerTable {
    /// Select the per-call candidate set: up to `fanout` distinct identities,
    /// preferring fresh (non-stale) entries and, among those, the most
    /// recently seen. Returns fewer than `fanout` identities only where the
    /// whole table is smaller than the fan-out.
    pub fn select_candidates(&self, fanout: usize) -> (r: Vec<PeerIdentity>)
        requires
            self.wf(),
        ensures
            candidates_selected(self@, ids_of(r@), fanout as int),
    {
        let ghost s = self@;
        let n = self.entries.len();
        let mut sel: Vec<usize> = Vec::new();
        loop
            invariant
                n == s.len(),
                s == self@,
                self.wf(),
                sel@.len() <= fanout,
                sel@.no_duplicates(),
                forall|k: int| 0 <= k < sel@.len() ==> (#[trigger] sel@[k]) < n,
                forall|k: int, j: int|
                    #![trigger sel@[k], s[j]]
                    0 <= k < sel@.len() && 0 <= j < n && !idx_chosen(sel@, j) ==> prefers(
                        s[sel@[k] as int],
                        s[j],
                    ),
            ensures
                sel@.len() <= fanout,
                sel@.no_duplicates(),
                forall|k: int| 0 <= k < sel@.len() ==> (#[trigger] sel@[k]) < n,
                forall|k: int, j: int|
                    #![trigger sel@[k], s[j]]
                    0 <= k < sel@.len() && 0 <= j < n && !idx_chosen(sel@, j) ==> prefers(
                        s[sel@[k] as int],
                        s[j],
                    ),
                sel@.len() < fanout ==> forall|j: int| 0 <= j < n ==> idx_chosen(sel@, j),
            decreases fanout - sel.len(),
        {
            if sel.len() >= fanout {
                break ;
            }
            let mut best: Option<usize> = None;
            let mut i: usize = 0;
            while i < n
                invariant
                    i <= n,
                    n == s.len(),
                    s == self@,
                    n == self.entries.len(),
                    forall|k: int| 0 <= k < sel@.len() ==> (#[trigger] sel@[k]) < n,
                    match best {
                        Some(b) => b < n && !idx_chosen(sel@, b as int) && forall|j: int|
                            0 <= j < i && !idx_chosen(sel@, j) ==> prefers(
                                s[b as int],
                                #[trigger] s[j],
                            ),
                        None => forall|j: int| 0 <= j < i ==> idx_chosen(sel@, j),
                    },
                decreases n - i,
            {
                if !contains_index(&sel, i) {
                    match best {
                        None => { best = Some(i) },
                        Some(b) => {
                            let better = if self.entries[i].stale != self.entries[b].stale {
                                !self.entries[i].stale
                            } else {
                                self.entries[i].last_seen > self.entries[b].last_seen
                            };
                            proof {
                                assert(s[i as int] == self.entries@[i as int]@);
                                assert(s[b as int] == self.entries@[b as int]@);
                            }
                            if better {
                                best = Some(i);
                            }
                        },
                    }
                }
                i = i + 1;
            }
            match best {
                None => {
                    proof {
                        lemma_all_indices_chosen(sel@, n as int);
                    }
                    break ;
                },
                Some(b) => {
                    proof {
                        assert forall|k: int, j: int|
                            #![trigger sel@.push(b)[k], s[j]]
                            0 <= k < sel@.push(b).len() && 0 <= j < n && !idx_chosen(
                                sel@.push(b),
                                j,
                            ) implies prefers(s[sel@.push(b)[k] as int], s[j]) by {
                            assert(!idx_chosen(sel@, j)) by {
                                if idx_chosen(sel@, j) {
                                    let t = choose|t: int|
                                        0 <= t < sel@.len() && sel@[t] as int == j;
                                    assert(sel@.push(b)[t] as int == j);
                                }
                            }
                            if k < sel@.len() {
                                assert(sel@.push(b)[k] == sel@[k]);
                            } else {
                                assert(sel@.push(b)[k] == b);
                            }
                        }
                        assert forall|t: int| 0 <= t < sel@.len() implies sel@[t] != b by {
                            if sel@[t] == b {
                                assert(idx_chosen(sel@, b as int));
                            }
                        }
                    }
                    sel.push(b);
                },
            }
        }
        proof {
            lemma_distinct_indices_le(sel@, n as int);
            if sel@.len() < fanout {
                assert(forall|j: int| 0 <= j < n ==> idx_chosen(sel@, j));
                lemma_all_indices_chosen(sel@, n as int);
            }
        }
        let m = sel.len();
        let mut out: Vec<PeerIdentity> = Vec::new();
        for k in 0..m
            invariant
                m == sel@.len(),
                n == s.len(),
                s == self@,
                n == self.entries.len(),
                forall|t: int| 0 <= t < m ==> (#[trigger] sel@[t]) < n,
                out@.len() == k,
                forall|t: int| 0 <= t < k ==> (#[trigger] out@[t])@ == s[sel@[t] as int].record.id,
        {
            let idx = sel[k];
            proof {
                assert(s[idx as int] == self.entries@[idx as int]@);
            }
            out.push(PeerIdentity { bytes: clone_bytes(&self.entries[idx].record.id.bytes) });
        }
        proof {
            let ids = ids_of(out@);
            assert(ids.len() == sel@.len());
            assert(forall|t: int| 0 <= t < ids.len() ==> #[trigger] ids[t] == out@[t]@);
            assert forall|k1: int, k2: int|
                0 <= k1 < k2 < ids.len() implies ids[k1] != ids[k2] by {
                let i1 = sel@[k1] as int;
                let i2 = sel@[k2] as int;
                assert(sel@[k1] != sel@[k2]);
                assert(s[i1].record.id != s[i2].record.id) by {
                    if i1 < i2 {
                        assert(table_wf(s));
                    } else {
                        assert(table_wf(s));
                        assert(s[i2].record.id != s[i1].record.id);
                    }
                }
            }
            assert(ids.no_duplicates()) by {
                assert forall|k1: int, k2: int|
                    0 <= k1 < ids.len() && 0 <= k2 < ids.len() && k1 != k2 implies ids[k1]
                    != ids[k2] by {
                    if k1 < k2 {
                    } else {
                        assert(ids[k2] != ids[k1]);
                    }
                }
            }
            assert forall|k: int| 0 <= k < ids.len() implies find_index(s, #[trigger] ids[k])
                >= 0 by {
                lemma_find_index_unique(s, sel@[k] as int);
            }
            assert forall|k: int, j: int|
                0 <= k < ids.len() && 0 <= j < s.len() && !id_chosen(
                    ids,
                    (#[trigger] s[j]).record.id,
                ) implies prefers(s[find_index(s, #[trigger] ids[k])], s[j]) by {
                lemma_find_index_unique(s, sel@[k] as int);
                assert(find_index(s, ids[k]) == sel@[k] as int);
                assert(!idx_chosen(sel@, j)) by {
                    if idx_chosen(sel@, j) {
                        let t = choose|t: int| 0 <= t < sel@.len() && sel@[t] as int == j;
                        assert(ids[t] == s[j].record.id);
                        assert(id_chosen(ids, s[j].record.id));
                    }
                }
            }
        }
        out
    }
}

/// Ingesting a record never drops an identity that the table already holds.
pub proof fn lemma_insert_preserves_presence(
    s: Seq<EntryModel>,
    r: RecordModel,
    now: u64,
    id: Seq<u8>,
)
    requires
        find_index(s, id) >= 0,
    ensures
        find_index(spec_insert(s, r, now), id) >= 0,
{
    let s2 = spec_insert(s, r, now);
    lemma_find_index_props(s, id);
    lemma_find_index_props(s, r.id);
    let fi = find_index(s, id);
    assert(s2[fi].record.id == id);
    assert(forall|j: int| 0 <= j < fi ==> s2[j].record.id == s[j].record.id);
    lemma_find_index_at(s2, id, fi);
}

/// The identity of an ingested record is always present afterwards.
pub proof fn lemma_insert_contains_inserted(s: Seq<EntryModel>, r: RecordModel, now: u64)
    ensures
        find_index(spec_insert(s, r, now), r.id) >= 0,
{
    let s2 = spec_insert(s, r, now);
    lemma_find_index_props(s, r.id);
    lemma_find_index_props(s2, r.id);
    if find_index(s, r.id) < 0 {
        assert(s2[s.len() as int].record.id == r.id);
    } else {
        assert(s2[find_index(s, r.id)].record.id == r.id);
    }
}

/// Reads do not change the table: two lookups of one table state agree, so
/// repeated lookups between discovery events return the same record.
pub proof fn lemma_lookup_idempotent(t1: PeerTable, t2: PeerTable, id: Seq<u8>)
    requires
        t1@ == t2@,
    ensures
        spec_lookup(t1@, id) == spec_lookup(t2@, id),
{
}

/// A record with a strictly higher sequence number supersedes the prior
/// record of its identity wholesale: the next lookup returns the new record
/// in full, never a mixture of old and new fields. A record whose sequence
/// number is not higher leaves the current record in place.
pub proof fn lemma_insert_supersedes(s: Seq<EntryModel>, r: RecordModel, now: u64)
    requires
        table_wf(s),
    ensures
        spec_lookup(spec_insert(s, r, now), r.id) == (if find_index(s, r.id) >= 0 && r.seq <= s[
            find_index(s, r.id)
        ].record.seq {
            spec_lookup(s, r.id)
        } else {
            Some(r)
        }),
{
    let s2 = spec_insert(s, r, now);
    lemma_find_index_props(s, r.id);
    let fi = find_index(s, r.id);
    if fi < 0 {
        lemma_find_index_at(s2, r.id, s.len() as int);
    } else {
        lemma_find_index_at(s2, r.id, fi);
    }
}

} // verus!
