//! The node coordinate store: three interchangeable backends behind one
//! writer/reader pair.
//!
//! A store is written once by a single producer, frozen by `finalize`, and
//! then read many times.  Coordinates are fixed-point (degrees times ten
//! million, see `crate::fixed`).  The model of every backend is a map from
//! node id to the last `(lon, lat)` pair written for it.
//!
//! * **Sparse** keeps the sixteen-byte entries of its on-disk form in a byte
//!   buffer, requires ids to arrive in non-decreasing order, and serves reads
//!   by binary search.
//! * **Dense** indexes a slot table directly by id, bounded by `max_nodes`;
//!   an unwritten slot reads as `(0, 0)`.
//! * **Memory** is a plain hash map.

use vstd::prelude::*;
use vstd::bytes::*;
use std::collections::HashMap;

use crate::CosmoError;
use crate::fixed::{spec_unpack_lon, spec_unpack_lat, pack_coords, unpack_coords,
    spec_sparse_entry_bytes, write_sparse_entry, lemma_pack_unpack_roundtrip};

verus! {

broadcast use vstd::std_specs::hash::group_hash_axioms;

// ---------------------------------------------------------------------------
// Memory backend
// ---------------------------------------------------------------------------

/// In-memory hash-map backend: unbounded, no order requirement.
#[derive(Clone)]
pub struct MemoryNodeStore {
    nodes: HashMap<u64, (i32, i32)>,
}

impl MemoryNodeStore {
    /// The id-to-coordinate map this store holds.
    pub closed spec fn contents(&self) -> Map<u64, (i32, i32)> {
        self.nodes@
    }

    pub fn new() -> (r: Self)
        ensures
            r.contents() == Map::<u64, (i32, i32)>::empty(),
    {
        MemoryNodeStore { nodes: HashMap::new() }
    }

    /// Record `(lon, lat)` for `id`; a later write for the same id wins.
    pub fn put(&mut self, id: u64, lat: i32, lon: i32)
        ensures
            final(self).contents() == old(self).contents().insert(id, (lon, lat)),
    {
        self.nodes.insert(id, (lon, lat));
    }

    /// Look `id` up: the last pair written for it, or `None`.
    pub fn get(&self, id: u64) -> (r: Option<(i32, i32)>)
        ensures
            r == if self.contents().contains_key(id) {
                Some(self.contents()[id])
            } else {
                None::<(i32, i32)>
            },
    {
        match self.nodes.get(&id) {
            Some(pair) => Some(*pair),
            None => None,
        }
    }
}

// ---------------------------------------------------------------------------
// Dense backend
// ---------------------------------------------------------------------------

/// Direct-indexed backend: one slot per id below `max_nodes`.
pub struct DenseNodeStoreWriter {
    slots: Vec<(i32, i32)>,
    max_nodes: u64,
    written: Ghost<Map<u64, (i32, i32)>>,
}

/// The frozen form of the dense backend.
pub struct DenseNodeStoreReader {
    slots: Vec<(i32, i32)>,
    max_nodes: u64,
    written: Ghost<Map<u64, (i32, i32)>>,
}

/// The slot table matches the written map: a written id holds its pair, an
/// unwritten slot holds `(0, 0)`, and nothing at or above the capacity was
/// written.
pub(crate) open spec fn dense_inv(
    slots: Seq<(i32, i32)>,
    max_nodes: u64,
    written: Map<u64, (i32, i32)>,
) -> bool {
    &&& slots.len() == max_nodes
    &&& forall|id: u64| written.contains_key(id) ==> id < max_nodes
    &&& forall|i: int|
        0 <= i < slots.len() ==> slots[i] == (if written.contains_key(i as u64) {
            written[i as u64]
        } else {
            (0i32, 0i32)
        })
}

impl DenseNodeStoreWriter {
    /// The id-to-coordinate map this store holds.
    pub closed spec fn contents(&self) -> Map<u64, (i32, i32)> {
        self.written@
    }

    /// The capacity the store was created with.
    pub closed spec fn spec_max_nodes(&self) -> u64 {
        self.max_nodes
    }

    pub closed spec fn wf(&self) -> bool {
        dense_inv(self.slots@, self.max_nodes, self.written@)
    }

    /// A fresh dense store of `max_nodes` empty slots.
    pub fn new(max_nodes: u64) -> (r: Self)
        requires
            max_nodes <= usize::MAX,
        ensures
            r.wf(),
            r.contents() == Map::<u64, (i32, i32)>::empty(),
            r.spec_max_nodes() == max_nodes,
    {
        let mut slots: Vec<(i32, i32)> = Vec::new();
        let mut i: u64 = 0;
        while i < max_nodes
            invariant
                i <= max_nodes,
                slots@.len() == i,
                forall|j: int| 0 <= j < i ==> slots@[j] == (0i32, 0i32),
            decreases max_nodes - i,
        {
            slots.push((0i32, 0i32));
            i = i + 1;
        }
        DenseNodeStoreWriter { slots, max_nodes, written: Ghost(Map::empty()) }
    }

    /// Record `(lon, lat)` for `id`.  Fails exactly when `id` is at or above
    /// the capacity; the store is unchanged then.
    pub fn put(&mut self, id: u64, lat: i32, lon: i32) -> (r: Result<(), CosmoError>)
        requires
            old(self).wf(),
        ensures
            final(self).wf(),
            final(self).spec_max_nodes() == old(self).spec_max_nodes(),
            r is Err <==> id >= old(self).spec_max_nodes(),
            r matches Err(e) ==> e == (CosmoError::OverCapacity {
                id,
                max_nodes: old(self).spec_max_nodes(),
            }),
            r is Ok ==> final(self).contents() == old(self).contents().insert(id, (lon, lat)),
            r is Err ==> final(self).contents() == old(self).contents(),
    {
        if id >= self.max_nodes {
            return Err(CosmoError::OverCapacity { id, max_nodes: self.max_nodes });
        }
        let n = self.slots.len();
        assert(id < n as u64);
        let idx = id as usize;
        self.slots[idx] = (lon, lat);
        proof {
            self.written@ = self.written@.insert(id, (lon, lat));
            assert forall|i: int| 0 <= i < self.slots@.len() implies self.slots@[i] == (
            if self.written@.contains_key(i as u64) {
                self.written@[i as u64]
            } else {
                (0i32, 0i32)
            }) by {
                if i != id as int {
                    assert(i as u64 != id);
                }
            }
        }
        Ok(())
    }

    /// Freeze the store.  Dense finalize always succeeds.
    pub fn finalize(self) -> (r: DenseNodeStoreReader)
        requires
            self.wf(),
        ensures
            r.wf(),
            r.contents() == self.contents(),
            r.spec_max_nodes() == self.spec_max_nodes(),
    {
        DenseNodeStoreReader { slots: self.slots, max_nodes: self.max_nodes, written: self.written }
    }
}

/// What a dense read returns: `None` at or above the capacity, the written
/// pair below it, and `(0, 0)` for an unwritten slot below it.
pub open spec fn spec_dense_get(
    contents: Map<u64, (i32, i32)>,
    max_nodes: u64,
    id: u64,
) -> Option<(i32, i32)> {
    if id >= max_nodes {
        None
    } else if contents.contains_key(id) {
        Some(contents[id])
    } else {
        Some((0i32, 0i32))
    }
}

impl DenseNodeStoreReader {
    /// The id-to-coordinate map this store holds.
    pub closed spec fn contents(&self) -> Map<u64, (i32, i32)> {
        self.written@
    }

    /// The capacity the store was created with.
    pub closed spec fn spec_max_nodes(&self) -> u64 {
        self.max_nodes
    }

    pub closed spec fn wf(&self) -> bool {
        dense_inv(self.slots@, self.max_nodes, self.written@)
    }

    /// Look `id` up.  Returns `None` exactly when `id` is at or above the
    /// capacity; otherwise some pair, `(0, 0)` where nothing was written.
    pub fn get(&self, id: u64) -> (r: Option<(i32, i32)>)
        requires
            self.wf(),
        ensures
            r == spec_dense_get(self.contents(), self.spec_max_nodes(), id),
    {
        if id >= self.max_nodes {
            return None;
        }
        let n = self.slots.len();
        assert(id < n as u64);
        Some(self.slots[id as usize])
    }
}


// ---------------------------------------------------------------------------
// Sparse backend
// ---------------------------------------------------------------------------

/// The byte image of a sequence of sparse entries, sixteen bytes each.
pub open spec fn spec_entries_bytes(s: Seq<(u64, i64)>) -> Seq<u8>
    decreases s.len(),
{
    if s.len() == 0 {
        Seq::empty()
    } else {
        spec_entries_bytes(s.drop_last()) + spec_sparse_entry_bytes(s.last().0, s.last().1)
    }
}

/// Entry ids in non-decreasing order.
pub open spec fn entries_sorted(s: Seq<(u64, i64)>) -> bool {
    forall|i: int, j: int| 0 <= i < j < s.len() ==> s[i].0 <= s[j].0
}

/// The map a sequence of entries denotes: the last entry for an id wins.
pub open spec fn spec_entries_map(s: Seq<(u64, i64)>) -> Map<u64, (i32, i32)>
    decreases s.len(),
{
    if s.len() == 0 {
        Map::empty()
    } else {
        spec_entries_map(s.drop_last()).insert(
            s.last().0,
            (spec_unpack_lon(s.last().1), spec_unpack_lat(s.last().1)),
        )
    }
}

proof fn lemma_entries_bytes_len(s: Seq<(u64, i64)>)
    ensures
        spec_entries_bytes(s).len() == 16 * s.len(),
    decreases s.len(),
{
    lemma_auto_spec_u64_to_from_le_bytes();
    if s.len() > 0 {
        lemma_entries_bytes_len(s.drop_last());
    }
}

proof fn lemma_entries_bytes_index(s: Seq<(u64, i64)>, i: int)
    requires
        0 <= i < s.len(),
    ensures
        spec_entries_bytes(s).subrange(16 * i, 16 * i + 16) == spec_sparse_entry_bytes(
            s[i].0,
            s[i].1,
        ),
    decreases s.len(),
{
    lemma_auto_spec_u64_to_from_le_bytes();
    lemma_entries_bytes_len(s);
    lemma_entries_bytes_len(s.drop_last());
    if i == s.len() - 1 {
        assert(spec_entries_bytes(s).subrange(16 * i, 16 * i + 16) =~= spec_sparse_entry_bytes(
            s.last().0,
            s.last().1,
        ));
    } else {
        lemma_entries_bytes_index(s.drop_last(), i);
        assert(spec_entries_bytes(s).subrange(16 * i, 16 * i + 16) =~= spec_entries_bytes(
            s.drop_last(),
        ).subrange(16 * i, 16 * i + 16));
    }
}

proof fn lemma_entries_map_contains(s: Seq<(u64, i64)>, id: u64)
    ensures
        spec_entries_map(s).contains_key(id) <==> exists|j: int| 0 <= j < s.len() && s[j].0 == id,
    decreases s.len(),
{
    if s.len() > 0 {
        lemma_entries_map_contains(s.drop_last(), id);
        if s.last().0 == id {
            assert(s[s.len() - 1].0 == id);
        } else {
            if spec_entries_map(s).contains_key(id) {
                let j = choose|j: int| 0 <= j < s.len() - 1 && s.drop_last()[j].0 == id;
                assert(s[j].0 == id);
            }
            if exists|j: int| 0 <= j < s.len() && s[j].0 == id {
                let j = choose|j: int| 0 <= j < s.len() && s[j].0 == id;
                assert(j < s.len() - 1 && s.drop_last()[j].0 == id);
            }
        }
    }
}

proof fn lemma_entries_map_last(s: Seq<(u64, i64)>, i: int)
    requires
        0 <= i < s.len(),
        forall|j: int| i < j < s.len() ==> s[j].0 != s[i].0,
    ensures
        spec_entries_map(s).contains_key(s[i].0),
        spec_entries_map(s)[s[i].0] == (spec_unpack_lon(s[i].1), spec_unpack_lat(s[i].1)),
    decreases s.len(),
{
    if i == s.len() - 1 {
    } else {
        lemma_entries_map_last(s.drop_last(), i);
        assert(s.drop_last()[i] == s[i]);
        assert(s.last().0 != s[i].0);
    }
}

/// Whether the sparse store accepts `id` after `last_id`: ids must be
/// non-decreasing.
pub open spec fn sparse_accepts(last_id: Option<u64>, id: u64) -> bool {
    match last_id {
        None => true,
        Some(l) => id >= l,
    }
}

/// Sorted-array backend: appends the sixteen-byte form of each entry to a
/// buffer and requires ids to arrive in non-decreasing order.
pub struct SparseNodeStoreWriter {
    buf: Vec<u8>,
    last_id: Option<u64>,
    is_sorted: bool,
    entries: Ghost<Seq<(u64, i64)>>,
}

/// The frozen form of the sparse backend, read by binary search.
pub struct SparseNodeStoreReader {
    data: Vec<u8>,
    entries: Ghost<Seq<(u64, i64)>>,
}

impl SparseNodeStoreWriter {
    /// The id-to-coordinate map this store holds.
    pub closed spec fn contents(&self) -> Map<u64, (i32, i32)> {
        spec_entries_map(self.entries@)
    }

    /// The id of the last accepted entry.
    pub closed spec fn spec_last_id(&self) -> Option<u64> {
        self.last_id
    }

    /// False as soon as one `put` has been rejected for an out-of-order id.
    pub closed spec fn ok_so_far(&self) -> bool {
        self.is_sorted
    }

    pub closed spec fn wf(&self) -> bool {
        &&& self.buf@ == spec_entries_bytes(self.entries@)
        &&& entries_sorted(self.entries@)
        &&& match self.last_id {
            None => self.entries@.len() == 0,
            Some(l) => self.entries@.len() > 0 && self.entries@.last().0 == l,
        }
    }

    pub fn new() -> (r: Self)
        ensures
            r.wf(),
            r.contents() == Map::<u64, (i32, i32)>::empty(),
            r.spec_last_id() is None,
            r.ok_so_far(),
    {
        SparseNodeStoreWriter {
            buf: Vec::new(),
            last_id: None,
            is_sorted: true,
            entries: Ghost(Seq::empty()),
        }
    }

    /// Record `(lon, lat)` for `id`.  Fails exactly when `id` is smaller
    /// than the previous id; the failure is remembered and `finalize` will
    /// then fail too.
    pub fn put(&mut self, id: u64, lat: i32, lon: i32) -> (r: Result<(), CosmoError>)
        requires
            old(self).wf(),
        ensures
            final(self).wf(),
            r is Err <==> !sparse_accepts(old(self).spec_last_id(), id),
            r matches Err(e) ==> e is UnsortedIds,
            r is Ok ==> final(self).contents() == old(self).contents().insert(id, (lon, lat))
                && final(self).spec_last_id() == Some(id),
            r is Err ==> final(self).contents() == old(self).contents()
                && final(self).spec_last_id() == old(self).spec_last_id(),
            final(self).ok_so_far() == (old(self).ok_so_far() && r is Ok),
    {
        if let Some(l) = self.last_id {
            if id < l {
                self.is_sorted = false;
                return Err(CosmoError::UnsortedIds);
            }
        }
        let packed = pack_coords(lat, lon);
        write_sparse_entry(&mut self.buf, id, packed);
        self.last_id = Some(id);
        proof {
            let prev = self.entries@;
            self.entries@ = self.entries@.push((id, packed));
            assert(self.entries@.drop_last() =~= prev);
            lemma_pack_unpack_roundtrip(lat, lon);
        }
        Ok(())
    }

    /// Freeze the store.  Fails exactly when some `put` was rejected for an
    /// out-of-order id.
    pub fn finalize(self) -> (r: Result<SparseNodeStoreReader, CosmoError>)
        requires
            self.wf(),
        ensures
            r is Ok <==> self.ok_so_far(),
            r matches Err(e) ==> e is UnsortedIds,
            r matches Ok(rd) ==> rd.wf() && rd.contents() == self.contents(),
    {
        if !self.is_sorted {
            return Err(CosmoError::UnsortedIds);
        }
        Ok(SparseNodeStoreReader { data: self.buf, entries: self.entries })
    }
}

impl SparseNodeStoreReader {
    /// The id-to-coordinate map this store holds.
    pub closed spec fn contents(&self) -> Map<u64, (i32, i32)> {
        spec_entries_map(self.entries@)
    }

    pub closed spec fn wf(&self) -> bool {
        &&& self.data@ == spec_entries_bytes(self.entries@)
        &&& entries_sorted(self.entries@)
    }

    /// The id of the entry at index `i`.
    fn entry_id(&self, i: usize) -> (r: u64)
        requires
            self.wf(),
            i < self.entries@.len(),
        ensures
            r == self.entries@[i as int].0,
    {
        proof {
            lemma_entries_bytes_len(self.entries@);
            lemma_entries_bytes_index(self.entries@, i as int);
            lemma_auto_spec_u64_to_from_le_bytes();
        }
        let dlen = self.data.len();
        assert(16 * (i as int) + 16 <= dlen as int);
        let off = i * 16;
        let s = vstd::slice::slice_subrange(self.data.as_slice(), off, off + 8);
        proof {
            assert(s@ =~= spec_entries_bytes(self.entries@).subrange(
                16 * i as int,
                16 * i as int + 16,
            ).subrange(0, 8));
            assert(s@ =~= spec_u64_to_le_bytes(self.entries@[i as int].0));
        }
        u64_from_le_bytes(s)
    }

    /// The packed coordinates of the entry at index `i`.
    fn entry_packed(&self, i: usize) -> (r: i64)
        requires
            self.wf(),
            i < self.entries@.len(),
        ensures
            r == self.entries@[i as int].1,
    {
        proof {
            lemma_entries_bytes_len(self.entries@);
            lemma_entries_bytes_index(self.entries@, i as int);
            lemma_auto_spec_u64_to_from_le_bytes();
        }
        let dlen = self.data.len();
        assert(16 * (i as int) + 16 <= dlen as int);
        let off = i * 16;
        let s = vstd::slice::slice_subrange(self.data.as_slice(), off + 8, off + 16);
        proof {
            assert(s@ =~= spec_entries_bytes(self.entries@).subrange(
                16 * i as int,
                16 * i as int + 16,
            ).subrange(8, 16));
            assert(s@ =~= spec_u64_to_le_bytes(self.entries@[i as int].1 as u64));
        }
        let bits = u64_from_le_bytes(s);
        proof {
            let p = self.entries@[i as int].1;
            assert((p as u64) as i64 == p) by (bit_vector);
        }
        bits as i64
    }

    /// Look `id` up by binary search: the last entry for `id`, or `None` if
    /// no entry carries it.
    pub fn get(&self, id: u64) -> (r: Option<(i32, i32)>)
        requires
            self.wf(),
        ensures
            r == if self.contents().contains_key(id) {
                Some(self.contents()[id])
            } else {
                None::<(i32, i32)>
            },
    {
        proof {
            lemma_entries_bytes_len(self.entries@);
            lemma_entries_map_contains(self.entries@, id);
        }
        let count = self.data.len() / 16;
        let mut low: usize = 0;
        let mut high: usize = count;
        while low < high
            invariant
                self.wf(),
                count == self.entries@.len(),
                low <= high <= count,
                forall|k: int| 0 <= k < low ==> self.entries@[k].0 <= id,
                forall|k: int| high <= k < count ==> self.entries@[k].0 > id,
            decreases high - low,
        {
            let mid = low + (high - low) / 2;
            let mid_id = self.entry_id(mid);
            if mid_id <= id {
                low = mid + 1;
            } else {
                high = mid;
            }
        }
        if low == 0 {
            proof {
                assert forall|j: int| 0 <= j < self.entries@.len() implies self.entries@[j].0
                    != id by {
                    assert(self.entries@[j].0 > id);
                }
            }
            return None;
        }
        let idx = low - 1;
        let found = self.entry_id(idx);
        if found == id {
            let packed = self.entry_packed(idx);
            proof {
                assert forall|j: int| idx < j < self.entries@.len() implies self.entries@[j].0
                    != self.entries@[idx as int].0 by {
                    assert(self.entries@[j].0 > id);
                }
                lemma_entries_map_last(self.entries@, idx as int);
            }
            let pair = unpack_coords(packed);
            Some(pair)
        } else {
            proof {
                assert forall|j: int| 0 <= j < self.entries@.len() implies self.entries@[j].0
                    != id by {
                    if j < idx as int {
                        assert(self.entries@[j].0 <= self.entries@[idx as int].0);
                    } else if j == idx as int {
                    } else {
                        assert(self.entries@[j].0 > id);
                    }
                }
            }
            None
        }
    }
}


// ---------------------------------------------------------------------------
// Facade
// ---------------------------------------------------------------------------

/// The backend a writer dispatches to.
pub enum NodeStoreWriterImpl {
    Sparse(SparseNodeStoreWriter),
    Dense(DenseNodeStoreWriter),
    Memory(MemoryNodeStore),
}

/// The backend a reader dispatches to.
pub enum NodeStoreReaderImpl {
    Sparse(SparseNodeStoreReader),
    Dense(DenseNodeStoreReader),
    Memory(MemoryNodeStore),
}

/// One write interface over the three backends.
pub struct NodeStoreWriter {
    pub inner: NodeStoreWriterImpl,
}

/// One read interface over the three backends.
pub struct NodeStoreReader {
    pub inner: NodeStoreReaderImpl,
}

/// A map lookup, the read model of the sparse and memory backends.
pub open spec fn spec_map_get(m: Map<u64, (i32, i32)>, id: u64) -> Option<(i32, i32)> {
    if m.contains_key(id) {
        Some(m[id])
    } else {
        None
    }
}

/// How one facade `put` changes the backend-specific state: the backend kind
/// never changes, an accepted sparse put advances the last id, a rejected one
/// clears the sorted flag, and the dense capacity is constant.
pub open spec fn put_evolution(
    pre: NodeStoreWriter,
    post: NodeStoreWriter,
    id: u64,
    ok: bool,
) -> bool {
    match (pre.inner, post.inner) {
        (NodeStoreWriterImpl::Sparse(a), NodeStoreWriterImpl::Sparse(b)) => {
            &&& b.spec_last_id() == (if ok {
                Some(id)
            } else {
                a.spec_last_id()
            })
            &&& b.ok_so_far() == (a.ok_so_far() && ok)
        },
        (NodeStoreWriterImpl::Dense(a), NodeStoreWriterImpl::Dense(b)) => b.spec_max_nodes()
            == a.spec_max_nodes(),
        (NodeStoreWriterImpl::Memory(_), NodeStoreWriterImpl::Memory(_)) => true,
        _ => false,
    }
}

/// Which reader backend a writer backend freezes into.
pub open spec fn finalize_matches(w: NodeStoreWriter, r: NodeStoreReader) -> bool {
    match (w.inner, r.inner) {
        (NodeStoreWriterImpl::Sparse(_), NodeStoreReaderImpl::Sparse(_)) => true,
        (NodeStoreWriterImpl::Dense(a), NodeStoreReaderImpl::Dense(b)) => b.spec_max_nodes()
            == a.spec_max_nodes(),
        (NodeStoreWriterImpl::Memory(_), NodeStoreReaderImpl::Memory(_)) => true,
        _ => false,
    }
}

impl NodeStoreWriter {
    /// The id-to-coordinate map this store holds.
    pub open spec fn contents(&self) -> Map<u64, (i32, i32)> {
        match self.inner {
            NodeStoreWriterImpl::Sparse(s) => s.contents(),
            NodeStoreWriterImpl::Dense(d) => d.contents(),
            NodeStoreWriterImpl::Memory(m) => m.contents(),
        }
    }

    pub open spec fn wf(&self) -> bool {
        match self.inner {
            NodeStoreWriterImpl::Sparse(s) => s.wf(),
            NodeStoreWriterImpl::Dense(d) => d.wf(),
            NodeStoreWriterImpl::Memory(_) => true,
        }
    }

    /// Whether a `put` of `id` is accepted: the sparse backend wants
    /// non-decreasing ids, the dense backend wants ids below its capacity,
    /// the memory backend accepts everything.
    pub open spec fn accepts(&self, id: u64) -> bool {
        match self.inner {
            NodeStoreWriterImpl::Sparse(s) => sparse_accepts(s.spec_last_id(), id),
            NodeStoreWriterImpl::Dense(d) => id < d.spec_max_nodes(),
            NodeStoreWriterImpl::Memory(_) => true,
        }
    }

    /// Whether `finalize` will succeed: only a sparse store that rejected an
    /// out-of-order id refuses to freeze.
    pub open spec fn finalize_ok(&self) -> bool {
        match self.inner {
            NodeStoreWriterImpl::Sparse(s) => s.ok_so_far(),
            NodeStoreWriterImpl::Dense(_) => true,
            NodeStoreWriterImpl::Memory(_) => true,
        }
    }

    /// Create a sparse node store (sorted array, efficient for extracts).
    pub fn new_sparse() -> (r: Result<Self, CosmoError>)
        ensures
            r matches Ok(w) ==> w.wf() && w.contents() == Map::<u64, (i32, i32)>::empty()
                && w.inner is Sparse && w.finalize_ok() && (forall|id: u64| w.accepts(id)),
            r is Ok,
    {
        Ok(NodeStoreWriter { inner: NodeStoreWriterImpl::Sparse(SparseNodeStoreWriter::new()) })
    }

    /// Create a dense node store with `max_nodes` slots.  Fails exactly when
    /// the slot table cannot be addressed on this machine.
    pub fn new_dense(max_nodes: u64) -> (r: Result<Self, CosmoError>)
        ensures
            r is Ok <==> max_nodes <= usize::MAX,
            r matches Ok(w) ==> w.wf() && w.contents() == Map::<u64, (i32, i32)>::empty()
                && w.inner is Dense && (forall|id: u64| w.accepts(id) <==> id < max_nodes),
    {
        if max_nodes > (usize::MAX as u64) {
            return Err(
                CosmoError::Config(String::from_str("dense node cache size overflows this machine")),
            );
        }
        Ok(
            NodeStoreWriter {
                inner: NodeStoreWriterImpl::Dense(DenseNodeStoreWriter::new(max_nodes)),
            },
        )
    }

    /// Create a dense node store whose backing is dropped with the store.
    pub fn new_dense_temp(max_nodes: u64) -> (r: Result<Self, CosmoError>)
        ensures
            r is Ok <==> max_nodes <= usize::MAX,
            r matches Ok(w) ==> w.wf() && w.contents() == Map::<u64, (i32, i32)>::empty()
                && w.inner is Dense && (forall|id: u64| w.accepts(id) <==> id < max_nodes),
    {
        Self::new_dense(max_nodes)
    }

    /// Create an in-memory node store.
    pub fn new_memory() -> (r: Self)
        ensures
            r.wf(),
            r.contents() == Map::<u64, (i32, i32)>::empty(),
            r.inner is Memory,
            r.finalize_ok(),
            forall|id: u64| r.accepts(id),
    {
        NodeStoreWriter { inner: NodeStoreWriterImpl::Memory(MemoryNodeStore::new()) }
    }

    /// Record `(lon, lat)` for `id`.  Succeeds exactly when the backend
    /// accepts the id; the last write for an id wins.
    pub fn put(&mut self, id: u64, lat: i32, lon: i32) -> (r: Result<(), CosmoError>)
        requires
            old(self).wf(),
        ensures
            final(self).wf(),
            r is Ok <==> old(self).accepts(id),
            r is Ok ==> final(self).contents() == old(self).contents().insert(id, (lon, lat)),
            r is Err ==> final(self).contents() == old(self).contents(),
            old(self).inner is Sparse ==> (r matches Err(e) ==> e is UnsortedIds),
            old(self).inner matches NodeStoreWriterImpl::Dense(d) ==> (r matches Err(e) ==> e
                == (CosmoError::OverCapacity { id, max_nodes: d.spec_max_nodes() })),
            put_evolution(*old(self), *final(self), id, r is Ok),
    {
        match &mut self.inner {
            NodeStoreWriterImpl::Sparse(s) => s.put(id, lat, lon),
            NodeStoreWriterImpl::Dense(d) => d.put(id, lat, lon),
            NodeStoreWriterImpl::Memory(m) => {
                m.put(id, lat, lon);
                Ok(())
            },
        }
    }

    /// Freeze the store into its read-only form.  Fails exactly when a
    /// sparse store saw an out-of-order id.
    pub fn finalize(self) -> (r: Result<NodeStoreReader, CosmoError>)
        requires
            self.wf(),
        ensures
            r is Ok <==> self.finalize_ok(),
            r matches Err(e) ==> e is UnsortedIds,
            r matches Ok(rd) ==> rd.wf() && rd.contents() == self.contents() && finalize_matches(
                self,
                rd,
            ),
    {
        match self.inner {
            NodeStoreWriterImpl::Sparse(s) => {
                let rd = s.finalize()?;
                Ok(NodeStoreReader { inner: NodeStoreReaderImpl::Sparse(rd) })
            },
            NodeStoreWriterImpl::Dense(d) => Ok(
                NodeStoreReader { inner: NodeStoreReaderImpl::Dense(d.finalize()) },
            ),
            NodeStoreWriterImpl::Memory(m) => Ok(
                NodeStoreReader { inner: NodeStoreReaderImpl::Memory(m) },
            ),
        }
    }
}

impl NodeStoreReader {
    /// The id-to-coordinate map this store holds.
    pub open spec fn contents(&self) -> Map<u64, (i32, i32)> {
        match self.inner {
            NodeStoreReaderImpl::Sparse(s) => s.contents(),
            NodeStoreReaderImpl::Dense(d) => d.contents(),
            NodeStoreReaderImpl::Memory(m) => m.contents(),
        }
    }

    pub open spec fn wf(&self) -> bool {
        match self.inner {
            NodeStoreReaderImpl::Sparse(s) => s.wf(),
            NodeStoreReaderImpl::Dense(d) => d.wf(),
            NodeStoreReaderImpl::Memory(_) => true,
        }
    }

    /// What `get` returns: the stored pair for a written id; `None` for an
    /// unwritten id, except that the dense backend answers `(0, 0)` for
    /// unwritten ids below its capacity and `None` at or above it.
    pub open spec fn spec_get(&self, id: u64) -> Option<(i32, i32)> {
        match self.inner {
            NodeStoreReaderImpl::Sparse(s) => spec_map_get(s.contents(), id),
            NodeStoreReaderImpl::Dense(d) => spec_dense_get(d.contents(), d.spec_max_nodes(), id),
            NodeStoreReaderImpl::Memory(m) => spec_map_get(m.contents(), id),
        }
    }

    /// Look `id` up: `(lon, lat)` as stored, fixed-point.
    pub fn get(&self, id: u64) -> (r: Option<(i32, i32)>)
        requires
            self.wf(),
        ensures
            r == self.spec_get(id),
    {
        match &self.inner {
            NodeStoreReaderImpl::Sparse(s) => s.get(id),
            NodeStoreReaderImpl::Dense(d) => d.get(id),
            NodeStoreReaderImpl::Memory(m) => m.get(id),
        }
    }
}

// ---------------------------------------------------------------------------
// Store laws
// ---------------------------------------------------------------------------

/// Law: whatever the backend, once a pair has been written for an id — the
/// last write winning — reading that id returns exactly that pair.
pub proof fn lemma_reader_returns_written(rd: NodeStoreReader, id: u64)
    requires
        rd.wf(),
        rd.contents().contains_key(id),
    ensures
        rd.spec_get(id) == Some(rd.contents()[id]),
{
    match rd.inner {
        NodeStoreReaderImpl::Sparse(_) => {},
        NodeStoreReaderImpl::Dense(d) => {},
        NodeStoreReaderImpl::Memory(_) => {},
    }
}

/// Law: three backends holding the same written contents answer every
/// written id identically, whatever order the reads come in.
pub proof fn lemma_backends_agree(
    sp: NodeStoreReader,
    de: NodeStoreReader,
    me: NodeStoreReader,
    id: u64,
)
    requires
        sp.wf(),
        de.wf(),
        me.wf(),
        sp.inner is Sparse,
        de.inner is Dense,
        me.inner is Memory,
        sp.contents() == de.contents(),
        de.contents() == me.contents(),
        sp.contents().contains_key(id),
    ensures
        sp.spec_get(id) == de.spec_get(id),
        de.spec_get(id) == me.spec_get(id),
        sp.spec_get(id) == Some(sp.contents()[id]),
{
    lemma_reader_returns_written(sp, id);
    lemma_reader_returns_written(de, id);
    lemma_reader_returns_written(me, id);
}

} // verus!
