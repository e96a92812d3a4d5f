//! One in-flight upload: declared metadata, the per-index chunk records, and
//! the scratch store holding the received payloads.

use vstd::prelude::*;
use vstd::arithmetic::div_mod::{lemma_fundamental_div_mod, lemma_fundamental_div_mod_converse};
use crate::digest::{sha256_hex, sha256_hex_of};
use crate::errors::TransferError;
use crate::store::ChunkStore;

verus! {

// ------------------------------------------------------------------
// The mathematical model of a session.
// ------------------------------------------------------------------

/// One received chunk: its content hash and its payload.
#[verifier::ext_equal]
pub struct ChunkModel {
    pub hash: Seq<char>,
    pub bytes: Seq<u8>,
}

/// The abstract lifecycle state of a session.
#[verifier::ext_equal]
pub enum StatusModel {
    Pending,
    InProgress { received_chunks: usize },
    Completed { final_hash: Seq<char> },
    Failed { reason: Seq<char> },
}

/// The abstract metadata of a session.
#[verifier::ext_equal]
pub struct MetadataModel {
    pub id: Seq<char>,
    pub filename: Seq<char>,
    pub total_size: u64,
    pub chunk_size: usize,
    pub total_chunks: usize,
    pub batch_id: Option<Seq<char>>,
    pub created_at: i64,
    pub status: StatusModel,
}

/// The abstract state of a session: metadata plus one slot per chunk index.
#[verifier::ext_equal]
pub struct SessionModel {
    pub meta: MetadataModel,
    pub chunks: Seq<Option<ChunkModel>>,
}

/// How many distinct chunk indices have been received.
pub open spec fn count_received(chunks: Seq<Option<ChunkModel>>) -> int
    decreases chunks.len(),
{
    if chunks.len() == 0 {
        0
    } else {
        count_received(chunks.drop_last()) + if chunks.last() is Some {
            1int
        } else {
            0int
        }
    }
}

/// The concatenation of the stored payloads in ascending index order; a slot
/// not yet received contributes nothing.
pub open spec fn concat_chunks(chunks: Seq<Option<ChunkModel>>) -> Seq<u8>
    decreases chunks.len(),
{
    if chunks.len() == 0 {
        Seq::empty()
    } else {
        concat_chunks(chunks.drop_last()) + match chunks.last() {
            Some(c) => c.bytes,
            None => Seq::empty(),
        }
    }
}

/// The sum of the stored payload lengths.
pub open spec fn stored_bytes(chunks: Seq<Option<ChunkModel>>) -> int
    decreases chunks.len(),
{
    if chunks.len() == 0 {
        0
    } else {
        stored_bytes(chunks.drop_last()) + match chunks.last() {
            Some(c) => c.bytes.len() as int,
            None => 0int,
        }
    }
}

/// How many chunks a declared size splits into: the ceiling of
/// `total_size / chunk_size`, and zero for an empty file.
pub open spec fn spec_total_chunks(total_size: int, chunk_size: int) -> int
    recommends
        total_size >= 0,
        chunk_size > 0,
{
    (total_size + chunk_size - 1) / chunk_size
}

/// The chunk count is exactly the ceiling of `total_size / chunk_size`: it is
/// the least `n` with `n * chunk_size >= total_size`.
pub proof fn lemma_total_chunks_is_ceiling(total_size: int, chunk_size: int)
    requires
        total_size >= 0,
        chunk_size > 0,
    ensures
        spec_total_chunks(total_size, chunk_size) >= 0,
        spec_total_chunks(total_size, chunk_size) * chunk_size >= total_size,
        spec_total_chunks(total_size, chunk_size) * chunk_size < total_size + chunk_size,
{
    let d = total_size + chunk_size - 1;
    let n = d / chunk_size;
    lemma_fundamental_div_mod(d, chunk_size);
    let r = d % chunk_size;
    assert(d == chunk_size * n + r);
    assert(n * chunk_size == d - r) by (nonlinear_arith)
        requires
            d == chunk_size * n + r,
    ;
    assert(n >= 0) by (nonlinear_arith)
        requires
            d >= 0,
            chunk_size > 0,
            d == chunk_size * n + r,
            0 <= r < chunk_size,
    ;
}

/// The ceiling split agrees with quotient plus a correction for a remainder.
pub proof fn lemma_ceil_div_parts(total_size: int, chunk_size: int)
    requires
        total_size >= 0,
        chunk_size > 0,
    ensures
        spec_total_chunks(total_size, chunk_size) == total_size / chunk_size + if total_size
            % chunk_size == 0 {
            0int
        } else {
            1int
        },
{
    lemma_fundamental_div_mod(total_size, chunk_size);
    let q = total_size / chunk_size;
    let r = total_size % chunk_size;
    let d = total_size + chunk_size - 1;
    if r == 0 {
        assert(d == q * chunk_size + (chunk_size - 1)) by (nonlinear_arith)
            requires
                total_size == chunk_size * q + r,
                r == 0,
                d == total_size + chunk_size - 1,
        ;
        lemma_fundamental_div_mod_converse(d, chunk_size, q, chunk_size - 1);
    } else {
        assert(d == (q + 1) * chunk_size + (r - 1)) by (nonlinear_arith)
            requires
                total_size == chunk_size * q + r,
                d == total_size + chunk_size - 1,
        ;
        lemma_fundamental_div_mod_converse(d, chunk_size, q + 1, r - 1);
    }
}

/// The ceiling split, computed without overflow.
pub fn compute_total_chunks(total_size: u64, chunk_size: usize) -> (r: usize)
    requires
        chunk_size > 0,
        spec_total_chunks(total_size as int, chunk_size as int) <= usize::MAX,
    ensures
        r == spec_total_chunks(total_size as int, chunk_size as int),
{
    let cs64 = chunk_size as u64;
    let q = total_size / cs64;
    let rem = total_size % cs64;
    proof {
        lemma_ceil_div_parts(total_size as int, chunk_size as int);
        if rem != 0 && q == u64::MAX {
            assert(false) by (nonlinear_arith)
                requires
                    q == total_size as int / cs64 as int,
                    rem == total_size as int % cs64 as int,
                    rem != 0,
                    q == u64::MAX,
                    total_size <= u64::MAX,
                    cs64 >= 1,
            ;
        }
    }
    let chunks64: u64 = if rem == 0 {
        q
    } else {
        q + 1
    };
    chunks64 as usize
}

impl MetadataModel {
    /// The declared sizes are coherent: a positive chunk size and the derived
    /// chunk count.
    pub open spec fn wf(self) -> bool {
        &&& self.chunk_size > 0
        &&& self.total_chunks == spec_total_chunks(self.total_size as int, self.chunk_size as int)
    }
}

impl SessionModel {
    /// Metadata coherent, one slot per declared chunk, every stored hash the
    /// digest of its payload, and the status tracking the received count. An
    /// active session is `Pending` or `InProgress`; completed and failed
    /// sessions do not stay in the registry.
    pub open spec fn wf(self) -> bool {
        &&& self.meta.wf()
        &&& self.chunks.len() == self.meta.total_chunks
        &&& forall|i: int|
            0 <= i < self.chunks.len() ==> match #[trigger] self.chunks[i] {
                Some(c) => c.hash == sha256_hex(c.bytes),
                None => true,
            }
        &&& match self.meta.status {
            StatusModel::Pending => count_received(self.chunks) == 0,
            StatusModel::InProgress { received_chunks } => {
                &&& received_chunks == count_received(self.chunks)
                &&& count_received(self.chunks) >= 1
            },
            StatusModel::Completed { .. } => false,
            StatusModel::Failed { .. } => false,
        }
    }
}

/// A session as it is created: the given metadata, every slot empty.
pub open spec fn spec_fresh_session(meta: MetadataModel) -> SessionModel {
    SessionModel { meta, chunks: Seq::new(meta.total_chunks as nat, |i: int| None) }
}

/// The session after a chunk arrives at `index`: that slot is overwritten
/// with the payload and its digest, every other slot is untouched, and the
/// status becomes `InProgress` with the new distinct-index count.
pub open spec fn spec_submit(s: SessionModel, index: int, bytes: Seq<u8>) -> SessionModel
    recommends
        0 <= index < s.chunks.len(),
{
    let chunks = s.chunks.update(index, Some(ChunkModel { hash: sha256_hex(bytes), bytes }));
    SessionModel {
        meta: MetadataModel {
            status: StatusModel::InProgress {
                received_chunks: count_received(chunks) as usize,
            },
            ..s.meta
        },
        chunks,
    }
}

// ------------------------------------------------------------------
// Counting lemmas.
// ------------------------------------------------------------------

pub proof fn lemma_count_bounds(chunks: Seq<Option<ChunkModel>>)
    ensures
        0 <= count_received(chunks) <= chunks.len(),
    decreases chunks.len(),
{
    if chunks.len() > 0 {
        lemma_count_bounds(chunks.drop_last());
    }
}

/// Overwriting one slot with a received chunk raises the count by one when
/// the slot was empty and leaves it unchanged when it was not.
pub proof fn lemma_count_update(chunks: Seq<Option<ChunkModel>>, i: int, c: ChunkModel)
    requires
        0 <= i < chunks.len(),
    ensures
        count_received(chunks.update(i, Some(c))) == count_received(chunks) + if chunks[i]
            is None {
            1int
        } else {
            0int
        },
    decreases chunks.len(),
{
    let updated = chunks.update(i, Some(c));
    if i == chunks.len() - 1 {
        assert(updated.drop_last() =~= chunks.drop_last());
    } else {
        assert(updated.drop_last() =~= chunks.drop_last().update(i, Some(c)));
        lemma_count_update(chunks.drop_last(), i, c);
    }
}

/// A full count means every slot is filled.
pub proof fn lemma_count_full(chunks: Seq<Option<ChunkModel>>)
    requires
        count_received(chunks) == chunks.len(),
    ensures
        forall|i: int| 0 <= i < chunks.len() ==> chunks[i] is Some,
    decreases chunks.len(),
{
    if chunks.len() > 0 {
        lemma_count_bounds(chunks.drop_last());
        lemma_count_full(chunks.drop_last());
        assert forall|i: int| 0 <= i < chunks.len() implies chunks[i] is Some by {
            if i < chunks.len() - 1 {
                assert(chunks.drop_last()[i] is Some);
            }
        }
    }
}

/// An empty slot keeps the count strictly under the slot count.
pub proof fn lemma_count_partial(chunks: Seq<Option<ChunkModel>>, i: int)
    requires
        0 <= i < chunks.len(),
        chunks[i] is None,
    ensures
        count_received(chunks) < chunks.len(),
{
    lemma_count_bounds(chunks);
    if count_received(chunks) == chunks.len() {
        lemma_count_full(chunks);
    }
}

/// A filled slot keeps the count at one or more.
pub proof fn lemma_count_positive(chunks: Seq<Option<ChunkModel>>, i: int)
    requires
        0 <= i < chunks.len(),
        chunks[i] is Some,
    ensures
        count_received(chunks) >= 1,
    decreases chunks.len(),
{
    lemma_count_bounds(chunks.drop_last());
    if i < chunks.len() - 1 {
        lemma_count_positive(chunks.drop_last(), i);
    }
}

/// A session with no chunk yet has count zero.
pub proof fn lemma_count_empty(chunks: Seq<Option<ChunkModel>>)
    requires
        forall|i: int| 0 <= i < chunks.len() ==> chunks[i] is None,
    ensures
        count_received(chunks) == 0,
    decreases chunks.len(),
{
    if chunks.len() > 0 {
        lemma_count_empty(chunks.drop_last());
    }
}

// ------------------------------------------------------------------
// Concatenation lemmas.
// ------------------------------------------------------------------

pub proof fn lemma_concat_take_step(chunks: Seq<Option<ChunkModel>>, i: int)
    requires
        0 <= i < chunks.len(),
    ensures
        concat_chunks(chunks.take(i + 1)) == concat_chunks(chunks.take(i)) + match chunks[i] {
            Some(c) => c.bytes,
            None => Seq::empty(),
        },
{
    assert(chunks.take(i + 1).drop_last() =~= chunks.take(i));
    assert(chunks.take(i + 1).last() == chunks[i]);
}

/// The reassembled length is the sum of the stored payload lengths.
pub proof fn lemma_concat_len(chunks: Seq<Option<ChunkModel>>)
    ensures
        concat_chunks(chunks).len() == stored_bytes(chunks),
        stored_bytes(chunks) >= 0,
    decreases chunks.len(),
{
    if chunks.len() > 0 {
        lemma_concat_len(chunks.drop_last());
    }
}

// ------------------------------------------------------------------
// Laws about submitting chunks.
// ------------------------------------------------------------------

/// Resending a chunk index overwrites only that slot: the session ends up as
/// if the first payload had never been sent, and in particular the second
/// send leaves the distinct-index count where it was.
pub proof fn lemma_resubmit_counts_once(
    s: SessionModel,
    index: int,
    first: Seq<u8>,
    second: Seq<u8>,
)
    requires
        0 <= index < s.chunks.len(),
    ensures
        spec_submit(spec_submit(s, index, first), index, second) == spec_submit(s, index, second),
        count_received(spec_submit(spec_submit(s, index, first), index, second).chunks)
            == count_received(spec_submit(s, index, first).chunks),
{
    let once = spec_submit(s, index, first);
    let twice = spec_submit(once, index, second);
    let direct = spec_submit(s, index, second);
    assert(twice.chunks =~= direct.chunks);
    assert(twice =~= direct);
    lemma_count_update(once.chunks, index, ChunkModel { hash: sha256_hex(second), bytes: second });
    lemma_count_update(s.chunks, index, ChunkModel { hash: sha256_hex(first), bytes: first });
    lemma_count_update(s.chunks, index, ChunkModel { hash: sha256_hex(second), bytes: second });
}

/// Chunks for distinct indices may arrive in either order; the session ends
/// up the same, so the reassembled bytes cannot depend on arrival order.
pub proof fn lemma_submit_order_irrelevant(
    s: SessionModel,
    i: int,
    bytes_i: Seq<u8>,
    j: int,
    bytes_j: Seq<u8>,
)
    requires
        0 <= i < s.chunks.len(),
        0 <= j < s.chunks.len(),
        i != j,
    ensures
        spec_submit(spec_submit(s, i, bytes_i), j, bytes_j) == spec_submit(
            spec_submit(s, j, bytes_j),
            i,
            bytes_i,
        ),
{
    let left = spec_submit(spec_submit(s, i, bytes_i), j, bytes_j);
    let right = spec_submit(spec_submit(s, j, bytes_j), i, bytes_i);
    assert(left.chunks =~= right.chunks);
    assert(left =~= right);
}

// ------------------------------------------------------------------
// The executable types.
// ------------------------------------------------------------------

/// The lifecycle state of a transfer.
#[derive(Debug, Clone)]
pub enum TransferStatus {
    Pending,
    InProgress { received_chunks: usize },
    Completed { final_hash: String },
    Failed { reason: String },
}

impl View for TransferStatus {
    type V = StatusModel;

    open spec fn view(&self) -> StatusModel {
        match self {
            TransferStatus::Pending => StatusModel::Pending,
            TransferStatus::InProgress { received_chunks } => StatusModel::InProgress {
                received_chunks: *received_chunks,
            },
            TransferStatus::Completed { final_hash } => StatusModel::Completed {
                final_hash: final_hash@,
            },
            TransferStatus::Failed { reason } => StatusModel::Failed { reason: reason@ },
        }
    }
}

/// The declared and derived metadata of a transfer.
#[derive(Debug, Clone)]
pub struct TransferMetadata {
    pub id: String,
    pub filename: String,
    pub total_size: u64,
    pub chunk_size: usize,
    pub total_chunks: usize,
    pub batch_id: Option<String>,
    pub created_at: i64,
    pub status: TransferStatus,
}

impl View for TransferMetadata {
    type V = MetadataModel;

    open spec fn view(&self) -> MetadataModel {
        MetadataModel {
            id: self.id@,
            filename: self.filename@,
            total_size: self.total_size,
            chunk_size: self.chunk_size,
            total_chunks: self.total_chunks,
            batch_id: match self.batch_id {
                Some(b) => Some(b@),
                None => None,
            },
            created_at: self.created_at,
            status: self.status@,
        }
    }
}

impl TransferMetadata {
    /// A copy whose model is the same.
    pub fn snapshot(&self) -> (r: TransferMetadata)
        ensures
            r@ == self@,
    {
        let r = TransferMetadata {
            id: self.id.clone(),
            filename: self.filename.clone(),
            total_size: self.total_size,
            chunk_size: self.chunk_size,
            total_chunks: self.total_chunks,
            batch_id: match &self.batch_id {
                Some(b) => Some(b.clone()),
                None => None,
            },
            created_at: self.created_at,
            status: match &self.status {
                TransferStatus::Pending => TransferStatus::Pending,
                TransferStatus::InProgress { received_chunks } => TransferStatus::InProgress {
                    received_chunks: *received_chunks,
                },
                TransferStatus::Completed { final_hash } => TransferStatus::Completed {
                    final_hash: final_hash.clone(),
                },
                TransferStatus::Failed { reason } => TransferStatus::Failed {
                    reason: reason.clone(),
                },
            },
        };
        proof {
            assert(r@ =~= self@);
        }
        r
    }
}

/// The record kept for one received chunk index.
#[derive(Debug, Clone)]
pub struct ChunkInfo {
    pub index: usize,
    pub hash: String,
    pub size: usize,
}

/// One in-flight upload: metadata, per-index records, and the scratch store.
#[derive(Debug)]
pub struct Transfer {
    pub metadata: TransferMetadata,
    pub received_chunks: Vec<Option<ChunkInfo>>,
    pub store: ChunkStore,
}

impl View for Transfer {
    type V = SessionModel;

    open spec fn view(&self) -> SessionModel {
        SessionModel {
            meta: self.metadata@,
            chunks: Seq::new(
                self.store@.len(),
                |i: int|
                    match (self.received_chunks@[i], self.store@[i]) {
                        (Some(ci), Some(b)) => Some(ChunkModel { hash: ci.hash@, bytes: b }),
                        _ => None,
                    },
            ),
        }
    }
}

impl Transfer {
    /// The executable representation is coherent and its model well-formed.
    pub open spec fn wf(&self) -> bool {
        &&& self.received_chunks@.len() == self.metadata.total_chunks
        &&& self.store@.len() == self.metadata.total_chunks
        &&& forall|i: int|
            0 <= i < self.received_chunks@.len() ==> ((#[trigger] self.received_chunks@[i])
                is Some <==> self.store@[i] is Some)
        &&& forall|i: int|
            0 <= i < self.received_chunks@.len() ==> match #[trigger] self.received_chunks@[i] {
                Some(ci) => {
                    &&& ci.index == i
                    &&& self.store@[i] is Some
                    &&& ci.size == self.store@[i]->0.len()
                    &&& ci.hash@ == sha256_hex(self.store@[i]->0)
                },
                None => true,
            }
        &&& self@.wf()
    }

    /// A fresh session around the given metadata, with no chunk received.
    pub fn create(metadata: TransferMetadata) -> (r: Transfer)
        requires
            metadata@.wf(),
            metadata.status is Pending,
        ensures
            r.wf(),
            r@ == spec_fresh_session(metadata@),
    {
        let total = metadata.total_chunks;
        let store = ChunkStore::new(total);
        let mut received_chunks: Vec<Option<ChunkInfo>> = Vec::new();
        let mut filled: usize = 0;
        while filled < total
            invariant
                filled <= total,
                received_chunks@.len() == filled,
                forall|i: int| 0 <= i < filled ==> received_chunks@[i] is None,
            decreases total - filled,
        {
            received_chunks.push(None);
            filled = filled + 1;
        }
        let r = Transfer { metadata, received_chunks, store };
        proof {
            assert(r@.chunks =~= spec_fresh_session(r.metadata@).chunks);
            assert(r@ =~= spec_fresh_session(r.metadata@));
            lemma_count_empty(r@.chunks);
        }
        r
    }

    /// The number of distinct chunk indices received so far, read off the
    /// status.
    pub fn received_count(&self) -> (r: usize)
        requires
            self.wf(),
        ensures
            r == count_received(self@.chunks),
    {
        match &self.metadata.status {
            TransferStatus::Pending => 0,
            TransferStatus::InProgress { received_chunks } => *received_chunks,
            TransferStatus::Completed { .. } => unreached(),
            TransferStatus::Failed { .. } => unreached(),
        }
    }

    /// Stores one chunk: rejects an index at or past the declared chunk
    /// count and otherwise records the payload and its digest, overwriting
    /// any earlier payload for the same index.
    pub fn store_chunk(&mut self, index: usize, bytes: Vec<u8>) -> (r: Result<
        String,
        TransferError,
    >)
        requires
            old(self).wf(),
        ensures
            final(self).wf(),
            final(self).metadata.id@ == old(self).metadata.id@,
            index >= old(self).metadata.total_chunks ==> {
                &&& r matches Err(TransferError::ChunkOutOfOrder { expected, got })
                    && expected == old(self).metadata.total_chunks && got == index
                &&& *final(self) == *old(self)
            },
            index < old(self).metadata.total_chunks ==> {
                &&& r matches Ok(h) && h@ == sha256_hex(bytes@)
                &&& final(self)@ == spec_submit(old(self)@, index as int, bytes@)
            },
    {
        let total = self.metadata.total_chunks;
        if index >= total {
            return Err(TransferError::ChunkOutOfOrder { expected: total, got: index });
        }
        let hash = sha256_hex_of(bytes.as_slice());
        let size = bytes.len();
        let old_count = self.received_count();
        let had = self.store.is_set(index);
        proof {
            if !had {
                lemma_count_partial(self@.chunks, index as int);
            } else {
                lemma_count_bounds(self@.chunks);
            }
        }
        self.store.write(index, bytes);
        self.received_chunks[index] = Some(ChunkInfo { index, hash: hash.clone(), size });
        let new_count = if had {
            old_count
        } else {
            old_count + 1
        };
        self.metadata.status = TransferStatus::InProgress { received_chunks: new_count };
        proof {
            let ghost m0 = old(self)@;
            let ghost c = ChunkModel { hash: sha256_hex(bytes@), bytes: bytes@ };
            assert(self@.chunks =~= m0.chunks.update(index as int, Some(c)));
            lemma_count_update(m0.chunks, index as int, c);
            if had {
                lemma_count_positive(m0.chunks, index as int);
            }
            assert(self@ =~= spec_submit(m0, index as int, bytes@));
            assert forall|i: int|
                0 <= i < self.received_chunks@.len() implies ((#[trigger] self.received_chunks@[i])
                is Some <==> self.store@[i] is Some) by {
                if i != index {
                    assert(self.received_chunks@[i] == old(self).received_chunks@[i]);
                    assert(self.store@[i] == old(self).store@[i]);
                }
            }
            assert forall|i: int|
                0 <= i < self.received_chunks@.len() implies match #[trigger] self
                .received_chunks@[i] {
                Some(ci) => {
                    &&& ci.index == i
                    &&& self.store@[i] is Some
                    &&& ci.size == self.store@[i]->0.len()
                    &&& ci.hash@ == sha256_hex(self.store@[i]->0)
                },
                None => true,
            } by {
                if i != index {
                    assert(self.received_chunks@[i] == old(self).received_chunks@[i]);
                    assert(self.store@[i] == old(self).store@[i]);
                }
            }
        }
        Ok(hash)
    }

    /// The reassembled payload: every chunk's bytes, in ascending index
    /// order. Demands a complete session.
    pub fn reassembled_bytes(&self) -> (r: Vec<u8>)
        requires
            self.wf(),
            count_received(self@.chunks) == self@.chunks.len(),
        ensures
            r@ == concat_chunks(self@.chunks),
            r@.len() == stored_bytes(self@.chunks),
    {
        proof {
            lemma_count_full(self@.chunks);
        }
        let total = self.store.len();
        let mut out: Vec<u8> = Vec::new();
        let mut i: usize = 0;
        while i < total
            invariant
                self.wf(),
                total == self@.chunks.len(),
                i <= total,
                forall|k: int| 0 <= k < total ==> self@.chunks[k] is Some,
                out@ == concat_chunks(self@.chunks.take(i as int)),
            decreases total - i,
        {
            let chunk = self.store.read(i);
            let mut j: usize = 0;
            let chunk_len = chunk.len();
            proof {
                lemma_concat_take_step(self@.chunks, i as int);
                assert(self@.chunks[i as int]->0.bytes == chunk@);
            }
            while j < chunk_len
                invariant
                    j <= chunk_len,
                    chunk_len == chunk@.len(),
                    out@ == concat_chunks(self@.chunks.take(i as int)) + chunk@.take(j as int),
                decreases chunk_len - j,
            {
                out.push(chunk[j]);
                proof {
                    assert(chunk@.take(j + 1int) =~= chunk@.take(j as int).push(chunk@[j as int]));
                }
                j = j + 1;
            }
            proof {
                assert(chunk@.take(chunk_len as int) =~= chunk@);
            }
            i = i + 1;
        }
        proof {
            assert(self@.chunks.take(total as int) =~= self@.chunks);
            lemma_concat_len(self@.chunks);
        }
        out
    }
}

} // verus!
