//! The registry of active transfer sessions: the single mutation point for
//! session lifecycle, from creation through chunk receipt to completion or
//! cancellation, plus the history of completed uploads.

use vstd::prelude::*;
use vstd::string::StringExecFns;
use crate::batches::{batches_model, files_model, files_with_batch, file_of, group_uploads, grouping_correct, lemma_files_with_batch_step, uploads_model, CompletedUpload, UploadBatch, UploadModel, UploadedFile};
use crate::clock::now_millis;
use crate::digest::{sha256_hex, sha256_hex_of};
use crate::errors::TransferError;
use crate::session::{
    compute_total_chunks, count_received, concat_chunks, lemma_count_bounds, spec_fresh_session,
    spec_submit, spec_total_chunks, stored_bytes, MetadataModel, SessionModel, StatusModel,
    Transfer, TransferMetadata, TransferStatus,
};
use crate::text::{decimal, lemma_decimal_injective, u64_to_string};

verus! {

// ------------------------------------------------------------------
// Session identifiers.
// ------------------------------------------------------------------

/// The id handed out for the `n`-th session created by a registry.
pub open spec fn spec_transfer_id(n: int) -> Seq<char> {
    "trans_"@ + decimal(n)
}

/// Distinct creation ranks give distinct session ids.
pub proof fn lemma_transfer_id_injective(a: int, b: int)
    requires
        0 <= a,
        0 <= b,
        a != b,
    ensures
        spec_transfer_id(a) != spec_transfer_id(b),
{
    lemma_decimal_injective(a, b);
    if spec_transfer_id(a) == spec_transfer_id(b) {
        let p = "trans_"@;
        assert(decimal(a) =~= spec_transfer_id(a).subrange(
            p.len() as int,
            spec_transfer_id(a).len() as int,
        ));
        assert(decimal(b) =~= spec_transfer_id(b).subrange(
            p.len() as int,
            spec_transfer_id(b).len() as int,
        ));
    }
}

fn make_transfer_id(n: u64) -> (r: String)
    ensures
        r@ == spec_transfer_id(n as int),
{
    let r = String::from_str("trans_").concat(u64_to_string(n).as_str());
    proof {
        assert(r@ =~= spec_transfer_id(n as int));
    }
    r
}

// ------------------------------------------------------------------
// The registry model and its transitions.
// ------------------------------------------------------------------

/// The abstract registry: the active sessions in creation order, the history
/// of completed uploads in completion order, and the next creation rank.
#[verifier::ext_equal]
pub struct ManagerModel {
    pub sessions: Seq<SessionModel>,
    pub completed: Seq<UploadModel>,
    pub next_seq: u64,
}

/// Whether some active session carries this id.
pub open spec fn has_session(m: ManagerModel, id: Seq<char>) -> bool {
    exists|k: int| 0 <= k < m.sessions.len() && (#[trigger] m.sessions[k]).meta.id == id
}

/// The position of the active session carrying this id.
pub open spec fn session_index(m: ManagerModel, id: Seq<char>) -> int {
    choose|k: int| 0 <= k < m.sessions.len() && (#[trigger] m.sessions[k]).meta.id == id
}

/// The model of an optional caller-supplied string.
pub open spec fn opt_str_view(o: Option<String>) -> Option<Seq<char>> {
    match o {
        Some(b) => Some(b@),
        None => None,
    }
}

/// The metadata a new session starts with.
pub open spec fn spec_init_metadata(
    id: Seq<char>,
    filename: Seq<char>,
    total_size: u64,
    chunk_size: usize,
    batch_id: Option<Seq<char>>,
    created_at: i64,
) -> MetadataModel {
    MetadataModel {
        id,
        filename,
        total_size,
        chunk_size,
        total_chunks: spec_total_chunks(total_size as int, chunk_size as int) as usize,
        batch_id,
        created_at,
        status: StatusModel::Pending,
    }
}

/// The registry after creating a session.
pub open spec fn spec_create(
    m: ManagerModel,
    filename: Seq<char>,
    total_size: u64,
    chunk_size: usize,
    batch_id: Option<Seq<char>>,
    created_at: i64,
) -> ManagerModel {
    ManagerModel {
        sessions: m.sessions.push(
            spec_fresh_session(
                spec_init_metadata(
                    spec_transfer_id(m.next_seq as int),
                    filename,
                    total_size,
                    chunk_size,
                    batch_id,
                    created_at,
                ),
            ),
        ),
        completed: m.completed,
        next_seq: (m.next_seq + 1) as u64,
    }
}

/// The history record appended when a session completes.
pub open spec fn spec_upload_record(meta: MetadataModel, uploaded_at: i64) -> UploadModel {
    UploadModel {
        batch_id: match meta.batch_id {
            Some(b) => b,
            None => "single_"@ + meta.id,
        },
        name: meta.filename,
        size: meta.total_size,
        uploaded_at,
    }
}

/// The metadata returned by a successful completion.
pub open spec fn spec_completed_metadata(meta: MetadataModel, chunks: Seq<
    Option<crate::session::ChunkModel>,
>) -> MetadataModel {
    MetadataModel {
        status: StatusModel::Completed { final_hash: sha256_hex(concat_chunks(chunks)) },
        ..meta
    }
}

/// The registry after the session at `k` completes at `uploaded_at`.
pub open spec fn spec_complete(m: ManagerModel, k: int, uploaded_at: i64) -> ManagerModel {
    ManagerModel {
        sessions: m.sessions.remove(k),
        completed: m.completed.push(spec_upload_record(m.sessions[k].meta, uploaded_at)),
        next_seq: m.next_seq,
    }
}

// ------------------------------------------------------------------
// The registry itself.
// ------------------------------------------------------------------

/// The single source of truth for active sessions and completed uploads.
#[derive(Debug)]
pub struct TransferManager {
    transfers: Vec<Transfer>,
    completed_uploads: Vec<CompletedUpload>,
    next_seq: u64,
}

impl View for TransferManager {
    type V = ManagerModel;

    closed spec fn view(&self) -> ManagerModel {
        ManagerModel {
            sessions: Seq::new(self.transfers@.len(), |k: int| self.transfers@[k]@),
            completed: Seq::new(self.completed_uploads@.len(), |k: int| self.completed_uploads@[k]@),
            next_seq: self.next_seq,
        }
    }
}

impl TransferManager {
    /// Every session is well-formed, ids are distinct, and every id was
    /// handed out for a rank below `next_seq`.
    pub closed spec fn wf(&self) -> bool {
        &&& forall|k: int|
            0 <= k < self.transfers@.len() ==> (#[trigger] self.transfers@[k]).wf()
        &&& forall|k1: int, k2: int|
            0 <= k1 < k2 < self.transfers@.len() ==> self.transfers@[k1].metadata.id@
                != self.transfers@[k2].metadata.id@
        &&& forall|k: int|
            0 <= k < self.transfers@.len() ==> exists|n: int|
                0 <= n < self.next_seq && (#[trigger] self.transfers@[k]).metadata.id@
                    == spec_transfer_id(n)
    }

    /// Every active session's model is well-formed.
    pub proof fn lemma_sessions_wf(&self)
        requires
            self.wf(),
        ensures
            forall|k: int|
                0 <= k < self@.sessions.len() ==> (#[trigger] self@.sessions[k]).wf(),
    {
        assert forall|k: int|
            0 <= k < self@.sessions.len() implies (#[trigger] self@.sessions[k]).wf() by {
            assert(self.transfers@[k].wf());
        }
    }

    /// An empty registry.
    pub fn new() -> (r: Self)
        ensures
            r.wf(),
            r@.sessions.len() == 0,
            r@.completed.len() == 0,
            r@.next_seq == 0,
    {
        TransferManager { transfers: Vec::new(), completed_uploads: Vec::new(), next_seq: 0 }
    }

    /// The position of the session with this id, if it is active.
    fn find_index(&self, transfer_id: &str) -> (r: Option<usize>)
        requires
            self.wf(),
        ensures
            match r {
                Some(k) => {
                    &&& k < self@.sessions.len()
                    &&& self@.sessions[k as int].meta.id == transfer_id@
                    &&& k == session_index(self@, transfer_id@)
                    &&& has_session(self@, transfer_id@)
                },
                None => !has_session(self@, transfer_id@),
            },
    {
        let key: String = transfer_id.to_owned();
        let n = self.transfers.len();
        let mut k: usize = 0;
        while k < n
            invariant
                self.wf(),
                n == self.transfers@.len(),
                k <= n,
                key@ == transfer_id@,
                forall|j: int| 0 <= j < k ==> (#[trigger] self@.sessions[j]).meta.id != transfer_id@,
            decreases n - k,
        {
            if self.transfers[k].metadata.id == key {
                proof {
                    assert(self@.sessions[k as int].meta.id == transfer_id@);
                    let k2 = session_index(self@, transfer_id@);
                    if k2 != k {
                        if k2 < k {
                            assert(self.transfers@[k2].metadata.id@ != self.transfers@[
                                k as int].metadata.id@);
                        } else {
                            assert(self.transfers@[k as int].metadata.id@ != self.transfers@[
                                k2].metadata.id@);
                        }
                    }
                }
                return Some(k);
            }
            k = k + 1;
        }
        None
    }

    /// Opens a session. Rejects `chunk_size == 0` with `InvalidChunkSize`
    /// and changes nothing; otherwise records the declared metadata under a
    /// fresh id, derives the chunk count as the ceiling of
    /// `total_size / chunk_size`, and returns the id.
    pub fn init_transfer_at(
        &mut self,
        filename: String,
        total_size: u64,
        chunk_size: usize,
        batch_id: Option<String>,
        created_at: i64,
    ) -> (r: Result<String, TransferError>)
        requires
            old(self).wf(),
            old(self)@.next_seq < u64::MAX,
            chunk_size > 0 ==> spec_total_chunks(total_size as int, chunk_size as int)
                <= usize::MAX,
        ensures
            final(self).wf(),
            chunk_size == 0 ==> (r matches Err(TransferError::InvalidChunkSize) && final(self)@
                == old(self)@),
            chunk_size > 0 ==> {
                &&& r matches Ok(id) && id@ == spec_transfer_id(old(self)@.next_seq as int)
                &&& final(self)@ == spec_create(
                    old(self)@,
                    filename@,
                    total_size,
                    chunk_size,
                    opt_str_view(batch_id),
                    created_at,
                )
            },
    {
        if chunk_size == 0 {
            proof {
                assert(self@ =~= old(self)@);
            }
            return Err(TransferError::InvalidChunkSize);
        }
        let ghost m0 = self@;
        let seq_used = self.next_seq;
        let id = make_transfer_id(seq_used);
        self.next_seq = self.next_seq + 1;
        let total_chunks = compute_total_chunks(total_size, chunk_size);
        let ghost fname = filename@;
        let ghost bview: Option<Seq<char>> = match batch_id {
            Some(ref b) => Some(b@),
            None => None,
        };
        let metadata = TransferMetadata {
            id: id.clone(),
            filename,
            total_size,
            chunk_size,
            total_chunks,
            batch_id,
            created_at,
            status: TransferStatus::Pending,
        };
        let t = Transfer::create(metadata);
        self.transfers.push(t);
        proof {
            let created = spec_create(m0, fname, total_size, chunk_size, bview, created_at);
            assert(t@ =~= created.sessions.last());
            assert(self@.sessions =~= created.sessions);
            assert(self@ =~= created);
            assert forall|k1: int, k2: int|
                0 <= k1 < k2 < self.transfers@.len() implies self.transfers@[k1].metadata.id@
                != self.transfers@[k2].metadata.id@ by {
                if k2 == self.transfers@.len() - 1 {
                    let n = choose|n: int|
                        0 <= n < m0.next_seq && old(self).transfers@[k1].metadata.id@
                            == spec_transfer_id(n);
                    lemma_transfer_id_injective(n, seq_used as int);
                }
            }
            assert forall|k: int| 0 <= k < self.transfers@.len() implies exists|n: int|
                0 <= n < self.next_seq && (#[trigger] self.transfers@[k]).metadata.id@
                    == spec_transfer_id(n) by {
                if k == self.transfers@.len() - 1 {
                    assert(self.transfers@[k].metadata.id@ == spec_transfer_id(seq_used as int));
                } else {
                    let n = choose|n: int|
                        0 <= n < m0.next_seq && old(self).transfers@[k].metadata.id@
                            == spec_transfer_id(n);
                    assert(self.transfers@[k].metadata.id@ == spec_transfer_id(n));
                }
            }
        }
        Ok(id)
    }

    /// Opens a session stamped with the current wall clock.
    pub fn init_transfer(
        &mut self,
        filename: String,
        total_size: u64,
        chunk_size: usize,
        batch_id: Option<String>,
    ) -> (r: Result<String, TransferError>)
        requires
            old(self).wf(),
            old(self)@.next_seq < u64::MAX,
            chunk_size > 0 ==> spec_total_chunks(total_size as int, chunk_size as int)
                <= usize::MAX,
        ensures
            final(self).wf(),
            chunk_size == 0 ==> (r matches Err(TransferError::InvalidChunkSize) && final(self)@
                == old(self)@),
            chunk_size > 0 ==> {
                &&& r matches Ok(id) && id@ == spec_transfer_id(old(self)@.next_seq as int)
                &&& exists|t: i64|
                    final(self)@ == #[trigger] spec_create(
                        old(self)@,
                        filename@,
                        total_size,
                        chunk_size,
                        opt_str_view(batch_id),
                        t,
                    )
            },
    {
        let now = now_millis();
        self.init_transfer_at(filename, total_size, chunk_size, batch_id, now)
    }

    /// Stores one chunk for an active session: `TransferNotFound` for an
    /// unknown id, `ChunkOutOfOrder` for an index at or past the declared
    /// chunk count (both leaving the registry unchanged), and otherwise the
    /// chunk's hex SHA-256 digest, with exactly that session updated.
    pub fn receive_chunk(
        &mut self,
        transfer_id: &str,
        chunk_index: usize,
        chunk_data: Vec<u8>,
    ) -> (r: Result<String, TransferError>)
        requires
            old(self).wf(),
        ensures
            final(self).wf(),
            !has_session(old(self)@, transfer_id@) ==> (r matches Err(
                TransferError::TransferNotFound(s),
            ) && s@ == transfer_id@ && final(self)@ == old(self)@),
            has_session(old(self)@, transfer_id@) ==> {
                let k = session_index(old(self)@, transfer_id@);
                let sess = old(self)@.sessions[k];
                &&& chunk_index >= sess.meta.total_chunks ==> (r matches Err(
                    TransferError::ChunkOutOfOrder { expected, got },
                ) && expected == sess.meta.total_chunks && got == chunk_index && final(self)@
                    == old(self)@)
                &&& chunk_index < sess.meta.total_chunks ==> {
                    &&& r matches Ok(h) && h@ == sha256_hex(chunk_data@)
                    &&& final(self)@ == (ManagerModel {
                        sessions: old(self)@.sessions.update(
                            k,
                            spec_submit(sess, chunk_index as int, chunk_data@),
                        ),
                        ..old(self)@
                    })
                }
            },
    {
        let k = match self.find_index(transfer_id) {
            None => {
                proof {
                    assert(self@ =~= old(self)@);
                }
                return Err(TransferError::TransferNotFound(transfer_id.to_owned()));
            },
            Some(k) => k,
        };
        let ghost m0 = self@;
        let r = self.transfers[k].store_chunk(chunk_index, chunk_data);
        proof {
            assert forall|j: int|
                0 <= j < self.transfers@.len() && j != k implies self.transfers@[j] == old(
                self,
            ).transfers@[j] by {}
            if chunk_index >= m0.sessions[k as int].meta.total_chunks {
                assert(self.transfers@ =~= old(self).transfers@);
                assert(self@ =~= m0);
            } else {
                assert(self@.sessions =~= m0.sessions.update(
                    k as int,
                    spec_submit(m0.sessions[k as int], chunk_index as int, chunk_data@),
                ));
                assert(self@ =~= ManagerModel {
                    sessions: m0.sessions.update(
                        k as int,
                        spec_submit(m0.sessions[k as int], chunk_index as int, chunk_data@),
                    ),
                    ..m0
                });
            }
            assert forall|k1: int, k2: int|
                0 <= k1 < k2 < self.transfers@.len() implies self.transfers@[k1].metadata.id@
                != self.transfers@[k2].metadata.id@ by {
                assert(self.transfers@[k1].metadata.id@ == old(self).transfers@[k1].metadata.id@);
                assert(self.transfers@[k2].metadata.id@ == old(self).transfers@[k2].metadata.id@);
            }
            assert forall|j: int| 0 <= j < self.transfers@.len() implies exists|n: int|
                0 <= n < self.next_seq && (#[trigger] self.transfers@[j]).metadata.id@
                    == spec_transfer_id(n) by {
                let n = choose|n: int|
                    0 <= n < old(self).next_seq && old(self).transfers@[j].metadata.id@
                        == spec_transfer_id(n);
                assert(self.transfers@[j].metadata.id@ == spec_transfer_id(n));
            }
        }
        r
    }

    /// The reassembled payload of a complete session, in ascending index
    /// order: `TransferNotFound` for an unknown id, `IncompleteTransfer`
    /// while chunks are missing. Reads only; the registry is unchanged.
    pub fn reassemble(&self, transfer_id: &str) -> (r: Result<Vec<u8>, TransferError>)
        requires
            self.wf(),
        ensures
            !has_session(self@, transfer_id@) ==> (r matches Err(TransferError::TransferNotFound(s))
                && s@ == transfer_id@),
            has_session(self@, transfer_id@) ==> {
                let sess = self@.sessions[session_index(self@, transfer_id@)];
                let cnt = count_received(sess.chunks);
                &&& cnt < sess.meta.total_chunks ==> (r matches Err(
                    TransferError::IncompleteTransfer { expected, actual },
                ) && expected == sess.meta.total_chunks && actual == cnt)
                &&& cnt == sess.meta.total_chunks ==> (r matches Ok(bytes) && bytes@
                    == concat_chunks(sess.chunks) && bytes@.len() == stored_bytes(sess.chunks))
            },
    {
        let k = match self.find_index(transfer_id) {
            None => return Err(TransferError::TransferNotFound(transfer_id.to_owned())),
            Some(k) => k,
        };
        let total = self.transfers[k].metadata.total_chunks;
        let cnt = self.transfers[k].received_count();
        if cnt != total {
            proof {
                lemma_count_bounds(self@.sessions[k as int].chunks);
            }
            return Err(TransferError::IncompleteTransfer { expected: total, actual: cnt });
        }
        Ok(self.transfers[k].reassembled_bytes())
    }

    /// Completes a session: checks that every declared chunk arrived,
    /// computes the whole-file hash over the chunks in ascending index
    /// order, appends the history record, evicts the session, and returns
    /// the final metadata. `TransferNotFound` and `IncompleteTransfer`
    /// leave the registry unchanged.
    pub fn complete_transfer_at(&mut self, transfer_id: &str, completed_at: i64) -> (r: Result<
        TransferMetadata,
        TransferError,
    >)
        requires
            old(self).wf(),
        ensures
            final(self).wf(),
            !has_session(old(self)@, transfer_id@) ==> (r matches Err(
                TransferError::TransferNotFound(s),
            ) && s@ == transfer_id@ && final(self)@ == old(self)@),
            has_session(old(self)@, transfer_id@) ==> {
                let k = session_index(old(self)@, transfer_id@);
                let sess = old(self)@.sessions[k];
                let cnt = count_received(sess.chunks);
                &&& cnt < sess.meta.total_chunks ==> (r matches Err(
                    TransferError::IncompleteTransfer { expected, actual },
                ) && expected == sess.meta.total_chunks && actual == cnt && final(self)@ == old(
                    self,
                )@)
                &&& cnt == sess.meta.total_chunks ==> {
                    &&& r matches Ok(meta) && meta@ == spec_completed_metadata(
                        sess.meta,
                        sess.chunks,
                    )
                    &&& final(self)@ == spec_complete(old(self)@, k, completed_at)
                }
            },
    {
        let k = match self.find_index(transfer_id) {
            None => {
                proof {
                    assert(self@ =~= old(self)@);
                }
                return Err(TransferError::TransferNotFound(transfer_id.to_owned()));
            },
            Some(k) => k,
        };
        let total = self.transfers[k].metadata.total_chunks;
        let cnt = self.transfers[k].received_count();
        if cnt != total {
            proof {
                lemma_count_bounds(self@.sessions[k as int].chunks);
                assert(self@ =~= old(self)@);
            }
            return Err(TransferError::IncompleteTransfer { expected: total, actual: cnt });
        }
        let ghost m0 = self@;
        let mut t = self.transfers.remove(k);
        let bytes = t.reassembled_bytes();
        let final_hash = sha256_hex_of(bytes.as_slice());
        t.metadata.status = TransferStatus::Completed { final_hash };
        let meta = t.metadata.snapshot();
        let record_batch_id = match &t.metadata.batch_id {
            Some(b) => b.clone(),
            None => String::from_str("single_").concat(t.metadata.id.as_str()),
        };
        let record = CompletedUpload {
            batch_id: record_batch_id,
            name: t.metadata.filename.clone(),
            size: t.metadata.total_size,
            uploaded_at: completed_at,
        };
        self.completed_uploads.push(record);
        proof {
            assert(meta@ =~= spec_completed_metadata(
                m0.sessions[k as int].meta,
                m0.sessions[k as int].chunks,
            ));
            assert(record@ =~= spec_upload_record(m0.sessions[k as int].meta, completed_at));
            assert(self@.sessions =~= m0.sessions.remove(k as int));
            assert(self@.completed =~= m0.completed.push(
                spec_upload_record(m0.sessions[k as int].meta, completed_at),
            ));
            assert(self@ =~= spec_complete(m0, k as int, completed_at));
            assert forall|j: int|
                0 <= j < self.transfers@.len() implies (#[trigger] self.transfers@[j]).wf() by {
                if j < k {
                    assert(self.transfers@[j] == old(self).transfers@[j]);
                } else {
                    assert(self.transfers@[j] == old(self).transfers@[j + 1]);
                }
            }
            assert forall|k1: int, k2: int|
                0 <= k1 < k2 < self.transfers@.len() implies self.transfers@[k1].metadata.id@
                != self.transfers@[k2].metadata.id@ by {
                let o1: int = if k1 < k { k1 } else { k1 + 1 };
                let o2: int = if k2 < k { k2 } else { k2 + 1 };
                assert(self.transfers@[k1] == old(self).transfers@[o1]);
                assert(self.transfers@[k2] == old(self).transfers@[o2]);
            }
            assert forall|j: int| 0 <= j < self.transfers@.len() implies exists|n: int|
                0 <= n < self.next_seq && (#[trigger] self.transfers@[j]).metadata.id@
                    == spec_transfer_id(n) by {
                let o: int = if j < k { j } else { j + 1 };
                let n = choose|n: int|
                    0 <= n < old(self).next_seq && old(self).transfers@[o].metadata.id@
                        == spec_transfer_id(n);
                assert(self.transfers@[j].metadata.id@ == spec_transfer_id(n));
            }
        }
        Ok(meta)
    }

    /// Completes a session, stamping the history record with the current
    /// wall clock.
    pub fn complete_transfer(&mut self, transfer_id: &str) -> (r: Result<
        TransferMetadata,
        TransferError,
    >)
        requires
            old(self).wf(),
        ensures
            final(self).wf(),
            !has_session(old(self)@, transfer_id@) ==> (r matches Err(
                TransferError::TransferNotFound(s),
            ) && s@ == transfer_id@ && final(self)@ == old(self)@),
            has_session(old(self)@, transfer_id@) ==> {
                let k = session_index(old(self)@, transfer_id@);
                let sess = old(self)@.sessions[k];
                let cnt = count_received(sess.chunks);
                &&& cnt < sess.meta.total_chunks ==> (r matches Err(
                    TransferError::IncompleteTransfer { expected, actual },
                ) && expected == sess.meta.total_chunks && actual == cnt && final(self)@ == old(
                    self,
                )@)
                &&& cnt == sess.meta.total_chunks ==> {
                    &&& r matches Ok(meta) && meta@ == spec_completed_metadata(
                        sess.meta,
                        sess.chunks,
                    )
                    &&& exists|at: i64| final(self)@ == #[trigger] spec_complete(old(self)@, k, at)
                }
            },
    {
        let now = now_millis();
        self.complete_transfer_at(transfer_id, now)
    }

    /// A read-only snapshot of a session's metadata, or nothing for an
    /// unknown (never created, completed, or cancelled) id. An active
    /// session is `Pending` or `InProgress`, its received count between one
    /// and its chunk count.
    pub fn get_transfer_status(&self, transfer_id: &str) -> (r: Option<TransferMetadata>)
        requires
            self.wf(),
        ensures
            match r {
                Some(m) => {
                    &&& has_session(self@, transfer_id@)
                    &&& m@ == self@.sessions[session_index(self@, transfer_id@)].meta
                    &&& m@.status matches StatusModel::InProgress { received_chunks } ==> 1
                        <= received_chunks <= m@.total_chunks
                },
                None => !has_session(self@, transfer_id@),
            },
    {
        match self.find_index(transfer_id) {
            None => None,
            Some(k) => {
                proof {
                    self.lemma_sessions_wf();
                    let sess = self@.sessions[k as int];
                    lemma_count_bounds(sess.chunks);
                }
                Some(self.transfers[k].metadata.snapshot())
            },
        }
    }

    /// Removes a session and discards its scratch storage; an unknown id is
    /// `TransferNotFound`.
    pub fn cancel_transfer(&mut self, transfer_id: &str) -> (r: Result<(), TransferError>)
        requires
            old(self).wf(),
        ensures
            final(self).wf(),
            !has_session(old(self)@, transfer_id@) ==> (r matches Err(
                TransferError::TransferNotFound(s),
            ) && s@ == transfer_id@ && final(self)@ == old(self)@),
            has_session(old(self)@, transfer_id@) ==> (r matches Ok(v) && v == () && final(self)@
                == (ManagerModel {
                sessions: old(self)@.sessions.remove(session_index(old(self)@, transfer_id@)),
                ..old(self)@
            })),
    {
        let k = match self.find_index(transfer_id) {
            None => {
                proof {
                    assert(self@ =~= old(self)@);
                }
                return Err(TransferError::TransferNotFound(transfer_id.to_owned()));
            },
            Some(k) => k,
        };
        let ghost m0 = self@;
        let _removed = self.transfers.remove(k);
        proof {
            assert(self@.sessions =~= m0.sessions.remove(k as int));
            assert(self@ =~= ManagerModel { sessions: m0.sessions.remove(k as int), ..m0 });
            assert forall|j: int|
                0 <= j < self.transfers@.len() implies (#[trigger] self.transfers@[j]).wf() by {
                if j < k {
                    assert(self.transfers@[j] == old(self).transfers@[j]);
                } else {
                    assert(self.transfers@[j] == old(self).transfers@[j + 1]);
                }
            }
            assert forall|k1: int, k2: int|
                0 <= k1 < k2 < self.transfers@.len() implies self.transfers@[k1].metadata.id@
                != self.transfers@[k2].metadata.id@ by {
                let o1: int = if k1 < k { k1 } else { k1 + 1 };
                let o2: int = if k2 < k { k2 } else { k2 + 1 };
                assert(self.transfers@[k1] == old(self).transfers@[o1]);
                assert(self.transfers@[k2] == old(self).transfers@[o2]);
            }
            assert forall|j: int| 0 <= j < self.transfers@.len() implies exists|n: int|
                0 <= n < self.next_seq && (#[trigger] self.transfers@[j]).metadata.id@
                    == spec_transfer_id(n) by {
                let o: int = if j < k { j } else { j + 1 };
                let n = choose|n: int|
                    0 <= n < old(self).next_seq && old(self).transfers@[o].metadata.id@
                        == spec_transfer_id(n);
                assert(self.transfers@[j].metadata.id@ == spec_transfer_id(n));
            }
        }
        Ok(())
    }

    /// The rank the next created session's id will carry.
    pub fn next_session_rank(&self) -> (r: u64)
        ensures
            r == self@.next_seq,
    {
        self.next_seq
    }

    /// The completed-upload history, oldest first.
    pub fn completed_history(&self) -> (r: &Vec<CompletedUpload>)
        ensures
            r@.len() == self@.completed.len(),
            forall|i: int| 0 <= i < r@.len() ==> (#[trigger] r@[i])@ == self@.completed[i],
    {
        &self.completed_uploads
    }

    /// The completed uploads grouped into batches: each upload in the one
    /// batch carrying its batch id, files ascending by completion time,
    /// batches stamped with and ordered descending by their latest
    /// completion time.
    pub fn list_upload_batches(&self) -> (r: Vec<UploadBatch>)
        ensures
            grouping_correct(batches_model(r@), self@.completed),
    {
        let r = group_uploads(&self.completed_uploads);
        proof {
            assert(uploads_model(self.completed_uploads@) =~= self@.completed);
        }
        r
    }

    /// The files of every completed upload recorded under `batch_id`, in
    /// completion order.
    pub fn files_for_batch(&self, batch_id: &str) -> (r: Vec<UploadedFile>)
        ensures
            files_model(r@) == files_with_batch(self@.completed, batch_id@),
    {
        let key: String = batch_id.to_owned();
        let n = self.completed_uploads.len();
        let ghost rs = uploads_model(self.completed_uploads@);
        let mut out: Vec<UploadedFile> = Vec::new();
        let mut i: usize = 0;
        while i < n
            invariant
                n == self.completed_uploads@.len(),
                rs == uploads_model(self.completed_uploads@),
                i <= n,
                key@ == batch_id@,
                files_model(out@) == files_with_batch(rs.take(i as int), batch_id@),
            decreases n - i,
        {
            let rec = &self.completed_uploads[i];
            proof {
                lemma_files_with_batch_step(rs, i as int, batch_id@);
            }
            let ghost out0 = out@;
            if rec.batch_id == key {
                out.push(
                    UploadedFile { name: rec.name.clone(), size: rec.size, uploaded_at: rec.uploaded_at },
                );
                proof {
                    assert(files_model(out@) =~= files_model(out0).push(file_of(rs[i as int])));
                }
            }
            i = i + 1;
        }
        proof {
            assert(rs.take(n as int) =~= rs);
            assert(rs =~= self@.completed);
        }
        out
    }
}

} // verus!
