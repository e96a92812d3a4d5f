//! The request and response shapes of the operation set, and the pure parts
//! of the request handlers: validation, status-code choice and envelope
//! building. The surrounding binary only decodes requests into these types,
//! calls here, and encodes what comes back.

use vstd::prelude::*;
use vstd::string::StringExecFns;
use crate::errors::TransferError;
use crate::registry::{
    has_session, opt_str_view, session_index, spec_create, spec_transfer_id, TransferManager,
};
use crate::session::{spec_total_chunks, MetadataModel, StatusModel, TransferMetadata};
use crate::text::{decimal, u64_to_string};

verus! {

/// The envelope every endpoint answers with.
#[derive(Debug)]
pub struct ApiResponse<T> {
    pub success: bool,
    pub data: Option<T>,
    pub error: Option<String>,
}

/// The body of a session-creation request.
#[derive(Debug)]
pub struct InitTransferRequest {
    pub filename: String,
    pub total_size: u64,
    pub chunk_size: usize,
    pub batch_id: Option<String>,
}

/// The payload answering a session-creation request.
#[derive(Debug)]
pub struct InitTransferResponse {
    pub transfer_id: String,
    pub total_chunks: usize,
}

/// The payload answering a chunk upload.
#[derive(Debug)]
pub struct ChunkResponse {
    pub chunk_hash: String,
    pub received_count: usize,
    pub total_chunks: usize,
}

/// The payload answering a status query.
#[derive(Debug)]
pub struct StatusResponse {
    pub transfer_id: String,
    pub status: String,
    pub progress: String,
}

/// The query string of a chunk download.
#[derive(Debug)]
pub struct ChunkDownloadQuery {
    pub index: usize,
    pub chunk_size: usize,
}

/// The status label a metadata snapshot answers with.
pub open spec fn spec_status_label(m: MetadataModel) -> Seq<char> {
    match m.status {
        StatusModel::Pending => "pending"@,
        StatusModel::InProgress { .. } => "in_progress"@,
        StatusModel::Completed { .. } => "completed"@,
        StatusModel::Failed { .. } => "failed"@,
    }
}

/// The progress field: whole percent of distinct chunks received, or the
/// failure reason.
pub open spec fn spec_progress(m: MetadataModel) -> Seq<char> {
    match m.status {
        StatusModel::Pending => "0%"@,
        StatusModel::InProgress { received_chunks } => decimal(
            received_chunks as int * 100 / m.total_chunks as int,
        ) + "%"@,
        StatusModel::Completed { .. } => "100%"@,
        StatusModel::Failed { reason } => reason,
    }
}

/// Builds the status-query payload for one session's metadata.
pub fn status_response(metadata: &TransferMetadata) -> (r: StatusResponse)
    requires
        metadata@.status matches StatusModel::InProgress { received_chunks } ==> 1
            <= received_chunks <= metadata@.total_chunks,
    ensures
        r.transfer_id@ == metadata@.id,
        r.status@ == spec_status_label(metadata@),
        r.progress@ == spec_progress(metadata@),
{
    let (status, progress): (String, String) = match &metadata.status {
        crate::session::TransferStatus::Pending => (
            String::from_str("pending"),
            String::from_str("0%"),
        ),
        crate::session::TransferStatus::InProgress { received_chunks } => {
            proof {
                let rcx = *received_chunks as int;
                let tot = metadata.total_chunks as int;
                assert(rcx * 100 / tot <= 100) by (nonlinear_arith)
                    requires
                        1 <= tot,
                        0 <= rcx <= tot,
                ;
            }
            let pct: u64 = ((*received_chunks as u128) * 100 / (metadata.total_chunks as u128))
                as u64;
            (String::from_str("in_progress"), u64_to_string(pct).concat("%"))
        },
        crate::session::TransferStatus::Completed { .. } => (
            String::from_str("completed"),
            String::from_str("100%"),
        ),
        crate::session::TransferStatus::Failed { reason } => (
            String::from_str("failed"),
            reason.clone(),
        ),
    };
    StatusResponse { transfer_id: metadata.id.clone(), status, progress }
}

/// Builds the chunk-upload payload: the chunk's digest and the progress
/// counters read off the session's metadata.
pub fn chunk_response(chunk_hash: String, metadata: &TransferMetadata) -> (r: ChunkResponse)
    ensures
        r.chunk_hash == chunk_hash,
        r.total_chunks == metadata@.total_chunks,
        r.received_count == (match metadata@.status {
            StatusModel::InProgress { received_chunks } => received_chunks,
            _ => metadata@.total_chunks,
        }),
{
    let received_count = match &metadata.status {
        crate::session::TransferStatus::InProgress { received_chunks } => *received_chunks,
        _ => metadata.total_chunks,
    };
    ChunkResponse { chunk_hash, received_count, total_chunks: metadata.total_chunks }
}

/// The whole session-creation handler but the wire: rejects
/// `chunk_size == 0` with status 400 and creates nothing, otherwise opens
/// the session and answers 200 with its id and chunk count.
pub fn init_transfer(manager: &mut TransferManager, req: InitTransferRequest) -> (r: (
    u16,
    ApiResponse<InitTransferResponse>,
))
    requires
        old(manager).wf(),
        old(manager)@.next_seq < u64::MAX,
        req.chunk_size > 0 ==> spec_total_chunks(req.total_size as int, req.chunk_size as int)
            <= usize::MAX,
    ensures
        final(manager).wf(),
        req.chunk_size == 0 ==> {
            &&& r.0 == 400
            &&& !r.1.success && r.1.data is None
            &&& r.1.error matches Some(msg) && msg@ == "Invalid chunk_size: must be greater than 0"@
            &&& final(manager)@ == old(manager)@
        },
        req.chunk_size > 0 ==> {
            &&& r.0 == 200
            &&& r.1.success && r.1.error is None
            &&& r.1.data matches Some(d) && d.transfer_id@ == spec_transfer_id(
                old(manager)@.next_seq as int,
            ) && d.total_chunks == spec_total_chunks(req.total_size as int, req.chunk_size as int)
            &&& exists|t: i64|
                final(manager)@ == #[trigger] spec_create(
                    old(manager)@,
                    req.filename@,
                    req.total_size,
                    req.chunk_size,
                    opt_str_view(req.batch_id),
                    t,
                )
        },
{
    if req.chunk_size == 0 {
        return (
            400,
            ApiResponse {
                success: false,
                data: None,
                error: Some(String::from_str("Invalid chunk_size: must be greater than 0")),
            },
        );
    }
    let total_chunks = crate::session::compute_total_chunks(req.total_size, req.chunk_size);
    match manager.init_transfer(req.filename, req.total_size, req.chunk_size, req.batch_id) {
        Ok(transfer_id) => (
            200,
            ApiResponse {
                success: true,
                data: Some(InitTransferResponse { transfer_id, total_chunks }),
                error: None,
            },
        ),
        Err(_) => unreached(),
    }
}

/// The byte range a chunk download asks for: `None` when the requested
/// chunk size is zero or the chunk starts at or past the end of the file,
/// otherwise the start offset and the length, clipped to the end of the
/// file.
pub fn chunk_range(file_size: u64, query: &ChunkDownloadQuery) -> (r: Option<(u64, u64)>)
    ensures
        ({
            let index = query.index;
            let chunk_size = query.chunk_size;
            &&& chunk_size == 0 ==> r is None
            &&& chunk_size > 0 ==> {
                &&& index * chunk_size >= file_size ==> r is None
                &&& index * chunk_size < file_size ==> (r matches Some((start, len)) && start
                    == index * chunk_size && len == if index * chunk_size + chunk_size
                    <= file_size {
                    chunk_size as u64
                } else {
                    (file_size - index * chunk_size) as u64
                })
            }
        }),
{
    let index = query.index;
    let chunk_size = query.chunk_size;
    if chunk_size == 0 {
        return None;
    }
    proof {
        assert((index as u128) * (chunk_size as u128) < u128::MAX) by (nonlinear_arith)
            requires
                0 <= index as u128 <= u64::MAX,
                0 <= chunk_size as u128 <= u64::MAX,
        ;
    }
    let start128: u128 = (index as u128) * (chunk_size as u128);
    if start128 >= file_size as u128 {
        return None;
    }
    let start: u64 = start128 as u64;
    let remaining: u64 = file_size - start;
    let len: u64 = if (chunk_size as u128) <= (remaining as u128) {
        chunk_size as u64
    } else {
        remaining
    };
    Some((start, len))
}

/// The health-check envelope.
pub fn health_response() -> (r: ApiResponse<String>)
    ensures
        r.success,
        r.data matches Some(d) && d@ == "healthy"@,
        r.error is None,
{
    ApiResponse { success: true, data: Some(String::from_str("healthy")), error: None }
}

} // verus!
