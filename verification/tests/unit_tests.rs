use neurolink::api;
use neurolink::api::InitTransferRequest;
use neurolink::display::format_size;
use neurolink::errors::TransferError;
use neurolink::files::{sort_shared_files_desc, SharedFile};
use neurolink::ports::is_unsafe_browser_port;
use neurolink::registry::TransferManager;
use neurolink::text::u64_to_string;

#[test]
fn decimal_rendering() {
    assert_eq!(u64_to_string(0), "0");
    assert_eq!(u64_to_string(7), "7");
    assert_eq!(u64_to_string(10), "10");
    assert_eq!(u64_to_string(1024), "1024");
    assert_eq!(u64_to_string(u64::MAX), "18446744073709551615");
}

#[test]
fn format_size_exact_values() {
    assert_eq!(format_size(0), "0.00 B");
    assert_eq!(format_size(512), "512.00 B");
    assert_eq!(format_size(1023), "1023.00 B");
    assert_eq!(format_size(1024), "1.00 KB");
    assert_eq!(format_size(1025), "1.00 KB");
    assert_eq!(format_size(1536), "1.50 KB");
    // 1152 / 1024 = 1.125: ties round to even.
    assert_eq!(format_size(1152), "1.12 KB");
    // 1048575 / 1024 = 1023.999...: rounds up across the integer boundary.
    assert_eq!(format_size(1048575), "1024.00 KB");
    assert_eq!(format_size(1048576), "1.00 MB");
    assert_eq!(format_size(5 * 1048576 + 1048576 / 4), "5.25 MB");
    assert_eq!(format_size(1073741824), "1.00 GB");
    assert_eq!(format_size(1099511627776), "1.00 TB");
    assert_eq!(format_size(3 * 1099511627776), "3.00 TB");
}

#[test]
fn unsafe_browser_ports() {
    assert!(is_unsafe_browser_port(1));
    assert!(is_unsafe_browser_port(22));
    assert!(is_unsafe_browser_port(6000));
    assert!(is_unsafe_browser_port(10080));
    assert!(!is_unsafe_browser_port(80));
    assert!(!is_unsafe_browser_port(3000));
    assert!(!is_unsafe_browser_port(3030));
    assert!(!is_unsafe_browser_port(8080));
}

#[test]
fn error_messages() {
    assert_eq!(
        TransferError::TransferNotFound("trans_7".to_string()).message(),
        "Transfer not found: trans_7"
    );
    assert_eq!(
        TransferError::ChunkOutOfOrder { expected: 10, got: 12 }.message(),
        "Chunk out of order: expected 10, got 12"
    );
    assert_eq!(
        TransferError::InvalidChunkSize.message(),
        "chunk_size must be greater than 0"
    );
    assert_eq!(
        TransferError::IncompleteTransfer { expected: 10, actual: 9 }.message(),
        "Transfer incomplete: expected 10 chunks, received 9"
    );
    assert_eq!(TransferError::InvalidChunkHash.message(), "Invalid chunk hash");
    assert_eq!(TransferError::FileTooLarge.message(), "File too large");
    assert_eq!(
        TransferError::Io("disk full".to_string()).message(),
        "IO error: disk full"
    );
}

#[test]
fn init_request_success_envelope() {
    let mut manager = TransferManager::new();
    let req = InitTransferRequest {
        filename: "a.bin".to_string(),
        total_size: 1500,
        chunk_size: 1000,
        batch_id: None,
    };
    let (status, response) = api::init_transfer(&mut manager, req);
    assert_eq!(status, 200);
    assert!(response.success);
    let data = response.data.unwrap();
    assert_eq!(data.total_chunks, 2);
    assert_eq!(data.transfer_id, "trans_0");
}

#[test]
fn status_response_progress() {
    let mut m = TransferManager::new();
    let id = m.init_transfer("f".to_string(), 100, 25, None).unwrap();

    let meta = m.get_transfer_status(&id).unwrap();
    let resp = api::status_response(&meta);
    assert_eq!(resp.status, "pending");
    assert_eq!(resp.progress, "0%");

    m.receive_chunk(&id, 0, vec![0u8; 25]).unwrap();
    m.receive_chunk(&id, 1, vec![0u8; 25]).unwrap();
    let meta = m.get_transfer_status(&id).unwrap();
    let resp = api::status_response(&meta);
    assert_eq!(resp.transfer_id, id);
    assert_eq!(resp.status, "in_progress");
    assert_eq!(resp.progress, "50%");
}

#[test]
fn chunk_response_counters() {
    let mut m = TransferManager::new();
    let id = m.init_transfer("f".to_string(), 20, 10, None).unwrap();
    let hash = m.receive_chunk(&id, 0, vec![3u8; 10]).unwrap();
    let meta = m.get_transfer_status(&id).unwrap();
    let resp = api::chunk_response(hash.clone(), &meta);
    assert_eq!(resp.chunk_hash, hash);
    assert_eq!(resp.received_count, 1);
    assert_eq!(resp.total_chunks, 2);
}

fn query(index: usize, chunk_size: usize) -> api::ChunkDownloadQuery {
    api::ChunkDownloadQuery { index, chunk_size }
}

#[test]
fn chunk_range_clips_to_file_end() {
    assert_eq!(api::chunk_range(1500, &query(0, 1000)), Some((0, 1000)));
    assert_eq!(api::chunk_range(1500, &query(1, 1000)), Some((1000, 500)));
    assert_eq!(api::chunk_range(1500, &query(2, 1000)), None);
    assert_eq!(api::chunk_range(1500, &query(0, 0)), None);
    assert_eq!(api::chunk_range(0, &query(0, 100)), None);
}

#[test]
fn health_envelope() {
    let resp = api::health_response();
    assert!(resp.success);
    assert_eq!(resp.data.unwrap(), "healthy");
    assert!(resp.error.is_none());
}

#[test]
fn shared_files_sort_newest_first() {
    let mut files = vec![
        SharedFile { name: "old".to_string(), size: 1, modified_at: 10 },
        SharedFile { name: "new".to_string(), size: 2, modified_at: 30 },
        SharedFile { name: "mid".to_string(), size: 3, modified_at: 20 },
    ];
    sort_shared_files_desc(&mut files);
    assert_eq!(files[0].name, "new");
    assert_eq!(files[1].name, "mid");
    assert_eq!(files[2].name, "old");
}
