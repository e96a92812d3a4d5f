use neurolink::api;
use neurolink::api::InitTransferRequest;
use neurolink::registry::TransferManager;

#[test]
fn test_init_transfer_success() {
    let mut manager = TransferManager::new();
    let result = manager.init_transfer("test.txt".to_string(), 1024, 512, None);
    assert!(result.is_ok());
    let transfer_id = result.unwrap();
    assert!(transfer_id.starts_with("trans_"));
}

#[test]
fn test_init_transfer_zero_chunk_size_fails() {
    let mut manager = TransferManager::new();
    let result = manager.init_transfer("test.txt".to_string(), 1024, 0, None);
    assert!(result.is_err());
    assert!(result.unwrap_err().message().contains("chunk_size must be greater than 0"));
}

#[test]
fn test_receive_chunk_success() {
    let mut manager = TransferManager::new();
    let transfer_id = manager.init_transfer("test.txt".to_string(), 1024, 512, None).unwrap();

    let chunk_data = vec![0u8; 512];
    let result = manager.receive_chunk(&transfer_id, 0, chunk_data);
    assert!(result.is_ok());
}

#[test]
fn test_receive_out_of_range_chunk_fails() {
    let mut manager = TransferManager::new();
    let transfer_id = manager.init_transfer("test.txt".to_string(), 1024, 512, None).unwrap();
    // File is 1024 bytes with 512 byte chunks = 2 chunks (indices 0 and 1)
    // Index 5 is out of range
    let chunk_data = vec![0u8; 512];
    let result = manager.receive_chunk(&transfer_id, 5, chunk_data);
    assert!(result.is_err());
}

#[test]
fn test_complete_transfer_with_missing_chunks_fails() {
    let mut manager = TransferManager::new();
    let transfer_id = manager.init_transfer("test.txt".to_string(), 1024, 512, None).unwrap();
    // Only send 1 of 2 chunks
    let chunk_data = vec![0u8; 512];
    manager.receive_chunk(&transfer_id, 0, chunk_data).unwrap();

    // Try to complete with missing chunk
    let result = manager.complete_transfer(&transfer_id);
    assert!(result.is_err());
}

#[test]
fn test_complete_transfer_success() {
    let mut manager = TransferManager::new();
    let transfer_id = manager.init_transfer("test.txt".to_string(), 1024, 1024, None).unwrap();
    // Send the only chunk
    let chunk_data = vec![0u8; 1024];
    manager.receive_chunk(&transfer_id, 0, chunk_data).unwrap();

    // Complete should succeed
    let result = manager.complete_transfer(&transfer_id);
    assert!(result.is_ok());
}

#[test]
fn test_get_transfer_status() {
    let mut manager = TransferManager::new();
    let transfer_id = manager.init_transfer("test.txt".to_string(), 1024, 512, None).unwrap();

    let status = manager.get_transfer_status(&transfer_id);
    assert!(status.is_some());
}

#[test]
fn test_get_nonexistent_transfer_status() {
    let manager = TransferManager::new();
    let status = manager.get_transfer_status("nonexistent");
    assert!(status.is_none());
}

#[test]
fn init_transfer_zero_chunk_size_returns_bad_request() {
    let mut manager = TransferManager::new();
    let req = InitTransferRequest {
        filename: "test.txt".to_string(),
        total_size: 1024,
        chunk_size: 0,
        batch_id: None,
    };

    let (status, response) = api::init_transfer(&mut manager, req);
    assert_eq!(status, 400);
    assert!(!response.success);
}

#[test]
fn routes_init_transfer_zero_chunk_size_returns_bad_request() {
    let mut manager = TransferManager::new();
    let req = InitTransferRequest {
        filename: "test.txt".to_string(),
        total_size: 1024,
        chunk_size: 0,
        batch_id: None,
    };

    let (status, response) = api::init_transfer(&mut manager, req);
    assert_eq!(status, 400);
    assert!(response.error.is_some());
}
