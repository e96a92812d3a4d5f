use neurolink::errors::TransferError;
use neurolink::registry::TransferManager;
use neurolink::session::TransferStatus;
use sha2::{Digest, Sha256};

fn sha256_hex(data: &[u8]) -> String {
    let mut hasher = Sha256::new();
    hasher.update(data);
    hex::encode(hasher.finalize())
}

fn total_chunks_of(manager: &mut TransferManager, total_size: u64, chunk_size: usize) -> usize {
    let id = manager
        .init_transfer("probe".to_string(), total_size, chunk_size, None)
        .unwrap();
    manager.get_transfer_status(&id).unwrap().total_chunks
}

#[test]
fn total_chunks_is_ceiling_division() {
    let mut m = TransferManager::new();
    assert_eq!(total_chunks_of(&mut m, 0, 1000), 0);
    assert_eq!(total_chunks_of(&mut m, 1, 1000), 1);
    assert_eq!(total_chunks_of(&mut m, 999, 1000), 1);
    assert_eq!(total_chunks_of(&mut m, 1000, 1000), 1);
    assert_eq!(total_chunks_of(&mut m, 1001, 1000), 2);
    assert_eq!(total_chunks_of(&mut m, 1500, 1000), 2);
    assert_eq!(total_chunks_of(&mut m, 100, 10), 10);
    assert_eq!(total_chunks_of(&mut m, 1025, 1024), 2);
}

#[test]
fn zero_chunk_size_creates_no_session() {
    let mut m = TransferManager::new();
    let result = m.init_transfer("x".to_string(), 10, 0, None);
    match result {
        Err(TransferError::InvalidChunkSize) => {},
        _ => panic!("expected InvalidChunkSize"),
    }
    // The id that would have been handed out next is still unused.
    let id = m.init_transfer("y".to_string(), 10, 10, None).unwrap();
    assert_eq!(id, "trans_0");
}

#[test]
fn out_of_range_index_leaves_count_unchanged() {
    let mut m = TransferManager::new();
    let id = m.init_transfer("f".to_string(), 100, 10, None).unwrap();
    m.receive_chunk(&id, 0, vec![1u8; 10]).unwrap();

    let before = m.get_transfer_status(&id).unwrap();
    match m.receive_chunk(&id, 10, vec![2u8; 10]) {
        Err(TransferError::ChunkOutOfOrder { expected, got }) => {
            assert_eq!(expected, 10);
            assert_eq!(got, 10);
        },
        _ => panic!("expected ChunkOutOfOrder"),
    }
    let after = m.get_transfer_status(&id).unwrap();
    match (before.status, after.status) {
        (
            TransferStatus::InProgress { received_chunks: b },
            TransferStatus::InProgress { received_chunks: a },
        ) => {
            assert_eq!(b, 1);
            assert_eq!(a, 1);
        },
        _ => panic!("expected InProgress before and after"),
    }
}

#[test]
fn duplicate_index_counts_once_and_keeps_last_bytes() {
    let mut m = TransferManager::new();
    let id = m.init_transfer("f".to_string(), 8, 4, None).unwrap();
    m.receive_chunk(&id, 0, vec![0xAA; 4]).unwrap();
    m.receive_chunk(&id, 1, vec![0xBB; 4]).unwrap();
    // Resend index 0 with different bytes: count stays 2, bytes replaced.
    m.receive_chunk(&id, 0, vec![0xCC; 4]).unwrap();
    match m.get_transfer_status(&id).unwrap().status {
        TransferStatus::InProgress { received_chunks } => assert_eq!(received_chunks, 2),
        _ => panic!("expected InProgress"),
    }
    let bytes = m.reassemble(&id).unwrap();
    assert_eq!(bytes, [vec![0xCC; 4], vec![0xBB; 4]].concat());
}

#[test]
fn incomplete_transfer_reports_expected_and_actual() {
    let mut m = TransferManager::new();
    let id = m.init_transfer("f".to_string(), 100, 10, None).unwrap();
    for i in 0..9 {
        m.receive_chunk(&id, i, vec![0u8; 10]).unwrap();
    }
    match m.complete_transfer(&id) {
        Err(TransferError::IncompleteTransfer { expected, actual }) => {
            assert_eq!(expected, 10);
            assert_eq!(actual, 9);
        },
        _ => panic!("expected IncompleteTransfer"),
    }
    // The session survives the failed completion.
    assert!(m.get_transfer_status(&id).is_some());
}

#[test]
fn out_of_order_arrival_reassembles_in_index_order() {
    let mut m = TransferManager::new();
    let id = m.init_transfer("a.bin".to_string(), 1500, 1000, None).unwrap();
    // Submit index 1 first (500 zero bytes), then index 0 (1000 zero bytes).
    m.receive_chunk(&id, 1, vec![0u8; 500]).unwrap();
    m.receive_chunk(&id, 0, vec![0u8; 1000]).unwrap();

    let bytes = m.reassemble(&id).unwrap();
    assert_eq!(bytes.len(), 1500);
    assert!(bytes.iter().all(|b| *b == 0));

    let meta = m.complete_transfer_at(&id, 77).unwrap();
    match meta.status {
        TransferStatus::Completed { final_hash } => {
            assert_eq!(final_hash, sha256_hex(&vec![0u8; 1500]));
        },
        _ => panic!("expected Completed"),
    }
    // Completed sessions are evicted.
    assert!(m.get_transfer_status(&id).is_none());
}

#[test]
fn submission_order_does_not_change_the_hash() {
    let chunk_a = vec![1u8; 300];
    let chunk_b = vec![2u8; 200];

    let mut m1 = TransferManager::new();
    let id1 = m1.init_transfer("f".to_string(), 500, 300, None).unwrap();
    m1.receive_chunk(&id1, 0, chunk_a.clone()).unwrap();
    m1.receive_chunk(&id1, 1, chunk_b.clone()).unwrap();
    let h1 = match m1.complete_transfer(&id1).unwrap().status {
        TransferStatus::Completed { final_hash } => final_hash,
        _ => panic!("expected Completed"),
    };

    let mut m2 = TransferManager::new();
    let id2 = m2.init_transfer("f".to_string(), 500, 300, None).unwrap();
    m2.receive_chunk(&id2, 1, chunk_b.clone()).unwrap();
    m2.receive_chunk(&id2, 0, chunk_a.clone()).unwrap();
    let h2 = match m2.complete_transfer(&id2).unwrap().status {
        TransferStatus::Completed { final_hash } => final_hash,
        _ => panic!("expected Completed"),
    };

    assert_eq!(h1, h2);
    assert_eq!(h1, sha256_hex(&[chunk_a, chunk_b].concat()));
}

#[test]
fn reassembled_length_is_sum_of_chunk_lengths_not_declared_size() {
    let mut m = TransferManager::new();
    // Declared 1500 bytes, but the caller sends 700 + 100 = 800.
    let id = m.init_transfer("liar.bin".to_string(), 1500, 1000, None).unwrap();
    m.receive_chunk(&id, 0, vec![7u8; 700]).unwrap();
    m.receive_chunk(&id, 1, vec![9u8; 100]).unwrap();
    let bytes = m.reassemble(&id).unwrap();
    assert_eq!(bytes.len(), 800);
    let meta = m.complete_transfer(&id).unwrap();
    match meta.status {
        TransferStatus::Completed { final_hash } => {
            assert_eq!(final_hash, sha256_hex(&bytes));
        },
        _ => panic!("expected Completed"),
    }
}

#[test]
fn chunk_hash_is_the_sha256_of_the_chunk() {
    let mut m = TransferManager::new();
    let id = m.init_transfer("h".to_string(), 5, 5, None).unwrap();
    let hash = m.receive_chunk(&id, 0, b"hello".to_vec()).unwrap();
    assert_eq!(hash, "2cf24dba5fb0a30e26e83b2ac5b9e29e1b161e5c1fa7425e73043362938b9824");
}

#[test]
fn zero_byte_file_needs_no_chunks() {
    // Under the ceiling formula a 0-byte file has 0 chunks, so completion
    // succeeds at once with an empty payload.
    let mut m = TransferManager::new();
    let id = m.init_transfer("empty".to_string(), 0, 1024, None).unwrap();
    assert_eq!(m.get_transfer_status(&id).unwrap().total_chunks, 0);
    let bytes = m.reassemble(&id).unwrap();
    assert_eq!(bytes.len(), 0);
    let meta = m.complete_transfer(&id).unwrap();
    match meta.status {
        TransferStatus::Completed { final_hash } => {
            // SHA-256 of the empty byte string.
            assert_eq!(
                final_hash,
                "e3b0c44298fc1c149afbf4c8996fb92427ae41e4649b934ca495991b7852b855"
            );
        },
        _ => panic!("expected Completed"),
    }
}

#[test]
fn batches_group_and_order_by_time() {
    let mut m = TransferManager::new();

    let id1 = m.init_transfer("p.txt".to_string(), 4, 4, Some("B1".to_string())).unwrap();
    m.receive_chunk(&id1, 0, vec![1u8; 4]).unwrap();
    m.complete_transfer_at(&id1, 10).unwrap();

    let id2 = m.init_transfer("q.txt".to_string(), 4, 4, Some("B1".to_string())).unwrap();
    m.receive_chunk(&id2, 0, vec![2u8; 4]).unwrap();
    m.complete_transfer_at(&id2, 20).unwrap();

    let batches = m.list_upload_batches();
    assert_eq!(batches.len(), 1);
    assert_eq!(batches[0].batch_id, "B1");
    assert_eq!(batches[0].uploaded_at, 20);
    assert_eq!(batches[0].files.len(), 2);
    assert_eq!(batches[0].files[0].name, "p.txt");
    assert_eq!(batches[0].files[0].uploaded_at, 10);
    assert_eq!(batches[0].files[1].name, "q.txt");
    assert_eq!(batches[0].files[1].uploaded_at, 20);
}

#[test]
fn batches_are_listed_most_recent_first() {
    let mut m = TransferManager::new();

    for (name, batch, at) in [
        ("a", "early", 5i64),
        ("b", "late", 50),
        ("c", "middle", 30),
    ] {
        let id = m
            .init_transfer(name.to_string(), 1, 1, Some(batch.to_string()))
            .unwrap();
        m.receive_chunk(&id, 0, vec![0u8]).unwrap();
        m.complete_transfer_at(&id, at).unwrap();
    }

    let batches = m.list_upload_batches();
    assert_eq!(batches.len(), 3);
    assert_eq!(batches[0].batch_id, "late");
    assert_eq!(batches[1].batch_id, "middle");
    assert_eq!(batches[2].batch_id, "early");
}

#[test]
fn upload_without_batch_id_gets_synthetic_batch() {
    let mut m = TransferManager::new();
    let id = m.init_transfer("solo.txt".to_string(), 1, 1, None).unwrap();
    m.receive_chunk(&id, 0, vec![0u8]).unwrap();
    m.complete_transfer_at(&id, 42).unwrap();

    let batches = m.list_upload_batches();
    assert_eq!(batches.len(), 1);
    assert_eq!(batches[0].batch_id, format!("single_{}", id));
    assert_eq!(batches[0].files.len(), 1);
    assert_eq!(batches[0].files[0].name, "solo.txt");
}

#[test]
fn cancel_removes_the_session() {
    let mut m = TransferManager::new();
    let id = m.init_transfer("gone".to_string(), 10, 5, None).unwrap();
    m.cancel_transfer(&id).unwrap();
    assert!(m.get_transfer_status(&id).is_none());
    match m.cancel_transfer(&id) {
        Err(TransferError::TransferNotFound(s)) => assert_eq!(s, id),
        _ => panic!("expected TransferNotFound"),
    }
}

#[test]
fn abandoned_sessions_persist() {
    // Nothing reclaims a session that is never completed or cancelled.
    let mut m = TransferManager::new();
    let id = m.init_transfer("stale".to_string(), 10, 5, None).unwrap();
    for _ in 0..5 {
        let other = m.init_transfer("busy".to_string(), 4, 4, None).unwrap();
        m.receive_chunk(&other, 0, vec![0u8; 4]).unwrap();
        m.complete_transfer(&other).unwrap();
    }
    assert!(m.get_transfer_status(&id).is_some());
}

#[test]
fn session_ids_are_unique() {
    let mut m = TransferManager::new();
    let a = m.init_transfer("a".to_string(), 1, 1, None).unwrap();
    let b = m.init_transfer("b".to_string(), 1, 1, None).unwrap();
    let c = m.init_transfer("c".to_string(), 1, 1, None).unwrap();
    assert_eq!(a, "trans_0");
    assert_eq!(b, "trans_1");
    assert_eq!(c, "trans_2");
    assert_ne!(a, b);
    assert_ne!(b, c);
}

#[test]
fn receive_chunk_unknown_session_fails() {
    let mut m = TransferManager::new();
    match m.receive_chunk("trans_99", 0, vec![0u8]) {
        Err(TransferError::TransferNotFound(s)) => assert_eq!(s, "trans_99"),
        _ => panic!("expected TransferNotFound"),
    }
}

#[test]
fn reassemble_demands_a_known_complete_session() {
    let mut m = TransferManager::new();
    match m.reassemble("trans_3") {
        Err(TransferError::TransferNotFound(s)) => assert_eq!(s, "trans_3"),
        _ => panic!("expected TransferNotFound"),
    }
    let id = m.init_transfer("f".to_string(), 20, 10, None).unwrap();
    m.receive_chunk(&id, 1, vec![0u8; 10]).unwrap();
    match m.reassemble(&id) {
        Err(TransferError::IncompleteTransfer { expected, actual }) => {
            assert_eq!(expected, 2);
            assert_eq!(actual, 1);
        },
        _ => panic!("expected IncompleteTransfer"),
    }
}

#[test]
fn files_for_batch_filters_by_id() {
    let mut m = TransferManager::new();
    for (name, batch, at) in [("a", "B1", 1i64), ("b", "B2", 2), ("c", "B1", 3)] {
        let id = m
            .init_transfer(name.to_string(), 1, 1, Some(batch.to_string()))
            .unwrap();
        m.receive_chunk(&id, 0, vec![0u8]).unwrap();
        m.complete_transfer_at(&id, at).unwrap();
    }
    let files = m.files_for_batch("B1");
    assert_eq!(files.len(), 2);
    assert_eq!(files[0].name, "a");
    assert_eq!(files[1].name, "c");
    assert!(m.files_for_batch("B3").is_empty());
}
