use vchat::file_transfer::{
    chunk_count, file_digest_hex, make_offer, FileChunk, FileOffer, FileTransferManager, TransferStatus, CHUNK_SIZE,
};

fn offer(size: u64) -> FileOffer {
    FileOffer {
        file_id: "f1".to_string(),
        file_name: "photo.jpg".to_string(),
        file_size: size,
        sha3sum: "00".to_string(),
        mime_type: "image/jpeg".to_string(),
        sender: "alice".to_string(),
        conversation_id: "c1".to_string(),
    }
}

fn chunk(n: usize) -> FileChunk {
    FileChunk { file_id: "f1".to_string(), chunk_index: 0, data: vec![7u8; n], checksum: String::new() }
}

#[test]
fn chunk_counts_round_up() {
    assert_eq!(chunk_count(0, CHUNK_SIZE), 0);
    assert_eq!(chunk_count(1, CHUNK_SIZE), 1);
    assert_eq!(chunk_count(65536, CHUNK_SIZE), 1);
    assert_eq!(chunk_count(65537, CHUNK_SIZE), 2);
    assert_eq!(chunk_count(10, 3), 4);
    assert_eq!(chunk_count(u64::MAX, 1), u32::MAX);
    assert_eq!(chunk_count(u64::MAX, 2), u32::MAX);
}

#[test]
fn digest_of_empty_file() {
    assert_eq!(
        file_digest_hex(&[]),
        "a7ffc6f8bf1ed76651c14756a061d662f580ff4de43b49fa82d80a4b80f8434a"
    );
}

#[test]
fn offer_comes_from_local_side() {
    let o = make_offer("c1".to_string(), "a.txt".to_string(), 5, "ab".to_string(), "text/plain".to_string());
    assert_eq!(o.sender, "local");
    assert_eq!(o.file_size, 5);
    assert_eq!(o.file_name, "a.txt");
    assert_eq!(o.file_id.len(), 36);
    let o2 = make_offer("c1".to_string(), "a.txt".to_string(), 5, "ab".to_string(), "text/plain".to_string());
    assert_ne!(o.file_id, o2.file_id);
}

#[test]
fn accepted_transfer_starts_in_progress() {
    let mut m = FileTransferManager::new();
    let id = m.accept_file(offer(100_000), 1234);
    let t = m.get_transfer(&id).unwrap();
    assert_eq!(t.status, TransferStatus::InProgress);
    assert_eq!(t.recipient, "local");
    assert_eq!(t.sender, "alice");
    assert_eq!(t.bytes_transferred, 0);
    assert_eq!(t.total_chunks, 2);
    assert_eq!(t.chunk_size, 65536);
    assert_eq!(t.created_at, 1234);
    assert_eq!(t.completed_at, None);
    assert_eq!(m.list_transfers().len(), 1);
    assert_eq!(m.progress(&id), Some((0, 100_000)));
}

#[test]
fn chunks_complete_a_transfer() {
    let mut m = FileTransferManager::new();
    let id = m.accept_file(offer(100), 1);
    m.send_chunk(&id, &chunk(60), 5);
    let t = m.get_transfer(&id).unwrap();
    assert_eq!(t.bytes_transferred, 60);
    assert_eq!(t.status, TransferStatus::InProgress);
    m.send_chunk(&id, &chunk(40), 9);
    let t = m.get_transfer(&id).unwrap();
    assert_eq!(t.bytes_transferred, 100);
    assert_eq!(t.status, TransferStatus::Completed);
    assert_eq!(t.completed_at, Some(9));
    m.send_chunk("unknown", &chunk(40), 9);
    assert_eq!(m.list_transfers().len(), 1);
}

#[test]
fn pause_resume_cancel() {
    let mut m = FileTransferManager::new();
    let id = m.accept_file(offer(100), 1);
    assert!(m.resume_transfer(&id).is_ok());
    assert_eq!(m.get_transfer(&id).unwrap().status, TransferStatus::InProgress);
    m.pause_transfer(&id).unwrap();
    assert_eq!(m.get_transfer(&id).unwrap().status, TransferStatus::Paused);
    m.resume_transfer(&id).unwrap();
    assert_eq!(m.get_transfer(&id).unwrap().status, TransferStatus::InProgress);
    m.cancel_transfer(&id).unwrap();
    assert_eq!(m.get_transfer(&id).unwrap().status, TransferStatus::Cancelled);
    m.resume_transfer(&id).unwrap();
    assert_eq!(m.get_transfer(&id).unwrap().status, TransferStatus::Cancelled);
    assert!(m.cancel_transfer("nope").is_ok());
    assert!(m.get_transfer("nope").is_none());
    assert_eq!(m.progress("nope"), None);
}
