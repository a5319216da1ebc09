use vchat::webrtc::ice::{decode_chunk, encode_chunk, split_frame, MediaChunk};
use vchat::webrtc::media::{pcm_to_rtp_timestamp, CapturedFrame, FrameHeader, MediaPipeline};
use vchat::webrtc::MediaFrameKind;

#[test]
fn pipeline_protect_unprotect_round_trip() {
    let key = [7u8; 32];
    let mut tx = MediaPipeline::new(key);
    tx.ensure_tracks(100);
    let mut rx = MediaPipeline::new(key);
    rx.ensure_tracks(100);

    let payload = vec![0xAA; 1024];
    let protected = tx
        .protect(CapturedFrame::new(MediaFrameKind::Video, 90000, 101, payload.clone()))
        .expect("protect should succeed");

    let out = rx.unprotect(101, &protected).expect("unprotect should succeed");
    assert_eq!(out.data, payload);
}

#[test]
fn pipeline_round_trip_every_track() {
    let key = [3u8; 32];
    let mut tx = MediaPipeline::new(key);
    tx.ensure_tracks(500);
    let mut rx = MediaPipeline::new(key);
    rx.ensure_tracks(500);
    for (kind, ssrc) in [(MediaFrameKind::Voice, 500u32), (MediaFrameKind::Video, 501), (MediaFrameKind::Screen, 502)] {
        for n in 0..3u8 {
            let payload = vec![n; 40 + n as usize];
            let protected = tx.protect(CapturedFrame::new(kind, 1000 * n as u32, ssrc, payload.clone())).unwrap();
            let out = rx.unprotect(ssrc, &protected).unwrap();
            assert_eq!(out.kind, kind);
            assert_eq!(out.data, payload);
            assert_eq!(out.rtp_timestamp, 1000 * n as u32);
        }
    }
}

#[test]
fn pipeline_without_tracks_refuses() {
    let mut tx = MediaPipeline::new([1u8; 32]);
    assert!(tx.protect(CapturedFrame::new(MediaFrameKind::Voice, 0, 1, vec![1, 2, 3])).is_none());
    let mut rx = MediaPipeline::new([1u8; 32]);
    assert!(rx.unprotect(1, &[0u8; 8]).is_none());
}

#[test]
fn pipeline_tampered_packet_refused() {
    let key = [9u8; 32];
    let mut tx = MediaPipeline::new(key);
    tx.ensure_tracks(10);
    let mut rx = MediaPipeline::new(key);
    rx.ensure_tracks(10);
    let mut protected = tx.protect(CapturedFrame::new(MediaFrameKind::Voice, 0, 10, vec![5u8; 64])).unwrap();
    let n = protected.len();
    protected[n - 20] ^= 1;
    assert!(rx.unprotect(10, &protected).is_none());
}

#[test]
fn pipeline_oversized_payload_refused() {
    let mut tx = MediaPipeline::new([2u8; 32]);
    tx.ensure_tracks(1);
    let big = vec![0u8; 1_000_000];
    assert!(tx.protect(CapturedFrame::new(MediaFrameKind::Video, 0, 2, big)).is_none());
}

#[test]
fn frame_header_fields() {
    let h = FrameHeader::from(1, 0, 12, 90000, 4096);
    assert_eq!(h.kind, 1);
    assert_eq!(h.track, 0);
    assert_eq!(h.ctx_seq, 12);
    assert_eq!(h.rtp_timestamp, 90000);
    assert_eq!(h.payload_len, 4096);
}

#[test]
fn pcm_timestamp_counts_milliseconds() {
    assert_eq!(pcm_to_rtp_timestamp(960), 20 * 48);
    assert_eq!(pcm_to_rtp_timestamp(47), 0);
    assert_eq!(pcm_to_rtp_timestamp(48_000), 48_000);
}

#[test]
fn chunk_encode_decode_round_trip() {
    let chunk = MediaChunk { frame_id: 7, offset: 2400, total: 3000, data: vec![1, 2, 3, 4] };
    let bytes = encode_chunk(&chunk);
    assert_eq!(&bytes[..4], &[4, 0, 0, 0]);
    let back = decode_chunk(&bytes).expect("decodes");
    assert_eq!(back.frame_id, 7);
    assert_eq!(back.offset, 2400);
    assert_eq!(back.total, 3000);
    assert_eq!(back.data, vec![1, 2, 3, 4]);
    assert!(decode_chunk(&bytes[..5]).is_none());
}

#[test]
fn split_frame_covers_data() {
    let data: Vec<u8> = (0..3000u32).map(|i| (i % 251) as u8).collect();
    let chunks = split_frame(9, &data);
    let mut joined = Vec::new();
    for c in chunks.iter() {
        assert_eq!(c.frame_id, 9);
        assert_eq!(c.offset as usize, joined.len());
        assert_eq!(c.total, 3000);
        joined.extend_from_slice(&c.data);
    }
    assert!(chunks.len() >= 2);
    assert_eq!(joined, data);
}

#[test]
fn chunks_decode_before_trailing_bytes() {
    let chunk = MediaChunk { frame_id: 3, offset: 1200, total: 5000, data: vec![9, 8, 7] };
    let mut bytes = encode_chunk(&chunk);
    bytes.extend_from_slice(&[0xff; 10]);
    let back = decode_chunk(&bytes).expect("decodes");
    assert_eq!((back.frame_id, back.offset, back.total), (3, 1200, 5000));
    assert_eq!(back.data, vec![9, 8, 7]);
}
