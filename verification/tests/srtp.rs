use vchat::webrtc::srtp::{SrtpContext, SrtpProfile};
use vchat::transport::SrtpSession;

fn make_rtp_packet(seq: u16, ssrc: u32, payload: &[u8]) -> Vec<u8> {
    let mut pkt = Vec::with_capacity(12 + payload.len());
    pkt.push(0x80);
    pkt.push(0x60);
    pkt.extend_from_slice(&seq.to_be_bytes());
    pkt.extend_from_slice(&0u32.to_be_bytes());
    pkt.extend_from_slice(&ssrc.to_be_bytes());
    pkt.extend_from_slice(payload);
    pkt
}

#[test]
fn test_srtp_roundtrip_aes128() {
    let shared_secret = [0x42u8; 32];
    let ssrc = 0x12345678;
    let mut tx = SrtpContext::from_shared_secret(&shared_secret, 0, ssrc, SrtpProfile::Aes128CtrHmacSha1_80);
    let mut rx = SrtpContext::from_shared_secret(&shared_secret, 1, ssrc, SrtpProfile::Aes128CtrHmacSha1_80);
    let plaintext = make_rtp_packet(100, ssrc, b"hello world");
    let protected = tx.protect_rtp(&plaintext);
    assert!(protected.len() > plaintext.len());
    let unprotected = rx.unprotect_rtp(&protected).expect("unprotect should succeed");
    assert_eq!(unprotected, plaintext);
}

#[test]
fn test_srtp_roundtrip_aes256() {
    let shared_secret = [0x42u8; 32];
    let ssrc = 0x12345678;
    let mut tx = SrtpContext::from_shared_secret(&shared_secret, 0, ssrc, SrtpProfile::Aes256CtrHmacSha1_80);
    let mut rx = SrtpContext::from_shared_secret(&shared_secret, 1, ssrc, SrtpProfile::Aes256CtrHmacSha1_80);
    let plaintext = make_rtp_packet(100, ssrc, b"hello world");
    let protected = tx.protect_rtp(&plaintext);
    let unprotected = rx.unprotect_rtp(&protected).expect("unprotect should succeed");
    assert_eq!(unprotected, plaintext);
}

#[test]
fn test_srtp_wrong_key_fails() {
    let shared_secret = [0x42u8; 32];
    let wrong_secret = [0x43u8; 32];
    let ssrc = 0x12345678;
    let mut tx = SrtpContext::from_shared_secret(&shared_secret, 0, ssrc, SrtpProfile::Aes128CtrHmacSha1_80);
    let mut rx = SrtpContext::from_shared_secret(&wrong_secret, 1, ssrc, SrtpProfile::Aes128CtrHmacSha1_80);
    let plaintext = make_rtp_packet(100, ssrc, b"hello world");
    let protected = tx.protect_rtp(&plaintext);
    let result = rx.unprotect_rtp(&protected);
    assert!(result.is_err());
}

#[test]
fn test_srtp_rollover() {
    let shared_secret = [0x42u8; 32];
    let ssrc = 0x12345678;
    let mut tx = SrtpContext::from_shared_secret(&shared_secret, 0, ssrc, SrtpProfile::Aes128CtrHmacSha1_80);
    let mut rx = SrtpContext::from_shared_secret(&shared_secret, 1, ssrc, SrtpProfile::Aes128CtrHmacSha1_80);
    for i in 0..10u16 {
        let seq = 65530u16.wrapping_add(i);
        let plaintext = make_rtp_packet(seq, ssrc, &[i as u8; 16]);
        let protected = tx.protect_rtp(&plaintext);
        let unprotected = rx.unprotect_rtp(&protected).expect("unprotect should succeed");
        assert_eq!(unprotected, plaintext);
    }
    assert_eq!(rx.roc(), 1);
}

#[test]
fn test_srtcp_roundtrip() {
    let shared_secret = [0x42u8; 32];
    let ssrc = 0x12345678;
    let mut tx = SrtpContext::from_shared_secret(&shared_secret, 0, ssrc, SrtpProfile::Aes128CtrHmacSha1_80);
    let mut rx = SrtpContext::from_shared_secret(&shared_secret, 1, ssrc, SrtpProfile::Aes128CtrHmacSha1_80);
    let plaintext = b"RTCP Sender Report";
    let protected = tx.protect_rtcp(plaintext);
    let unprotected = rx.unprotect_rtcp(&protected).expect("unprotect should succeed");
    assert_eq!(unprotected, plaintext);
}

#[test]
fn srtp_tag_is_ten_bytes_and_header_kept() {
    let mut tx = SrtpContext::from_shared_secret(&[1u8; 32], 0, 7, SrtpProfile::Aes128CtrHmacSha1_80);
    let plaintext = make_rtp_packet(1, 7, &[0u8; 32]);
    let protected = tx.protect_rtp(&plaintext);
    assert_eq!(protected.len(), plaintext.len() + 10);
    assert_eq!(&protected[..12], &plaintext[..12]);
    assert_ne!(&protected[12..44], &plaintext[12..]);
}

#[test]
fn srtp_short_packets_refused() {
    let mut rx = SrtpContext::from_shared_secret(&[1u8; 32], 0, 7, SrtpProfile::Aes128CtrHmacSha1_80);
    assert_eq!(rx.unprotect_rtp(&[0x80, 0x60, 0, 1]), Err("packet too short"));
    assert_eq!(rx.unprotect_rtcp(&[1, 2, 3]), Err("packet too short"));
    let mut tx = SrtpContext::from_shared_secret(&[1u8; 32], 0, 7, SrtpProfile::Aes128CtrHmacSha1_80);
    let mut protected = tx.protect_rtp(&make_rtp_packet(5, 7, b"abc"));
    protected[12] ^= 0xff;
    assert_eq!(rx.unprotect_rtp(&protected), Err("authentication failed"));
}

#[test]
fn srtp_derive_checks_lengths() {
    assert!(SrtpContext::derive(&[0u8; 16], &[0u8; 14], 0, 1, SrtpProfile::Aes128CtrHmacSha1_80).is_ok());
    assert!(SrtpContext::derive(&[0u8; 15], &[0u8; 14], 0, 1, SrtpProfile::Aes128CtrHmacSha1_80).is_err());
    assert!(SrtpContext::derive(&[0u8; 32], &[0u8; 14], 0, 1, SrtpProfile::Aes256CtrHmacSha1_80).is_ok());
}

#[test]
fn srtp_roc_and_last_seq_track_packets() {
    let mut tx = SrtpContext::from_shared_secret(&[4u8; 32], 0, 9, SrtpProfile::Aes128CtrHmacSha1_80);
    assert_eq!(tx.roc(), 0);
    let _ = tx.protect_rtp(&make_rtp_packet(300, 9, b"x"));
    assert_eq!(tx.last_seq(), 300);
    assert_eq!(tx.roc(), 0);
}

#[test]
fn srtp_sessions_carry_a_stream_both_ways() {
    let secret = [0x17u8; 32];
    let ssrc = 0x0badcafe;
    let tx_ctx = SrtpContext::from_shared_secret(&secret, 0, ssrc, SrtpProfile::Aes128CtrHmacSha1_80);
    let rx_ctx = SrtpContext::from_shared_secret(&secret, 1, ssrc, SrtpProfile::Aes128CtrHmacSha1_80);
    let mut tx = SrtpSession::new(tx_ctx, ssrc);
    let mut rx = SrtpSession::new(rx_ctx, ssrc);
    assert_eq!(tx.ssrc(), ssrc);
    let packet = make_rtp_packet(7, ssrc, b"voice");
    let protected = tx.protect_rtp(&packet);
    assert_ne!(&protected[12..17], b"voice");
    assert_eq!(rx.unprotect_rtp(&protected).unwrap(), packet);
    let report = vec![0x81u8, 0xc8, 0x00, 0x06, 1, 2, 3, 4];
    let sealed = tx.protect_rtcp(&report);
    assert_eq!(sealed.len(), report.len() + 10);
    assert_eq!(rx.unprotect_rtcp(&sealed).unwrap(), report);
    assert_eq!(rx.unprotect_rtp(&[0u8; 4]), Err("packet too short"));
}
