use p2p_node_handshake::retry::{failed_peers, PeerRetry, Decision};
use p2p_node_handshake::{ConnectFailure, HandshakeError};

#[test]
fn failing_peer_is_exhausted_after_limit() {
    let mut r = PeerRetry::new(3);
    let err = Err(HandshakeError::Connect(ConnectFailure::Refused));
    assert_eq!(r.on_attempt(&err), Decision::Retry);
    assert_eq!(r.on_attempt(&err), Decision::Retry);
    assert_eq!(r.on_attempt(&err), Decision::Exhausted);
    assert_eq!(r.attempts, 3);
}

#[test]
fn first_success_stops() {
    let mut r = PeerRetry::new(3);
    assert_eq!(r.on_attempt(&Ok(())), Decision::Succeeded);
    assert_eq!(r.attempts, 0);
}

#[test]
fn success_after_failure() {
    let mut r = PeerRetry::new(2);
    assert_eq!(r.on_attempt(&Err(HandshakeError::Timeout)), Decision::Retry);
    assert_eq!(r.on_attempt(&Ok(())), Decision::Succeeded);
}

#[test]
fn construction_errors_are_not_retried() {
    let mut r = PeerRetry::new(5);
    assert_eq!(r.on_attempt(&Err(HandshakeError::InvalidArgument)), Decision::Exhausted);
    let mut r = PeerRetry::new(5);
    assert_eq!(r.on_attempt(&Err(HandshakeError::AddressResolution)), Decision::Exhausted);
}

#[test]
fn reports_failed_peers() {
    let v = vec![Decision::Succeeded, Decision::Exhausted, Decision::Succeeded, Decision::Exhausted];
    assert_eq!(failed_peers(&v), vec![1, 3]);
    assert!(failed_peers(&vec![Decision::Succeeded]).is_empty());
}

#[test]
fn error_classification() {
    assert_eq!(HandshakeError::Connect(ConnectFailure::Refused).describe(), "Connection refused");
    assert_eq!(HandshakeError::Connect(ConnectFailure::Unreachable).describe(), "Network is unreachable");
    assert_eq!(HandshakeError::ChecksumMismatch.describe(), "Checksum mismatch");
    assert!(HandshakeError::BadMagic.is_retryable());
    assert!(!HandshakeError::InvalidArgument.is_retryable());
}
