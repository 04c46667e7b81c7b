use p2p_node_handshake::session::{HandshakeSession, Reply, Step};
use p2p_node_handshake::HandshakeError;

fn feed(s: &mut HandshakeSession, commands: &[&str]) -> Vec<Reply> {
    commands.iter().map(|c| s.on_message(&c.to_string())).collect()
}

#[test]
fn version_then_verack_completes() {
    let mut s = HandshakeSession::new();
    assert_eq!(s.next_step(false), Step::ReadFrame);
    let replies = feed(&mut s, &["version", "verack"]);
    assert_eq!(replies, vec![Reply::Verack, Reply::Nothing]);
    assert!(s.is_complete());
    assert_eq!(s.next_step(false), Step::Done);
}

#[test]
fn verack_then_version_completes() {
    let mut s = HandshakeSession::new();
    feed(&mut s, &["verack"]);
    assert!(!s.is_complete());
    feed(&mut s, &["sendcmpct", "version"]);
    assert!(s.is_complete());
    assert_eq!(s.next_step(true), Step::Done);
}

#[test]
fn verack_reply_is_sent_once() {
    let mut s = HandshakeSession::new();
    let replies = feed(&mut s, &["version", "version", "verack", "verack"]);
    assert_eq!(replies, vec![Reply::Verack, Reply::Nothing, Reply::Nothing, Reply::Nothing]);
}

#[test]
fn wtxidrelay_is_answered_each_time() {
    let mut s = HandshakeSession::new();
    let replies = feed(&mut s, &["wtxidrelay", "ping", "wtxidrelay"]);
    assert_eq!(replies, vec![Reply::Wtxidrelay, Reply::Nothing, Reply::Wtxidrelay]);
    assert!(!s.received_version && !s.received_verack);
}

#[test]
fn deadline_without_both_is_a_timeout() {
    let mut s = HandshakeSession::new();
    assert_eq!(s.next_step(true), Step::Fail(HandshakeError::HandshakeTimeout));
    feed(&mut s, &["version"]);
    assert_eq!(s.next_step(true), Step::Fail(HandshakeError::HandshakeTimeout));
}
