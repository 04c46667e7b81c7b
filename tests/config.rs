use p2p_node_handshake::HandTool;

#[test]
fn new_tool_is_empty_with_two_attempts() {
    let t = HandTool::new();
    assert!(t.get_nodes().is_empty());
    assert_eq!(t.get_max_handshake_attempts(), 2);
}

#[test]
fn duplicates_collapse() {
    let mut t = HandTool::new();
    t.add_node(&"a:1".to_string());
    t.add_node(&"b:2".to_string());
    t.add_node(&"a:1".to_string());
    assert_eq!(t.get_nodes().len(), 2);
}

#[test]
fn remove_node_removes() {
    let mut t = HandTool::new();
    t.add_node(&"a:1".to_string());
    t.add_node(&"b:2".to_string());
    t.remove_node("a:1".to_string());
    t.remove_node("zzz".to_string());
    assert_eq!(t.get_nodes(), &vec!["b:2".to_string()]);
}

#[test]
fn invalid_attempt_limits_are_ignored() {
    let mut t = HandTool::new();
    t.set_max_handshake_attempts(3);
    assert_eq!(t.get_max_handshake_attempts(), 3);
    t.set_max_handshake_attempts(0);
    t.set_max_handshake_attempts(-4);
    assert_eq!(t.get_max_handshake_attempts(), 3);
}

#[test]
fn default_has_two_seed_nodes() {
    let t = HandTool::default();
    assert_eq!(t.get_nodes().len(), 2);
    assert!(t.get_nodes().contains(&"seed.testnet.bitcoin.sprovoost.nl:18333".to_string()));
    assert_eq!(t.get_max_handshake_attempts(), 2);
}
