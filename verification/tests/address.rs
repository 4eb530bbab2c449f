use p2p_chat::address::{decimal_text, first_peer, listen_address};

#[test]
fn decimal_notation() {
    assert_eq!(decimal_text(0), "0");
    assert_eq!(decimal_text(9), "9");
    assert_eq!(decimal_text(10), "10");
    assert_eq!(decimal_text(1234567890), "1234567890");
    assert_eq!(decimal_text(u64::MAX), u64::MAX.to_string());
}

#[test]
fn listen_addresses() {
    assert_eq!(listen_address(0), "/ip4/0.0.0.0/tcp/0");
    assert_eq!(listen_address(8000), "/ip4/0.0.0.0/tcp/8000");
    assert_eq!(listen_address(65535), "/ip4/0.0.0.0/tcp/65535");
    assert_ne!(listen_address(1), listen_address(11));
}

#[test]
fn listen_addresses_are_multiaddresses() {
    let parsed: libp2p::Multiaddr = listen_address(8000).parse().unwrap();
    assert_eq!(parsed.to_string(), "/ip4/0.0.0.0/tcp/8000");
}

#[test]
fn first_peer_of_an_address() {
    assert_eq!(first_peer(&vec![]), None);
    assert_eq!(first_peer(&vec![None, None]), None);
    let parts = vec![None, Some("a".to_string()), None, Some("b".to_string())];
    assert_eq!(first_peer(&parts), Some("a".to_string()));
}
