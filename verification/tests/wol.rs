use wol::endpoint::Endpoint;
use wol::error::{response_status, ResolutionFailure, WakeError};
use wol::mac::parse_mac;
use wol::packet::MagicPacket;
use wol::resolve::{bytes_equal, contains_bytes, wake_inner, MatchPolicy};

const MAC: [u8; 6] = [0xAA, 0xBB, 0xCC, 0xDD, 0xEE, 0xFF];

#[test]
fn build_has_length_102() {
    let packet = MagicPacket::new(&MAC);
    assert_eq!(packet.magic_bytes().len(), 102);
}

#[test]
fn build_header_is_all_ff() {
    let packet = MagicPacket::new(&[0x00, 0x11, 0x22, 0x33, 0x44, 0x55]);
    let bytes = packet.magic_bytes();
    for i in 0..6 {
        assert_eq!(bytes[i], 0xFF);
    }
}

#[test]
fn build_repeats_mac_sixteen_times() {
    let mac = [0x01, 0x02, 0x03, 0x04, 0x05, 0x06];
    let packet = MagicPacket::new(&mac);
    let bytes = packet.magic_bytes();
    for i in 0..16 {
        assert_eq!(&bytes[6 + 6 * i..12 + 6 * i], &mac);
    }
}

#[test]
fn build_is_deterministic() {
    let first = MagicPacket::new(&MAC);
    let second = MagicPacket::new(&MAC);
    assert_eq!(first.magic_bytes(), second.magic_bytes());
}

#[test]
fn build_known_mac_full_layout() {
    let packet = MagicPacket::new(&MAC);
    let bytes = packet.magic_bytes();
    let mut expected: Vec<u8> = vec![0xFF; 6];
    for _ in 0..16 {
        expected.extend_from_slice(&MAC);
    }
    assert_eq!(expected.len(), 102);
    assert_eq!(&bytes[..], &expected[..]);
}

#[test]
fn parse_mac_accepts_canonical_uppercase() {
    assert_eq!(parse_mac(b"AA:BB:CC:DD:EE:FF").unwrap(), MAC);
}

#[test]
fn parse_mac_accepts_lowercase() {
    assert_eq!(parse_mac(b"aa:bb:cc:dd:ee:ff").unwrap(), MAC);
}

#[test]
fn parse_mac_accepts_short_groups() {
    assert_eq!(
        parse_mac(b"a:b:c:d:e:f").unwrap(),
        [0x0A, 0x0B, 0x0C, 0x0D, 0x0E, 0x0F]
    );
    assert_eq!(
        parse_mac(b"01:2:03:4:05:6").unwrap(),
        [0x01, 0x02, 0x03, 0x04, 0x05, 0x06]
    );
}

#[test]
fn parse_mac_rejects_wrong_separator() {
    assert!(matches!(
        parse_mac(b"AA-BB-CC-DD-EE-FF"),
        Err(WakeError::InvalidAddress)
    ));
}

#[test]
fn parse_mac_rejects_non_hex() {
    assert!(matches!(
        parse_mac(b"GG:BB:CC:DD:EE:FF"),
        Err(WakeError::InvalidAddress)
    ));
    assert!(matches!(
        parse_mac(b"AA:BB:CC:DD:EE:F_"),
        Err(WakeError::InvalidAddress)
    ));
}

#[test]
fn parse_mac_rejects_wrong_group_count() {
    assert!(matches!(
        parse_mac(b"AA:BB:CC:DD:EE"),
        Err(WakeError::InvalidAddress)
    ));
    assert!(matches!(
        parse_mac(b"AA:BB:CC:DD:EE:FF:11"),
        Err(WakeError::InvalidAddress)
    ));
}

#[test]
fn parse_mac_rejects_malformed_shapes() {
    assert!(matches!(parse_mac(b""), Err(WakeError::InvalidAddress)));
    assert!(matches!(
        parse_mac(b"AA:BB:CC:DD:EE:FF:"),
        Err(WakeError::InvalidAddress)
    ));
    assert!(matches!(
        parse_mac(b":AA:BB:CC:DD:EE:FF"),
        Err(WakeError::InvalidAddress)
    ));
    assert!(matches!(
        parse_mac(b"AAA:BB:CC:DD:EE:FF"),
        Err(WakeError::InvalidAddress)
    ));
    assert!(matches!(
        parse_mac(b"AA: BB:CC:DD:EE:FF"),
        Err(WakeError::InvalidAddress)
    ));
}

const ARP_FIXTURE: &[u8] = b"Address HWtype HWaddress Flags Mask Iface\n\
workstation ether aa:bb:cc:dd:ee:ff C eth0\n\
printer ether 11:22:33:44:55:66 C eth0\n";

#[test]
fn load_possible_hosts_parses_table() {
    let entries = wol::arp::load_possible_hosts(ARP_FIXTURE).unwrap();
    assert_eq!(entries.len(), 2);
    assert_eq!(entries[0].host, b"workstation".to_vec());
    assert_eq!(entries[0].mac, MAC);
    assert_eq!(entries[1].host, b"printer".to_vec());
    assert_eq!(entries[1].mac, [0x11, 0x22, 0x33, 0x44, 0x55, 0x66]);
}

#[test]
fn load_possible_hosts_empty_output() {
    let entries = wol::arp::load_possible_hosts(b"").unwrap();
    assert_eq!(entries.len(), 0);
}

#[test]
fn load_possible_hosts_header_only() {
    let entries =
        wol::arp::load_possible_hosts(b"Address HWtype HWaddress Flags Mask Iface\n").unwrap();
    assert_eq!(entries.len(), 0);
}

#[test]
fn load_possible_hosts_rejects_bad_mac() {
    let table = b"Address HWtype HWaddress Flags Mask Iface\nhost ether zz:bb:cc:dd:ee:ff C eth0\n";
    assert!(matches!(
        wol::arp::load_possible_hosts(table),
        Err(WakeError::InvalidAddress)
    ));
}

#[test]
fn load_possible_hosts_rejects_short_line() {
    let table = b"Address HWtype HWaddress Flags Mask Iface\nhost ether\n";
    assert!(matches!(
        wol::arp::load_possible_hosts(table),
        Err(WakeError::InvalidAddress)
    ));
}

#[test]
fn wake_inner_first_substring_match() {
    let packet = wake_inner(ARP_FIXTURE, b"work", MatchPolicy::FirstSubstring).unwrap();
    let bytes = packet.magic_bytes();
    for i in 0..6 {
        assert_eq!(bytes[i], 0xFF);
    }
    for i in 0..16 {
        assert_eq!(&bytes[6 + 6 * i..12 + 6 * i], &MAC);
    }
}

#[test]
fn wake_inner_picks_first_of_several_matches() {
    let packet = wake_inner(ARP_FIXTURE, b"r", MatchPolicy::FirstSubstring).unwrap();
    // both "workstation" and "printer" contain an "r"; the first entry wins
    assert_eq!(&packet.magic_bytes()[6..12], &MAC);
}

#[test]
fn wake_inner_no_match_lists_candidates() {
    let r = wake_inner(ARP_FIXTURE, b"laptop", MatchPolicy::FirstSubstring);
    match r {
        Err(WakeError::ResolutionError {
            failure,
            candidates,
        }) => {
            assert_eq!(failure, ResolutionFailure::NotFound);
            assert_eq!(candidates.len(), 2);
            assert_eq!(candidates[0], b"workstation".to_vec());
            assert_eq!(candidates[1], b"printer".to_vec());
        }
        _ => panic!("expected a resolution error"),
    }
}

#[test]
fn wake_inner_unique_policy_rejects_ambiguity() {
    let r = wake_inner(ARP_FIXTURE, b"r", MatchPolicy::UniqueSubstring);
    match r {
        Err(WakeError::ResolutionError {
            failure,
            candidates,
        }) => {
            assert_eq!(failure, ResolutionFailure::Ambiguous);
            assert_eq!(candidates.len(), 2);
        }
        _ => panic!("expected an ambiguity error"),
    }
}

#[test]
fn wake_inner_unique_policy_accepts_single_match() {
    let packet = wake_inner(ARP_FIXTURE, b"print", MatchPolicy::UniqueSubstring).unwrap();
    assert_eq!(&packet.magic_bytes()[6..12], &[0x11, 0x22, 0x33, 0x44, 0x55, 0x66]);
}

#[test]
fn wake_inner_exact_policy() {
    assert!(wake_inner(ARP_FIXTURE, b"printer", MatchPolicy::Exact).is_ok());
    assert!(matches!(
        wake_inner(ARP_FIXTURE, b"print", MatchPolicy::Exact),
        Err(WakeError::ResolutionError { .. })
    ));
}

#[test]
fn wake_inner_empty_pattern_matches_first_host() {
    let packet = wake_inner(ARP_FIXTURE, b"", MatchPolicy::FirstSubstring).unwrap();
    assert_eq!(&packet.magic_bytes()[6..12], &MAC);
}

#[test]
fn wake_inner_rejects_malformed_table() {
    let table = b"Address HWtype HWaddress Flags Mask Iface\nhost ether not-a-mac C eth0\n";
    assert!(matches!(
        wake_inner(table, b"host", MatchPolicy::FirstSubstring),
        Err(WakeError::InvalidAddress)
    ));
}

#[test]
fn contains_bytes_edges() {
    assert!(contains_bytes(b"workstation", b""));
    assert!(contains_bytes(b"workstation", b"station"));
    assert!(!contains_bytes(b"work", b"workstation"));
    assert!(!contains_bytes(b"", b"a"));
    assert!(contains_bytes(b"", b""));
}

#[test]
fn bytes_equal_edges() {
    assert!(bytes_equal(b"", b""));
    assert!(bytes_equal(b"abc", b"abc"));
    assert!(!bytes_equal(b"abc", b"abd"));
    assert!(!bytes_equal(b"abc", b"ab"));
}

#[test]
fn response_status_maps_outcomes() {
    assert_eq!(response_status(&Ok(())), 202);
    assert_eq!(response_status(&Err(WakeError::SendError)), 500);
    assert_eq!(response_status(&Err(WakeError::BindError)), 500);
}

#[test]
fn error_kind_names() {
    assert_eq!(WakeError::InvalidAddress.kind_name(), "invalid address");
    assert_eq!(WakeError::BindError.kind_name(), "bind error");
    assert_eq!(
        WakeError::BroadcastEnableError.kind_name(),
        "broadcast enable error"
    );
    assert_eq!(WakeError::SendError.kind_name(), "send error");
}

#[test]
fn endpoint_defaults() {
    let dest = Endpoint::default_destination();
    assert_eq!(dest.addr, [255, 255, 255, 255]);
    assert_eq!(dest.port, 9);
    let src = Endpoint::default_source();
    assert_eq!(src.addr, [0, 0, 0, 0]);
    assert_eq!(src.port, 0);
}
