use hoorayhug::generate::{draw_prefix, generate_dynamic_obfs};
use hoorayhug::handshake::{Handshake, HandshakeAction, HandshakeError, HandshakeEvent};
use hoorayhug::mode::{held_or_plain, parse_obfs_mode, MODE_CLIENT, MODE_PLAIN, MODE_SERVER};
use hoorayhug::prefix::{decode_header, ObfsError, OBFS_KEY, PROBE_STALL_SECS};
use hoorayhug::rng::SimpleRng;

fn head(prefix: &[u8]) -> [u8; 5] {
    [prefix[0], prefix[1], prefix[2], prefix[3], prefix[4]]
}

fn drawn(seed: u64, key: &str) -> Vec<u8> {
    draw_prefix(&mut SimpleRng::from_seed(seed), key)
}

fn refused(plain: &[u8; 5]) -> bool {
    decode_header(plain, "") == Err(ObfsError::ActiveProbe)
}

#[test]
fn numbers_follow_from_the_seed() {
    let mut rng = SimpleRng::from_seed(42);
    let numbers: Vec<u32> = (0..6).map(|_| rng.next_range(0, 9)).collect();
    assert_eq!(numbers, vec![4, 7, 5, 8, 9, 7]);
}

#[test]
fn numbers_at_the_ends_of_the_ranges() {
    let mut rng = SimpleRng::from_seed(u64::MAX);
    assert_eq!(rng.next_range(5, 5), 5);
    assert_eq!(rng.next_range(0, u32::MAX - 1), 4025637771);
    assert_eq!(rng.next_range(10, 20), 14);
}

#[test]
fn numbers_stay_in_range() {
    let mut rng = SimpleRng::new().unwrap();
    for _ in 0..1000 {
        let n = rng.next_range(3, 7);
        assert!((3..=7).contains(&n));
    }
}

#[test]
fn prefix_with_two_digits() {
    assert_eq!(
        drawn(2876733420928160347, OBFS_KEY),
        vec![89, 93, 189, 142, 67, 197, 17, 252, 244, 157, 136, 71, 19, 55, 128, 54, 232]
    );
}

#[test]
fn prefix_with_two_digits_and_no_key() {
    let prefix = drawn(2876733420928160347, "");
    assert_eq!(&prefix[..5], &[49, 50, 210, 252, 34]);
    assert_eq!(&prefix[5..], &[197, 17, 252, 244, 157, 136, 71, 19, 55, 128, 54, 232]);
}

#[test]
fn prefix_with_three_digits() {
    let prefix = drawn(17211470238789031163, OBFS_KEY);
    assert_eq!(prefix.len(), 5 + 104);
    assert_eq!(&prefix[..10], &[89, 249, 95, 97, 85, 93, 159, 218, 240, 118]);
    assert_eq!(&prefix[105..], &[217, 249, 138, 70]);
}

#[test]
fn prefix_with_three_digits_of_which_the_first_is_zero() {
    assert_eq!(
        drawn(16576130177263863786, OBFS_KEY),
        vec![
            116, 165, 95, 67, 84, 127, 77, 128, 82, 6, 128, 7, 20, 104, 173, 76, 103, 187, 144, 236
        ]
    );
}

#[test]
fn generator_ends_past_the_prefix() {
    let mut rng = SimpleRng::from_seed(2876733420928160347);
    draw_prefix(&mut rng, OBFS_KEY);
    let mut same = SimpleRng::from_seed(11340516759134077197);
    assert_eq!(rng.next_range(0, 1_000_000), same.next_range(0, 1_000_000));
}

#[test]
fn every_prefix_announces_its_garbage() {
    let mut seed: u64 = 1;
    for _ in 0..2000 {
        for key in [OBFS_KEY, "", "k", "key of many bytes"] {
            let prefix = drawn(seed, key);
            assert_eq!(decode_header(&head(&prefix), key), Ok(prefix.len() - 5));
            assert!((15..=1004).contains(&prefix.len()));
        }
        seed = seed.wrapping_mul(0x9E37_79B9_7F4A_7C15).wrapping_add(7);
    }
}

#[test]
fn fresh_prefix_is_accepted() {
    let prefix = generate_dynamic_obfs(OBFS_KEY).unwrap();
    assert_eq!(decode_header(&head(&prefix), OBFS_KEY), Ok(prefix.len() - 5));
}

#[test]
fn headers_that_announce_a_length() {
    assert_eq!(decode_header(b"4a2bc", ""), Ok(42));
    assert_eq!(decode_header(b"ab1c0", ""), Ok(10));
    assert_eq!(decode_header(b"99xxx", ""), Ok(99));
    assert_eq!(decode_header(b"1x2y3", ""), Ok(123));
    assert_eq!(decode_header(b"0x1y0", ""), Ok(10));
    assert_eq!(decode_header(b"9x9y9", ""), Ok(999));
    assert_eq!(decode_header(b"1:0/\xff", ""), Ok(10));
}

#[test]
fn headers_that_no_peer_sent() {
    assert!(refused(b"GET /"));
    assert!(refused(b"abcd1"));
    assert!(refused(b"1234a"));
    assert!(refused(b"12345"));
    assert!(refused(b"0a5bc"));
    assert!(refused(b"0a0b7"));
    assert!(refused(&[0, 0, 0, 0, 0]));
}

#[test]
fn header_under_a_key() {
    let key = "abc";
    let header = [b'4' ^ b'a', b'x' ^ b'b', b'2' ^ b'c', b'y' ^ b'a', b'z' ^ b'b'];
    assert_eq!(decode_header(&header, key), Ok(42));
    assert_eq!(decode_header(b"4x2yz", key), Err(ObfsError::ActiveProbe));
}

#[test]
fn refusal_has_a_text() {
    assert_eq!(ObfsError::ActiveProbe.message(), "Active probe silently dropped");
}

#[test]
fn modes_of_the_option() {
    assert_eq!(parse_obfs_mode("client"), 1);
    assert_eq!(parse_obfs_mode("server"), 2);
    assert_eq!(parse_obfs_mode(""), 0);
    assert_eq!(parse_obfs_mode("Client"), 0);
    assert_eq!(parse_obfs_mode("clients"), 0);
    assert_eq!(parse_obfs_mode("servez"), 0);
}

#[test]
fn mode_of_a_task() {
    assert_eq!(held_or_plain(None), MODE_PLAIN);
    assert_eq!(held_or_plain(Some(2)), 2);
    assert_eq!(held_or_plain(Some(7)), 7);
}

#[test]
fn client_writes_then_flushes_then_relays() {
    let (mut state, action) = Handshake::begin::<u8>(MODE_CLIENT).unwrap();
    assert_eq!(state, Handshake::Writing);
    match action {
        HandshakeAction::Write(prefix) => {
            assert_eq!(decode_header(&head(&prefix), OBFS_KEY), Ok(prefix.len() - 5))
        }
        other => panic!("{:?}", other),
    }
    assert_eq!(state.step(HandshakeEvent::<u8>::Done), HandshakeAction::Flush);
    assert_eq!(state.step(HandshakeEvent::<u8>::Done), HandshakeAction::Relay);
    assert_eq!(state, Handshake::Open);
}

#[test]
fn server_reads_a_prefix_to_its_end() {
    let prefix = drawn(17211470238789031163, OBFS_KEY);
    let (mut state, action) = Handshake::begin::<u8>(MODE_SERVER).unwrap();
    assert_eq!(action, HandshakeAction::ReadHeader);
    let header = HandshakeEvent::<u8>::Header(head(&prefix));
    assert!(state.is_expecting(&header));
    assert_eq!(state.step(header), HandshakeAction::ReadGarbage(104));
    assert_eq!(state, Handshake::AwaitingGarbage(104));
    assert_eq!(state.step(HandshakeEvent::<u8>::Done), HandshakeAction::Relay);
    assert_eq!(state, Handshake::Open);
}

#[test]
fn server_stalls_and_drops_a_probe() {
    let (mut state, _) = Handshake::begin::<u8>(MODE_SERVER).unwrap();
    let action = state.step(HandshakeEvent::<u8>::Header(*b"GET /"));
    assert_eq!(action, HandshakeAction::Stall(PROBE_STALL_SECS));
    assert_eq!(PROBE_STALL_SECS, 3);
    assert_eq!(
        state.step(HandshakeEvent::<u8>::Done),
        HandshakeAction::Fail(HandshakeError::Obfs(ObfsError::ActiveProbe))
    );
    assert_eq!(state, Handshake::Closed);
}

#[test]
fn plain_connections_need_no_opening() {
    for mode in [MODE_PLAIN, 3, 255] {
        let (state, action) = Handshake::begin::<u8>(mode).unwrap();
        assert_eq!(state, Handshake::Open);
        assert_eq!(action, HandshakeAction::Relay);
    }
}

#[test]
fn failures_end_the_opening() {
    for start in [
        Handshake::Writing,
        Handshake::Flushing,
        Handshake::AwaitingHeader,
        Handshake::AwaitingGarbage(20),
    ] {
        let mut state = start;
        assert!(state.is_expecting(&HandshakeEvent::Failed(9u8)));
        assert_eq!(
            state.step(HandshakeEvent::Failed(9u8)),
            HandshakeAction::Fail(HandshakeError::Io(9))
        );
        assert_eq!(state, Handshake::Closed);
    }
}

#[test]
fn events_out_of_turn() {
    assert!(!Handshake::AwaitingHeader.is_expecting(&HandshakeEvent::<u8>::Done));
    assert!(!Handshake::Writing.is_expecting(&HandshakeEvent::<u8>::Header([0; 5])));
    assert!(!Handshake::Stalling.is_expecting(&HandshakeEvent::Failed(1u8)));
    assert!(!Handshake::Open.is_expecting(&HandshakeEvent::<u8>::Done));
    assert!(!Handshake::Closed.is_expecting(&HandshakeEvent::<u8>::Done));
}
