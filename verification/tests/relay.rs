use std::time::{Duration, UNIX_EPOCH};

use hoorayhug::buffer::{read_len, BufCtl, CopyAction, CopyBuffer, WriteZero};
use hoorayhug::clock::{epoch_nanos, epoch_subsec_nanos, nanos_of, subsec_nanos_of, ClockError};
use hoorayhug::generate::draw_prefix;
use hoorayhug::listener::{listener_step, AcceptError, ListenerAction, ListenerEvent};
use hoorayhug::prefix::{decode_header, OBFS_KEY};
use hoorayhug::rng::SimpleRng;
use hoorayhug::transfer::{
    after_backward, after_forward, bidi_step, transfer, BidiAction, BidiEvent, BidiState, Readiness,
    ShutdownPolicy, TransferAction, TransferEvent, TransferState,
};

/// Copies `input` through a buffer in pieces of at most `piece` bytes on either
/// side; gives what came out and the count.
fn copied(input: &[u8], size: usize, piece: usize, mode: u8) -> (Vec<u8>, u64) {
    let mut copy = CopyBuffer::zeroed(size);
    let mut rest = input;
    let mut out = Vec::new();
    loop {
        match copy.action() {
            CopyAction::Read => {
                let limit = copy.read_limit(mode).unwrap();
                let n = limit.min(rest.len()).min(piece);
                copy.buf[..n].copy_from_slice(&rest[..n]);
                rest = &rest[n..];
                copy.take_in(n, mode);
            }
            CopyAction::Write => {
                let n = copy.to_write().len().min(piece);
                out.extend_from_slice(&copy.to_write()[..n]);
                copy.written(n).unwrap();
            }
            CopyAction::Flush => return (out, copy.amt),
        }
    }
}

fn sample(len: usize) -> Vec<u8> {
    (0..len).map(|i| (i * 7 % 251) as u8).collect()
}

#[test]
fn whole_buffer_is_asked_for_on_a_plain_stream() {
    assert_eq!(read_len(8192, 0, 123), 8192);
    assert_eq!(read_len(0, 0, 123), 0);
}

#[test]
fn small_buffers_are_not_cut() {
    assert_eq!(read_len(128, 1, 123), 128);
    assert_eq!(read_len(1, 2, 123), 1);
    assert_eq!(read_len(0, 2, 123), 0);
}

#[test]
fn reads_of_a_disguised_stream_are_cut() {
    assert_eq!(read_len(8192, 1, 0), 573);
    assert_eq!(read_len(8192, 2, 6963), 7536);
    assert_eq!(read_len(8192, 1, 6964), 573);
    assert_eq!(read_len(8192, 1, 999_999_999), 573 + 999_999_999 % 6964);
    assert_eq!(read_len(129, 1, 0), 9);
    assert_eq!(read_len(129, 1, 109), 118);
}

#[test]
fn every_length_in_the_band_is_asked_for() {
    let mut seen = vec![false; 8193];
    for nanos in 0..6964 {
        seen[read_len(8192, 1, nanos)] = true;
    }
    for len in 0..=8192 {
        assert_eq!(seen[len], (573..=7536).contains(&len));
    }
}

#[test]
fn read_limit_of_a_buffer() {
    let copy = CopyBuffer::zeroed(8192);
    assert_eq!(copy.read_limit(0), Ok(8192));
    let limit = copy.read_limit(1).unwrap();
    assert!((573..=7536).contains(&limit));
    assert_eq!(CopyBuffer::zeroed(100).read_limit(1), Ok(100));
}

#[test]
fn clock_is_past_the_epoch() {
    assert!(epoch_subsec_nanos().unwrap() < 1_000_000_000);
    let first = epoch_nanos().unwrap();
    let second = epoch_nanos().unwrap();
    assert!(first > 1_600_000_000_000_000_000);
    assert!(second - first < 3_600_000_000_000);
}

#[test]
fn nanoseconds_of_a_time() {
    assert_eq!(nanos_of(UNIX_EPOCH), Ok(0));
    assert_eq!(subsec_nanos_of(UNIX_EPOCH), Ok(0));
    let time = UNIX_EPOCH + Duration::new(7, 123_456_700);
    assert_eq!(nanos_of(time), Ok(7_123_456_700));
    assert_eq!(subsec_nanos_of(time), Ok(123_456_700));
    let wrapped = UNIX_EPOCH + Duration::new(20_000_000_000, 5_000);
    assert_eq!(nanos_of(wrapped), Ok(1_553_255_926_290_453_384));
}

#[test]
fn times_before_the_epoch_are_refused() {
    let time = UNIX_EPOCH - Duration::from_secs(1);
    assert_eq!(nanos_of(time), Err(ClockError));
    assert_eq!(subsec_nanos_of(time), Err(ClockError));
}

#[test]
fn filled_bytes_are_masked() {
    let mut copy = CopyBuffer::new(vec![0x00, 0x5A, 0xFF, 0x41]);
    copy.mask_filled(3, 1);
    assert_eq!(copy.buf, vec![0x5A, 0x00, 0xA5, 0x41]);
    copy.mask_filled(3, 2);
    assert_eq!(copy.buf, vec![0x00, 0x5A, 0xFF, 0x41]);
    copy.mask_filled(4, 0);
    assert_eq!(copy.buf, vec![0x00, 0x5A, 0xFF, 0x41]);
}

#[test]
fn new_buffers_are_empty() {
    let copy = CopyBuffer::zeroed(3);
    assert_eq!(copy.buf, vec![0, 0, 0]);
    assert_eq!(copy.action(), CopyAction::Read);
    assert!(copy.to_write().is_empty());
}

#[test]
fn bytes_wait_until_they_are_written() {
    let mut copy = CopyBuffer::new(vec![1, 2, 3, 4]);
    copy.take_in(3, 0);
    assert_eq!(copy.action(), CopyAction::Write);
    assert_eq!(copy.to_write(), &[1, 2, 3]);
    assert_eq!(copy.written(2), Ok(()));
    assert_eq!(copy.to_write(), &[3]);
    assert_eq!(copy.written(1), Ok(()));
    assert_eq!(copy.amt, 3);
    assert_eq!(copy.action(), CopyAction::Read);
    copy.take_in(0, 0);
    assert_eq!(copy.action(), CopyAction::Flush);
}

#[test]
fn write_that_takes_nothing_fails() {
    let mut copy = CopyBuffer::new(vec![1, 2, 3, 4]);
    copy.take_in(2, 0);
    assert_eq!(copy.written(0), Err(WriteZero));
    assert_eq!(copy.to_write(), &[1, 2]);
    assert_eq!(copy.amt, 0);
}

#[test]
fn plain_relay_is_transparent() {
    let input = sample(1000);
    assert_eq!(copied(&input, 300, 7, 0), (input, 1000));
}

#[test]
fn disguised_stream_is_masked_whatever_the_pieces() {
    let input = sample(5000);
    let expected: Vec<u8> = input.iter().map(|b| b ^ 0x5A).collect();
    for piece in [1, 3, 100, 5000] {
        assert_eq!(copied(&input, 512, piece, 1), (expected.clone(), 5000));
    }
}

#[test]
fn disguise_is_undone_by_the_other_side() {
    let input = sample(3000);
    let (wire, near) = copied(&input, 400, 250, 1);
    let (output, far) = copied(&wire, 700, 33, 2);
    assert_eq!(output, input);
    assert_eq!((near, far), (3000, 3000));
}

#[test]
fn empty_stream_is_relayed() {
    assert_eq!(copied(&[], 16, 16, 1), (vec![], 0));
}

#[test]
fn buffer_size_is_what_was_set() {
    let mut ctl = BufCtl::new();
    assert_eq!(ctl.buf_size(), 0x2000);
    ctl.set_buf_size(77);
    assert_eq!(ctl.buf_size(), 77);
    ctl.set_buf_size(0);
    assert_eq!(ctl.buf_size(), 0);
}

#[test]
fn direction_copies_then_shuts_down_then_is_done() {
    let mut state = TransferState::Running(CopyBuffer::zeroed(4));
    assert_eq!(transfer(&mut state, TransferEvent::<u8>::Polled), TransferAction::Copy);
    assert_eq!(
        transfer(&mut state, TransferEvent::<u8>::Copied(Readiness::Pending)),
        TransferAction::Return(Readiness::Pending)
    );
    assert!(matches!(state, TransferState::Running(_)));
    assert_eq!(
        transfer(&mut state, TransferEvent::<u8>::Copied(Readiness::Ready(Ok(12)))),
        TransferAction::Shutdown
    );
    assert!(matches!(state, TransferState::ShuttingDown(12)));
    assert_eq!(
        transfer(&mut state, TransferEvent::<u8>::ShutDown(Readiness::Pending)),
        TransferAction::Return(Readiness::Pending)
    );
    assert_eq!(transfer(&mut state, TransferEvent::<u8>::Polled), TransferAction::Shutdown);
    assert_eq!(
        transfer(&mut state, TransferEvent::<u8>::ShutDown(Readiness::Ready(Ok(())))),
        TransferAction::Return(Readiness::Ready(Ok(12)))
    );
    assert!(matches!(state, TransferState::Done(12)));
    assert_eq!(
        transfer(&mut state, TransferEvent::<u8>::Polled),
        TransferAction::Return(Readiness::Ready(Ok(12)))
    );
}

#[test]
fn errors_of_a_direction_are_handed_on() {
    let mut state = TransferState::Running(CopyBuffer::zeroed(4));
    assert_eq!(
        transfer(&mut state, TransferEvent::Copied(Readiness::Ready(Err(5u8)))),
        TransferAction::Return(Readiness::Ready(Err(5)))
    );
    assert!(matches!(state, TransferState::Running(_)));
    let mut state = TransferState::ShuttingDown(3);
    assert_eq!(
        transfer(&mut state, TransferEvent::ShutDown(Readiness::Ready(Err(6u8)))),
        TransferAction::Return(Readiness::Ready(Err(6)))
    );
    assert!(matches!(state, TransferState::ShuttingDown(3)));
}

#[test]
fn first_error_ends_the_poll() {
    assert_eq!(after_forward(Readiness::Ready(Err(4u8))), Err(4));
    assert_eq!(after_forward::<u8>(Readiness::Ready(Ok(8))), Ok(Readiness::Ready(8)));
    assert_eq!(after_forward::<u8>(Readiness::Pending), Ok(Readiness::Pending));
}

#[test]
fn poll_takes_each_direction_in_turn() {
    let policy = ShutdownPolicy::Brutal;
    let mut state = BidiState::Idle;
    assert_eq!(bidi_step(policy, &mut state, BidiEvent::<u8>::Polled), BidiAction::PollForward);
    let forward = BidiEvent::<u8>::Forward(Readiness::Ready(Ok(5)));
    assert_eq!(bidi_step(policy, &mut state, forward), BidiAction::PollBackward);
    assert_eq!(state, BidiState::PollingBackward(Readiness::Ready(5)));
    let backward = BidiEvent::<u8>::Backward(Readiness::Pending);
    assert_eq!(
        bidi_step(policy, &mut state, backward),
        BidiAction::Return(Readiness::Ready(Ok((5, 0))))
    );
    assert_eq!(state, BidiState::Idle);
}

#[test]
fn pending_direction_does_not_keep_the_other_from_being_polled() {
    let policy = ShutdownPolicy::Graceful;
    let mut state = BidiState::PollingForward;
    let forward = BidiEvent::<u8>::Forward(Readiness::Pending);
    assert_eq!(bidi_step(policy, &mut state, forward), BidiAction::PollBackward);
    let backward = BidiEvent::Backward(Readiness::Ready(Err(7u8)));
    assert_eq!(
        bidi_step(policy, &mut state, backward),
        BidiAction::Return(Readiness::Ready(Err(7)))
    );
}

#[test]
fn failed_direction_keeps_the_other_from_being_polled() {
    let mut state = BidiState::PollingForward;
    let forward = BidiEvent::Forward(Readiness::Ready(Err(7u8)));
    assert_eq!(
        bidi_step(ShutdownPolicy::Brutal, &mut state, forward),
        BidiAction::Return(Readiness::Ready(Err(7)))
    );
    assert_eq!(state, BidiState::Idle);
}

#[test]
fn graceful_relay_waits_for_both_directions() {
    let policy = ShutdownPolicy::Graceful;
    assert_eq!(
        after_backward::<u8>(policy, Readiness::Ready(1), Readiness::Ready(Ok(2))),
        Readiness::Ready(Ok((1, 2)))
    );
    assert_eq!(
        after_backward::<u8>(policy, Readiness::Ready(1), Readiness::Pending),
        Readiness::Pending
    );
    assert_eq!(
        after_backward::<u8>(policy, Readiness::Pending, Readiness::Ready(Ok(2))),
        Readiness::Pending
    );
    assert_eq!(
        after_backward(policy, Readiness::Pending, Readiness::Ready(Err(3u8))),
        Readiness::Ready(Err(3))
    );
}

#[test]
fn brutal_relay_ends_with_either_direction() {
    let policy = ShutdownPolicy::Brutal;
    assert_eq!(
        after_backward::<u8>(policy, Readiness::Ready(1), Readiness::Ready(Ok(2))),
        Readiness::Ready(Ok((1, 2)))
    );
    assert_eq!(
        after_backward::<u8>(policy, Readiness::Ready(1), Readiness::Pending),
        Readiness::Ready(Ok((1, 0)))
    );
    assert_eq!(
        after_backward::<u8>(policy, Readiness::Pending, Readiness::Ready(Ok(2))),
        Readiness::Ready(Ok((0, 2)))
    );
    assert_eq!(
        after_backward::<u8>(policy, Readiness::Pending, Readiness::Pending),
        Readiness::Pending
    );
}

#[test]
fn listener_passes_over_an_aborted_connection() {
    let event = ListenerEvent::<u8>::AcceptFailed(AcceptError::ConnectionAborted);
    assert_eq!(listener_step(true, "client", event), ListenerAction::Accept);
}

#[test]
fn listener_stops_without_error_when_it_cannot_accept() {
    let event = ListenerEvent::<u8>::AcceptFailed(AcceptError::Other);
    assert_eq!(listener_step(false, "", event), ListenerAction::Stop(Ok(())));
}

#[test]
fn listener_serves_in_the_mode_of_its_option() {
    let accepted = ListenerEvent::<u8>::Accepted;
    assert_eq!(listener_step(false, "client", accepted), ListenerAction::Spawn(1));
    let accepted = ListenerEvent::<u8>::Accepted;
    assert_eq!(listener_step(true, "server", accepted), ListenerAction::SetKeepalive);
    let set = ListenerEvent::<u8>::KeepaliveSet(Ok(()));
    assert_eq!(listener_step(true, "server", set), ListenerAction::Spawn(2));
    let spawned = ListenerEvent::<u8>::Spawned;
    assert_eq!(listener_step(true, "server", spawned), ListenerAction::Accept);
}

/// Runs a listener over events; gives the modes spawned and the result.
fn run(events: Vec<ListenerEvent<u8>>) -> (Vec<u8>, Option<Result<(), u8>>) {
    let mut spawned = Vec::new();
    for event in events {
        match listener_step(false, "server", event) {
            ListenerAction::Spawn(mode) => spawned.push(mode),
            ListenerAction::Stop(result) => return (spawned, Some(result)),
            _ => {}
        }
    }
    (spawned, None)
}

#[test]
fn aborted_connection_leaves_no_trace() {
    let accepted = || ListenerEvent::<u8>::Accepted;
    let aborted = || ListenerEvent::<u8>::AcceptFailed(AcceptError::ConnectionAborted);
    let failed = || ListenerEvent::<u8>::AcceptFailed(AcceptError::Other);
    let plain = run(vec![accepted(), accepted(), failed(), accepted()]);
    assert_eq!(plain, (vec![2, 2], Some(Ok(()))));
    assert_eq!(
        run(vec![aborted(), accepted(), aborted(), accepted(), failed(), accepted()]),
        plain
    );
}

#[test]
fn client_and_server_together_are_transparent() {
    let input = sample(2000);
    let mut wire = draw_prefix(&mut SimpleRng::from_seed(99), OBFS_KEY);
    wire.extend(copied(&input, 300, 200, 1).0);
    let len = decode_header(&[wire[0], wire[1], wire[2], wire[3], wire[4]], OBFS_KEY).unwrap();
    assert_eq!(copied(&wire[5 + len..], 500, 77, 2), (input, 2000));
}

#[test]
fn listener_stops_with_the_error_of_keepalive() {
    let failed = ListenerEvent::KeepaliveSet(Err(9u8));
    assert_eq!(listener_step(true, "server", failed), ListenerAction::Stop(Err(9)));
}
