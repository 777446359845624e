//! How a disguised connection is opened, from either side.
//!
//! The client writes a prefix and flushes it. The server reads a header and the
//! garbage that it announces; a header that no peer sent is met with silence, and
//! then the connection is dropped. A plain connection needs no opening.

use std::time::SystemTime;
use vstd::prelude::*;

use crate::clock::{nanos_at, ClockError};
use crate::generate::{generate_dynamic_obfs, law_prefix_announces_its_garbage, prefix_of};
use crate::mode::{MODE_CLIENT, MODE_SERVER};
use crate::prefix::{announced_len, decode_header, ObfsError, OBFS_KEY, PROBE_STALL_SECS};

verus! {

/// How far the opening of a connection has come.
#[derive(Clone, Copy, Debug, PartialEq, Eq, Structural)]
pub enum Handshake {
    /// The prefix is being written.
    Writing,
    /// The prefix is being flushed.
    Flushing,
    /// A header is being read.
    AwaitingHeader,
    /// This many bytes of garbage are being read.
    AwaitingGarbage(usize),
    /// The connection is kept waiting, and will then be dropped.
    Stalling,
    /// The connection is open.
    Open,
    /// The connection was given up.
    Closed,
}

/// What has happened to a connection that is being opened.
pub enum HandshakeEvent<E> {
    /// What was asked for is done.
    Done,
    /// This header was read.
    Header([u8; 5]),
    /// What was asked for has failed.
    Failed(E),
}

/// Why a connection was given up.
#[derive(Debug, PartialEq, Eq)]
pub enum HandshakeError<E> {
    /// Reading or writing failed.
    Io(E),
    /// The prefix was refused.
    Obfs(ObfsError),
}

/// What the opening of a connection asks for.
#[derive(Debug, PartialEq, Eq)]
pub enum HandshakeAction<E> {
    /// Write these bytes to the remote.
    Write(Vec<u8>),
    /// Flush what was written.
    Flush,
    /// Read five bytes from the local side.
    ReadHeader,
    /// Read this many bytes from the local side, and forget them.
    ReadGarbage(usize),
    /// Wait this many seconds.
    Stall(u64),
    /// Relay the connection.
    Relay,
    /// Give the connection up.
    Fail(HandshakeError<E>),
}

/// The bytes of the key that both sides share.
pub open spec fn shared_key() -> Seq<u8> {
    vstd::utf8::encode_utf8(OBFS_KEY@)
}

impl Handshake {
    /// Whether `event` can happen in this state.
    pub open spec fn expects<E>(self, event: HandshakeEvent<E>) -> bool {
        match self {
            Handshake::Writing | Handshake::Flushing | Handshake::AwaitingGarbage(_) => !(event
                is Header),
            Handshake::AwaitingHeader => !(event is Done),
            Handshake::Stalling => event is Done,
            Handshake::Open | Handshake::Closed => false,
        }
    }

    /// The state after `event`.
    pub open spec fn after<E>(self, event: HandshakeEvent<E>) -> Handshake {
        match event {
            HandshakeEvent::Failed(_) => Handshake::Closed,
            HandshakeEvent::Header(header) => match announced_len(header@, shared_key()) {
                Some(len) => Handshake::AwaitingGarbage(len as usize),
                None => Handshake::Stalling,
            },
            HandshakeEvent::Done => match self {
                Handshake::Writing => Handshake::Flushing,
                Handshake::Stalling => Handshake::Closed,
                _ => Handshake::Open,
            },
        }
    }

    /// What is asked for upon `event`.
    pub open spec fn answer<E>(self, event: HandshakeEvent<E>) -> HandshakeAction<E> {
        match event {
            HandshakeEvent::Failed(e) => HandshakeAction::Fail(HandshakeError::Io(e)),
            HandshakeEvent::Header(header) => match announced_len(header@, shared_key()) {
                Some(len) => HandshakeAction::ReadGarbage(len as usize),
                None => HandshakeAction::Stall(PROBE_STALL_SECS),
            },
            HandshakeEvent::Done => match self {
                Handshake::Writing => HandshakeAction::Flush,
                Handshake::Stalling => HandshakeAction::Fail(
                    HandshakeError::Obfs(ObfsError::ActiveProbe),
                ),
                _ => HandshakeAction::Relay,
            },
        }
    }

    /// Begins to open a connection. In the client's mode the prefix is drawn anew,
    /// from a seed that the clock gives; this fails exactly where the clock stands
    /// before the epoch.
    pub fn begin<E>(mode: u8) -> (begun: Result<(Handshake, HandshakeAction<E>), ClockError>)
        ensures
            if mode == MODE_CLIENT {
                exists|time: SystemTime|
                    call_ensures(SystemTime::now, (), time) && match #[trigger] nanos_at(time) {
                        Ok(seed) => begun matches Ok((Handshake::Writing, HandshakeAction::Write(
                            prefix,
                        ))) && prefix@ == prefix_of(seed, shared_key()),
                        Err(e) => begun == Err::<(Handshake, HandshakeAction<E>), ClockError>(e),
                    }
            } else if mode == MODE_SERVER {
                begun == Ok::<(Handshake, HandshakeAction<E>), ClockError>(
                    (Handshake::AwaitingHeader, HandshakeAction::ReadHeader),
                )
            } else {
                begun == Ok::<(Handshake, HandshakeAction<E>), ClockError>(
                    (Handshake::Open, HandshakeAction::Relay),
                )
            },
    {
        if mode == MODE_CLIENT {
            match generate_dynamic_obfs(OBFS_KEY) {
                Ok(prefix) => Ok((Handshake::Writing, HandshakeAction::Write(prefix))),
                Err(e) => Err(e),
            }
        } else if mode == MODE_SERVER {
            Ok((Handshake::AwaitingHeader, HandshakeAction::ReadHeader))
        } else {
            Ok((Handshake::Open, HandshakeAction::Relay))
        }
    }

    /// Whether `event` can happen in this state.
    pub fn is_expecting<E>(&self, event: &HandshakeEvent<E>) -> (expecting: bool)
        ensures
            expecting == self.expects(*event),
    {
        match (self, event) {
            (Handshake::AwaitingHeader, HandshakeEvent::Header(_)) => true,
            (Handshake::AwaitingHeader, HandshakeEvent::Failed(_)) => true,
            (Handshake::Writing, HandshakeEvent::Done | HandshakeEvent::Failed(_)) => true,
            (Handshake::Flushing, HandshakeEvent::Done | HandshakeEvent::Failed(_)) => true,
            (
                Handshake::AwaitingGarbage(_),
                HandshakeEvent::Done | HandshakeEvent::Failed(_),
            ) => true,
            (Handshake::Stalling, HandshakeEvent::Done) => true,
            _ => false,
        }
    }

    /// Moves the opening of a connection on by an event, and says what to do next.
    pub fn step<E>(&mut self, event: HandshakeEvent<E>) -> (action: HandshakeAction<E>)
        requires
            old(self).expects(event),
        ensures
            *final(self) == old(self).after(event),
            action == old(self).answer(event),
    {
        match event {
            HandshakeEvent::Failed(e) => {
                *self = Handshake::Closed;
                HandshakeAction::Fail(HandshakeError::Io(e))
            },
            HandshakeEvent::Header(header) => match decode_header(&header, OBFS_KEY) {
                Ok(len) => {
                    *self = Handshake::AwaitingGarbage(len);
                    HandshakeAction::ReadGarbage(len)
                },
                Err(_) => {
                    *self = Handshake::Stalling;
                    HandshakeAction::Stall(PROBE_STALL_SECS)
                },
            },
            HandshakeEvent::Done => match *self {
                Handshake::Writing => {
                    *self = Handshake::Flushing;
                    HandshakeAction::Flush
                },
                Handshake::Stalling => {
                    *self = Handshake::Closed;
                    HandshakeAction::Fail(HandshakeError::Obfs(ObfsError::ActiveProbe))
                },
                _ => {
                    *self = Handshake::Open;
                    HandshakeAction::Relay
                },
            },
        }
    }
}

/// Law: a server accepts whatever prefix a client sends. Upon the first five bytes
/// it asks for exactly the rest, and then relays.
pub proof fn law_server_accepts_client<E>(seed: u64, header: [u8; 5])
    requires
        header@ == prefix_of(seed, shared_key()).take(5),
    ensures
        ({
            let rest = (prefix_of(seed, shared_key()).len() - 5) as usize;
            let read = HandshakeEvent::<E>::Header(header);
            let done = HandshakeEvent::<E>::Done;
            &&& Handshake::AwaitingHeader.answer(read) == HandshakeAction::<E>::ReadGarbage(rest)
            &&& Handshake::AwaitingHeader.after(read).expects(done)
            &&& Handshake::AwaitingHeader.after(read).answer(done) == HandshakeAction::<E>::Relay
            &&& Handshake::AwaitingHeader.after(read).after(done) == Handshake::Open
        }),
{
    law_prefix_announces_its_garbage(seed, shared_key());
}

/// Law: a server meets a header that no peer sent with silence, and then drops the
/// connection. It never relays it.
pub proof fn law_probe_is_stalled_and_dropped<E>(header: [u8; 5])
    requires
        announced_len(header@, shared_key()) is None,
    ensures
        ({
            let read = HandshakeEvent::<E>::Header(header);
            let done = HandshakeEvent::<E>::Done;
            &&& Handshake::AwaitingHeader.answer(read) == HandshakeAction::<E>::Stall(3)
            &&& Handshake::AwaitingHeader.after(read).expects(done)
            &&& Handshake::AwaitingHeader.after(read).answer(done) == HandshakeAction::<E>::Fail(
                HandshakeError::Obfs(ObfsError::ActiveProbe),
            )
            &&& Handshake::AwaitingHeader.after(read).after(done) == Handshake::Closed
        }),
{
}

/// Law: a client flushes its prefix before it relays.
pub proof fn law_client_flushes_before_relay<E>()
    ensures
        ({
            let done = HandshakeEvent::<E>::Done;
            &&& Handshake::Writing.answer(done) == HandshakeAction::<E>::Flush
            &&& Handshake::Writing.after(done).answer(done) == HandshakeAction::<E>::Relay
        }),
{
}

/// Law: a failure to read or write, wherever it comes, ends the opening with that
/// failure.
pub proof fn law_failure_ends_handshake<E>(state: Handshake, error: E)
    requires
        state.expects(HandshakeEvent::Failed(error)),
    ensures
        state.after(HandshakeEvent::Failed(error)) == Handshake::Closed,
        state.answer(HandshakeEvent::Failed(error)) == HandshakeAction::Fail(
            HandshakeError::Io(error),
        ),
{
}

impl Handshake {
    /// Whether a run of events, each of which can happen when it comes, opens the
    /// connection.
    pub open spec fn opens<E>(self, events: Seq<HandshakeEvent<E>>) -> bool
        decreases events.len(),
    {
        if events.len() == 0 {
            self == Handshake::Open
        } else {
            &&& self.expects(events[0])
            &&& self.after(events[0]).opens(events.drop_first())
        }
    }
}

/// Law: a server opens a connection exactly when it read a header that announces a
/// length, and then the garbage. No other run of events opens it.
pub proof fn law_server_opens_only_behind_a_prefix<E>(events: Seq<HandshakeEvent<E>>)
    ensures
        Handshake::AwaitingHeader.opens(events) <==> {
            &&& events.len() == 2
            &&& events[0] matches HandshakeEvent::Header(header)
            &&& announced_len(header@, shared_key()) is Some
            &&& events[1] is Done
        },
{
    reveal_with_fuel(Handshake::opens, 4);
    if events.len() > 1 {
        assert(events.drop_first()[0] == events[1]);
    }
}

/// Law: a client opens a connection exactly when its prefix was written and then
/// flushed. No other run of events opens it.
pub proof fn law_client_opens_only_behind_its_prefix<E>(events: Seq<HandshakeEvent<E>>)
    ensures
        Handshake::Writing.opens(events) <==> events.len() == 2 && events[0] is Done && events[1]
            is Done,
{
    reveal_with_fuel(Handshake::opens, 4);
    if events.len() > 1 {
        assert(events.drop_first()[0] == events[1]);
    }
}

/// Law: a server asks for as many bytes of garbage as the header announces, and then
/// relays, whatever the header and the number are.
pub proof fn law_announced_garbage_is_skipped<E>(header: [u8; 5], len: usize)
    ensures
        ({
            let read = HandshakeEvent::<E>::Header(header);
            let done = HandshakeEvent::<E>::Done;
            &&& announced_len(header@, shared_key()) matches Some(n) ==> {
                &&& Handshake::AwaitingHeader.answer(read) matches HandshakeAction::ReadGarbage(asked)
                &&& asked == n
                &&& Handshake::AwaitingHeader.after(read) == Handshake::AwaitingGarbage(asked)
            }
            &&& Handshake::AwaitingGarbage(len).expects(done)
            &&& Handshake::AwaitingGarbage(len).answer(done) == HandshakeAction::<E>::Relay
            &&& Handshake::AwaitingGarbage(len).after(done) == Handshake::Open
        }),
{
    crate::prefix::law_announced_len_bounds(header@, shared_key());
}

/// Law: what each state waits for: writing, flushing and skipping end or fail, a header
/// comes or fails, silence ends, and where the opening is over nothing is waited for.
pub proof fn law_each_state_waits_for_its_own<E>(header: [u8; 5], len: usize, error: E)
    ensures
        ({
            let done = HandshakeEvent::<E>::Done;
            let read = HandshakeEvent::<E>::Header(header);
            let failed = HandshakeEvent::Failed(error);
            let working = |state: Handshake|
                state.expects(done) && !state.expects(read) && state.expects(failed);
            let over = |state: Handshake|
                !state.expects(done) && !state.expects(read) && !state.expects(failed);
            &&& working(Handshake::Writing)
            &&& working(Handshake::Flushing)
            &&& working(Handshake::AwaitingGarbage(len))
            &&& !Handshake::AwaitingHeader.expects(done)
            &&& Handshake::AwaitingHeader.expects(read)
            &&& Handshake::AwaitingHeader.expects(failed)
            &&& Handshake::Stalling.expects(done)
            &&& !Handshake::Stalling.expects(read)
            &&& !Handshake::Stalling.expects(failed)
            &&& over(Handshake::Open)
            &&& over(Handshake::Closed)
        }),
{
}

} // verus!
