//! The decisions of the loop that accepts connections.

use vstd::prelude::*;

use crate::mode::{mode_of_option, parse_obfs_mode};

verus! {

/// Why no connection was accepted.
#[derive(Clone, Copy, Debug, PartialEq, Eq, Structural)]
pub enum AcceptError {
    /// The peer gave the connection up before it was accepted.
    ConnectionAborted,
    /// Anything else.
    Other,
}

/// What has happened to the listener.
pub enum ListenerEvent<E> {
    /// A connection was accepted.
    Accepted,
    /// Accepting failed.
    AcceptFailed(AcceptError),
    /// Keepalive was switched on for the accepted connection.
    KeepaliveSet(Result<(), E>),
    /// The accepted connection was handed to a task of its own.
    Spawned,
}

/// What the listener does next.
#[derive(Debug, PartialEq, Eq)]
pub enum ListenerAction<E> {
    /// Accept a connection.
    Accept,
    /// Switch keepalive on for the accepted connection.
    SetKeepalive,
    /// Relay the accepted connection in this mode, in a task of its own.
    Spawn(u8),
    /// Stop listening, with this result.
    Stop(Result<(), E>),
}

/// What a listener does next upon `event`. A connection that the peer gave up is
/// passed over; any other failure to accept ends the loop without an error, and a
/// failure to switch keepalive on ends it with one.
pub open spec fn listener_action<E>(
    keepalive: bool,
    obfs: Seq<char>,
    event: ListenerEvent<E>,
) -> ListenerAction<E> {
    match event {
        ListenerEvent::AcceptFailed(AcceptError::ConnectionAborted) => ListenerAction::Accept,
        ListenerEvent::AcceptFailed(AcceptError::Other) => ListenerAction::Stop(Ok(())),
        ListenerEvent::Accepted => if keepalive {
            ListenerAction::SetKeepalive
        } else {
            ListenerAction::Spawn(mode_of_option(obfs))
        },
        ListenerEvent::KeepaliveSet(Ok(_)) => ListenerAction::Spawn(mode_of_option(obfs)),
        ListenerEvent::KeepaliveSet(Err(e)) => ListenerAction::Stop(Err(e)),
        ListenerEvent::Spawned => ListenerAction::Accept,
    }
}

/// What a listener does next upon `event`. `keepalive` tells whether keepalive is
/// asked for, and `obfs` is the option of that name.
pub fn listener_step<E>(keepalive: bool, obfs: &str, event: ListenerEvent<E>) -> (action:
    ListenerAction<E>)
    ensures
        action == listener_action(keepalive, obfs@, event),
        event is Spawned ==> action is Accept,
        event matches ListenerEvent::AcceptFailed(why) ==> (if why
            == AcceptError::ConnectionAborted {
            action is Accept
        } else {
            action matches ListenerAction::Stop(Ok(_))
        }),
        event is Accepted ==> (if keepalive {
            action is SetKeepalive
        } else {
            action == ListenerAction::<E>::Spawn(mode_of_option(obfs@))
        }),
        event matches ListenerEvent::KeepaliveSet(Ok(_)) ==> action == ListenerAction::<E>::Spawn(
            mode_of_option(obfs@),
        ),
        event matches ListenerEvent::KeepaliveSet(Err(e)) ==> action == ListenerAction::Stop(
            Err::<(), E>(e),
        ),
{
    match event {
        ListenerEvent::AcceptFailed(AcceptError::ConnectionAborted) => ListenerAction::Accept,
        ListenerEvent::AcceptFailed(AcceptError::Other) => ListenerAction::Stop(Ok(())),
        ListenerEvent::Accepted => if keepalive {
            ListenerAction::SetKeepalive
        } else {
            ListenerAction::Spawn(parse_obfs_mode(obfs))
        },
        ListenerEvent::KeepaliveSet(Ok(_)) => ListenerAction::Spawn(parse_obfs_mode(obfs)),
        ListenerEvent::KeepaliveSet(Err(e)) => ListenerAction::Stop(Err(e)),
        ListenerEvent::Spawned => ListenerAction::Accept,
    }
}

/// What a listener has done: the modes of the connections that it handed to tasks,
/// in order, and the result that it stopped with, if it did.
pub struct ListenerRun<E> {
    pub spawned: Seq<u8>,
    pub stopped: Option<Result<(), E>>,
}

/// What a listener has done after a run of events. Once it has stopped, nothing
/// more happens.
pub open spec fn listener_run<E>(
    keepalive: bool,
    obfs: Seq<char>,
    events: Seq<ListenerEvent<E>>,
) -> ListenerRun<E>
    decreases events.len(),
{
    if events.len() == 0 {
        ListenerRun { spawned: Seq::empty(), stopped: None }
    } else {
        let before = listener_run(keepalive, obfs, events.drop_last());
        if before.stopped is Some {
            before
        } else {
            match listener_action(keepalive, obfs, events.last()) {
                ListenerAction::Spawn(mode) => ListenerRun {
                    spawned: before.spawned.push(mode),
                    stopped: None,
                },
                ListenerAction::Stop(result) => ListenerRun {
                    spawned: before.spawned,
                    stopped: Some(result),
                },
                _ => before,
            }
        }
    }
}

/// Law: a connection that the peer gave up, whenever it comes, leaves what the
/// listener does as if it had not come.
pub proof fn law_aborted_accept_leaves_no_trace<E>(
    keepalive: bool,
    obfs: Seq<char>,
    earlier: Seq<ListenerEvent<E>>,
    later: Seq<ListenerEvent<E>>,
)
    ensures
        listener_run(
            keepalive,
            obfs,
            earlier.push(ListenerEvent::AcceptFailed(AcceptError::ConnectionAborted)) + later,
        ) == listener_run(keepalive, obfs, earlier + later),
    decreases later.len(),
{
    let aborted = ListenerEvent::<E>::AcceptFailed(AcceptError::ConnectionAborted);
    let with = earlier.push(aborted) + later;
    let without = earlier + later;
    if later.len() == 0 {
        assert(with =~= earlier.push(aborted));
        assert(without =~= earlier);
        assert(with.drop_last() =~= earlier);
    } else {
        law_aborted_accept_leaves_no_trace(keepalive, obfs, earlier, later.drop_last());
        assert(with.drop_last() =~= earlier.push(aborted) + later.drop_last());
        assert(without.drop_last() =~= earlier + later.drop_last());
    }
}

/// Law: a listener that cannot accept stops without an error, and relays nothing
/// more, whatever happens then.
pub proof fn law_stopped_listener_stays_stopped<E>(
    keepalive: bool,
    obfs: Seq<char>,
    earlier: Seq<ListenerEvent<E>>,
    later: Seq<ListenerEvent<E>>,
)
    requires
        listener_run(keepalive, obfs, earlier).stopped is None,
    ensures
        listener_run(
            keepalive,
            obfs,
            earlier.push(ListenerEvent::AcceptFailed(AcceptError::Other)) + later,
        ) == (ListenerRun {
            spawned: listener_run(keepalive, obfs, earlier).spawned,
            stopped: Some(Ok::<(), E>(())),
        }),
    decreases later.len(),
{
    let failed = ListenerEvent::<E>::AcceptFailed(AcceptError::Other);
    let all = earlier.push(failed) + later;
    if later.len() == 0 {
        assert(all.drop_last() =~= earlier);
    } else {
        law_stopped_listener_stays_stopped(keepalive, obfs, earlier, later.drop_last());
        assert(all.drop_last() =~= earlier.push(failed) + later.drop_last());
    }
}

/// Law: a listener stops only upon a failure. In a run without one it goes on, and it
/// hands each accepted connection to a task, once: without keepalive as it is accepted,
/// with keepalive when that has been switched on.
pub proof fn law_listener_stops_only_upon_failure<E>(
    keepalive: bool,
    obfs: Seq<char>,
    events: Seq<ListenerEvent<E>>,
)
    requires
        forall|i: int|
            0 <= i < events.len() ==> #[trigger] events[i] != ListenerEvent::<E>::AcceptFailed(
                AcceptError::Other,
            ),
        forall|i: int|
            0 <= i < events.len() ==> !(#[trigger] events[i] matches ListenerEvent::KeepaliveSet(
                Err(_),
            )),
    ensures
        listener_run(keepalive, obfs, events).stopped is None,
        listener_run(keepalive, obfs, events).spawned.len() == events.filter(
            |event: ListenerEvent<E>| event is KeepaliveSet || (event is Accepted && !keepalive),
        ).len(),
    decreases events.len(),
{
    reveal(Seq::filter);
    if events.len() > 0 {
        let init = events.drop_last();
        assert forall|i: int| 0 <= i < init.len() implies #[trigger] init[i] == events[i] by {}
        law_listener_stops_only_upon_failure(keepalive, obfs, init);
        let last = events[events.len() - 1];
        assert(events.last() == last);
        if let ListenerEvent::AcceptFailed(why) = last {
            assert(why == AcceptError::ConnectionAborted);
        }
    }
}

/// Law: a failure to switch keepalive on ends a listener with that failure; the
/// connection is not relayed, and nothing happens then.
pub proof fn law_failed_keepalive_stops_the_listener<E>(
    keepalive: bool,
    obfs: Seq<char>,
    earlier: Seq<ListenerEvent<E>>,
    later: Seq<ListenerEvent<E>>,
    error: E,
)
    requires
        listener_run(keepalive, obfs, earlier).stopped is None,
    ensures
        listener_run(
            keepalive,
            obfs,
            earlier.push(ListenerEvent::KeepaliveSet(Err(error))) + later,
        ) == (ListenerRun {
            spawned: listener_run(keepalive, obfs, earlier).spawned,
            stopped: Some(Err::<(), E>(error)),
        }),
    decreases later.len(),
{
    let failed = ListenerEvent::<E>::KeepaliveSet(Err(error));
    let all = earlier.push(failed) + later;
    if later.len() == 0 {
        assert(all.drop_last() =~= earlier);
    } else {
        law_failed_keepalive_stops_the_listener(keepalive, obfs, earlier, later.drop_last(), error);
        assert(all.drop_last() =~= earlier.push(failed) + later.drop_last());
    }
}

/// Law: between connections a listener accepts, and before a connection is relayed its
/// keepalive is switched on where that is asked for, and only there.
pub proof fn law_listener_goes_round<E>(keepalive: bool, obfs: Seq<char>)
    ensures
        listener_action(keepalive, obfs, ListenerEvent::<E>::Spawned) is Accept,
        listener_action(
            keepalive,
            obfs,
            ListenerEvent::<E>::AcceptFailed(AcceptError::ConnectionAborted),
        ) is Accept,
        keepalive <==> listener_action(keepalive, obfs, ListenerEvent::<E>::Accepted)
            is SetKeepalive,
        !keepalive <==> listener_action(keepalive, obfs, ListenerEvent::<E>::Accepted) is Spawn,
        listener_action(keepalive, obfs, ListenerEvent::<E>::KeepaliveSet(Ok(()))) is Spawn,
{
}

/// Law: every connection of a listener is relayed in one and the same mode, which
/// is plain, client or server.
pub proof fn law_one_mode_per_listener<E>(
    keepalive: bool,
    obfs: Seq<char>,
    events: Seq<ListenerEvent<E>>,
)
    ensures
        forall|i: int|
            0 <= i < listener_run(keepalive, obfs, events).spawned.len() ==> #[trigger] listener_run(
                keepalive,
                obfs,
                events,
            ).spawned[i] == mode_of_option(obfs),
        mode_of_option(obfs) <= 2,
    decreases events.len(),
{
    if events.len() > 0 {
        law_one_mode_per_listener(keepalive, obfs, events.drop_last());
    }
}

} // verus!
