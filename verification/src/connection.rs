//! What a client and a server do together to a connection.

use vstd::prelude::*;

use crate::buffer::CopyAction;
use crate::generate::{law_prefix_announces_its_garbage, prefix_of};
use crate::handshake::{
    law_server_accepts_client, shared_key, Handshake, HandshakeAction, HandshakeEvent,
};
use crate::mode::MODE_PLAIN;
use crate::stream::{law_disguise_is_undone, Passage};

verus! {

/// Law: a client and a server together are transparent. On the wire stands the
/// client's prefix, and behind it what the client relays. The server reads a header,
/// asks for the garbage that it announces, and relays what is left: that is what
/// went into the client, whatever the seed and the pieces on either side.
pub proof fn law_disguised_connection_is_transparent<E>(
    seed: u64,
    wire: Seq<u8>,
    header: [u8; 5],
    near: Passage,
    far: Passage,
)
    requires
        near.valid(),
        far.valid(),
        near.mode != MODE_PLAIN,
        far.mode != MODE_PLAIN,
        near.states.last().next_action() == CopyAction::Flush,
        far.states.last().next_action() == CopyAction::Flush,
        wire == prefix_of(seed, shared_key()) + near.written_by(near.events.len()),
        header@ == wire.take(5),
        Handshake::AwaitingHeader.answer(HandshakeEvent::<E>::Header(header)) matches
            HandshakeAction::ReadGarbage(len) ==> far.read_by(far.events.len()) == wire.skip(
            5 + len,
        ),
    ensures
        Handshake::AwaitingHeader.answer(HandshakeEvent::<E>::Header(header)) is ReadGarbage,
        far.written_by(far.events.len()) == near.read_by(near.events.len()),
{
    let prefix = prefix_of(seed, shared_key());
    law_prefix_announces_its_garbage(seed, shared_key());
    assert(wire.take(5) =~= prefix.take(5));
    law_server_accepts_client::<E>(seed, header);
    assert(wire.skip(prefix.len() as int) =~= near.written_by(near.events.len()));
    law_disguise_is_undone(near, far);
}

} // verus!
