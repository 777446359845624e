//! What a whole direction of a relay does to the stream that passes through it.

use vstd::prelude::*;

use crate::buffer::{law_masked_pieces, law_masked_twice, masked, CopyAction, CopyBuffer};
use crate::mode::MODE_PLAIN;

verus! {

/// One step of a direction of a relay.
pub enum CopyEvent {
    /// A read gave these bytes; none means that the stream has ended.
    Read(Seq<u8>),
    /// A write took this many of the waiting bytes.
    Wrote(nat),
}

/// A direction of a relay over time: the buffer before and after each event.
pub struct Passage {
    pub mode: u8,
    pub states: Seq<CopyBuffer>,
    pub events: Seq<CopyEvent>,
}

impl Passage {
    /// The buffer starts out empty, and each event takes it from one state to the
    /// next.
    pub open spec fn valid(self) -> bool {
        &&& self.states.len() == self.events.len() + 1
        &&& self.states[0].wf()
        &&& self.states[0].pos == 0
        &&& self.states[0].cap == 0
        &&& self.states[0].amt == 0
        &&& !self.states[0].read_done
        &&& forall|i: int|
            0 <= i < self.events.len() ==> match #[trigger] self.events[i] {
                CopyEvent::Read(raw) => self.states[i].read_step(
                    raw,
                    self.mode,
                    self.states[i + 1],
                ),
                CopyEvent::Wrote(n) => self.states[i].write_step(n, self.states[i + 1]),
            }
        &&& forall|i: int| 0 <= i < self.states.len() ==> (#[trigger] self.states[i]).wf()
    }

    /// All that the first `n` events read.
    pub open spec fn read_by(self, n: nat) -> Seq<u8>
        decreases n,
    {
        if n == 0 {
            Seq::empty()
        } else {
            let before = self.read_by((n - 1) as nat);
            match self.events[n - 1] {
                CopyEvent::Read(raw) => before + raw,
                CopyEvent::Wrote(_) => before,
            }
        }
    }

    /// All that the first `n` events wrote.
    pub open spec fn written_by(self, n: nat) -> Seq<u8>
        decreases n,
    {
        if n == 0 {
            Seq::empty()
        } else {
            let before = self.written_by((n - 1) as nat);
            match self.events[n - 1] {
                CopyEvent::Read(_) => before,
                CopyEvent::Wrote(count) => before + self.states[n - 1].waiting().take(
                    count as int,
                ),
            }
        }
    }
}

/// Law: at every moment what was written, followed by what waits, is what was
/// read, masked: nothing is lost, doubled or reordered. The count is the number
/// of bytes written.
pub proof fn law_stream_kept(passage: Passage, n: nat)
    requires
        passage.valid(),
        n <= passage.events.len(),
    ensures
        masked(passage.read_by(n), passage.mode) == passage.written_by(n)
            + passage.states[n as int].waiting(),
        passage.states[n as int].amt == passage.written_by(n).len(),
    decreases n,
{
    let mode = passage.mode;
    if n == 0 {
        assert(masked(passage.read_by(0), mode) =~= passage.written_by(0)
            + passage.states[0].waiting());
    } else {
        let m = (n - 1) as nat;
        law_stream_kept(passage, m);
        let before = passage.states[m as int];
        let after = passage.states[n as int];
        assert(after.wf() && before.wf());
        match passage.events[m as int] {
            CopyEvent::Read(raw) => {
                assert(before.read_step(raw, mode, after));
                assert(before.waiting() =~= Seq::<u8>::empty());
                law_masked_pieces(passage.read_by(m), raw, mode);
                assert(passage.written_by(m) + before.waiting() =~= passage.written_by(m));
            },
            CopyEvent::Wrote(count) => {
                assert(before.write_step(count, after));
                assert(before.waiting() =~= before.waiting().take(count as int)
                    + after.waiting());
                assert(passage.written_by(m) + before.waiting() =~= passage.written_by(n)
                    + after.waiting());
            },
        }
    }
}

/// Law: a stream has ended exactly when a read gave nothing.
pub proof fn law_stream_ends_with_an_empty_read(passage: Passage, n: nat)
    requires
        passage.valid(),
        n <= passage.events.len(),
    ensures
        passage.states[n as int].read_done <==> exists|i: int|
            0 <= i < n && #[trigger] passage.events[i] == CopyEvent::Read(Seq::empty()),
    decreases n,
{
    if n > 0 {
        let m = (n - 1) as nat;
        law_stream_ends_with_an_empty_read(passage, m);
        let before = passage.states[m as int];
        let after = passage.states[n as int];
        assert(before.wf() && after.wf());
        match passage.events[m as int] {
            CopyEvent::Read(raw) => {
                assert(before.read_step(raw, passage.mode, after));
                if raw.len() == 0 {
                    assert(raw =~= Seq::empty());
                    assert(passage.events[m as int] == CopyEvent::Read(Seq::empty()));
                } else {
                    assert(passage.events[m as int] != CopyEvent::Read(Seq::empty()));
                }
            },
            CopyEvent::Wrote(count) => {
                assert(before.write_step(count, after));
            },
        }
    }
}

/// Law: a direction flushes exactly when a read has given nothing and all that was
/// read has been written; until a read gives nothing it never flushes, however many
/// bytes have passed.
pub proof fn law_flush_comes_after_the_end(passage: Passage)
    requires
        passage.valid(),
    ensures
        passage.states.last().next_action() == CopyAction::Flush <==> (exists|i: int|
            0 <= i < passage.events.len() && #[trigger] passage.events[i] == CopyEvent::Read(
                Seq::empty(),
            )) && passage.written_by(passage.events.len()).len() == passage.read_by(
            passage.events.len(),
        ).len(),
        passage.states.last().next_action() == CopyAction::Write <==> passage.written_by(
            passage.events.len(),
        ).len() < passage.read_by(passage.events.len()).len(),
{
    let n = passage.events.len();
    let last = passage.states[n as int];
    law_stream_ends_with_an_empty_read(passage, n);
    law_stream_kept(passage, n);
    assert(last.wf());
    assert(masked(passage.read_by(n), passage.mode).len() == passage.read_by(n).len());
}

/// Law: a direction that is ready to flush has written all that it read, masked,
/// and its count is the number of bytes read.
pub proof fn law_stream_complete(passage: Passage)
    requires
        passage.valid(),
        passage.states.last().next_action() == CopyAction::Flush,
    ensures
        passage.written_by(passage.events.len()) == masked(
            passage.read_by(passage.events.len()),
            passage.mode,
        ),
        passage.states.last().amt == passage.read_by(passage.events.len()).len(),
{
    let n = passage.events.len();
    law_stream_kept(passage, n);
    let last = passage.states[n as int];
    assert(last.wf());
    assert(passage.written_by(n) + last.waiting() =~= passage.written_by(n));
}

/// Law: a plain relay hands a stream on as it came.
pub proof fn law_plain_relay_is_transparent(passage: Passage)
    requires
        passage.valid(),
        passage.mode == MODE_PLAIN,
        passage.states.last().next_action() == CopyAction::Flush,
    ensures
        passage.written_by(passage.events.len()) == passage.read_by(passage.events.len()),
{
    law_stream_complete(passage);
}

/// Law: a stream that passes a disguising relay and then another, in whatever
/// pieces each of them reads and writes it, comes out as it went in.
pub proof fn law_disguise_is_undone(near: Passage, far: Passage)
    requires
        near.valid(),
        far.valid(),
        near.mode != MODE_PLAIN,
        far.mode != MODE_PLAIN,
        near.states.last().next_action() == CopyAction::Flush,
        far.states.last().next_action() == CopyAction::Flush,
        far.read_by(far.events.len()) == near.written_by(near.events.len()),
    ensures
        far.written_by(far.events.len()) == near.read_by(near.events.len()),
        far.states.last().amt == near.states.last().amt,
{
    law_stream_complete(near);
    law_stream_complete(far);
    law_masked_twice(near.read_by(near.events.len()), near.mode, far.mode);
}

} // verus!
