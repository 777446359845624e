//! The buffer between the reading and the writing side of one direction of a
//! relay: how much is read at once, how the bytes are masked, and what is done
//! next.

use std::time::SystemTime;
use vstd::prelude::*;

use crate::clock::{epoch_subsec_nanos, subsec_nanos_at, ClockError};
use crate::mode::MODE_PLAIN;

verus! {

/// The byte that each byte of a disguised stream is combined with.
pub const STREAM_MASK: u8 = 0x5A;

/// A buffer up to this size is always filled as far as the stream allows.
pub const CHUNK_THRESHOLD: usize = 128;

/// The size of a buffer unless another was asked for.
pub const DF_BUF_SIZE: usize = 0x2000;

/// The size of the buffers that new relays get.
pub struct BufCtl {
    size: usize,
}

impl View for BufCtl {
    type V = usize;

    closed spec fn view(&self) -> usize {
        self.size
    }
}

impl BufCtl {
    /// The setting before anyone changed it.
    pub fn new() -> (ctl: BufCtl)
        ensures
            ctl@ == DF_BUF_SIZE,
    {
        BufCtl { size: DF_BUF_SIZE }
    }

    /// The size of the buffers that new relays get.
    pub fn buf_size(&self) -> (size: usize)
        ensures
            size == self@,
    {
        self.size
    }

    /// Gives the relays from now on buffers of `n` bytes.
    pub fn set_buf_size(&mut self, n: usize)
        ensures
            final(self)@ == n,
    {
        self.size = n;
    }
}

/// Whether reads into a buffer of `capacity` bytes are cut to a random length.
pub open spec fn is_chunked(capacity: int, mode: u8) -> bool {
    capacity > CHUNK_THRESHOLD && mode != MODE_PLAIN
}

/// The number of bytes to ask for in one read: all that the buffer holds, or, for
/// a disguised stream, a length between 7% and 92% of it that `nanos` picks.
pub open spec fn read_len_of(capacity: int, mode: u8, nanos: u32) -> int {
    if is_chunked(capacity, mode) {
        let least = capacity * 7 / 100;
        let most = capacity * 92 / 100;
        least + nanos as int % (most - least + 1)
    } else {
        capacity
    }
}

/// Law: what is asked for in one read fits the buffer, and is nothing only where
/// the buffer holds nothing; on a chunked stream it is between 7% and 92% of the
/// buffer.
pub proof fn law_read_len_bounds(capacity: int, mode: u8, nanos: u32)
    requires
        0 <= capacity,
    ensures
        0 <= read_len_of(capacity, mode, nanos) <= capacity,
        0 < capacity ==> 0 < read_len_of(capacity, mode, nanos),
        is_chunked(capacity, mode) <==> capacity > 128 && mode != 0,
        is_chunked(capacity, mode) ==> capacity * 7 / 100 <= read_len_of(capacity, mode, nanos)
            <= capacity * 92 / 100,
{
}

/// Law: only large buffers of disguised streams are cut. There the length starts at 7%
/// of the buffer, grows by one with each nanosecond, and starts again behind 92%.
pub proof fn law_read_len_steps_through_the_band(capacity: int, mode: u8, nanos: u32)
    requires
        0 <= capacity,
        nanos < u32::MAX,
    ensures
        capacity <= 128 || mode == 0 ==> read_len_of(capacity, mode, nanos) == capacity,
        capacity > 128 && mode != 0 ==> {
            let here = read_len_of(capacity, mode, nanos);
            let next = read_len_of(capacity, mode, (nanos + 1) as u32);
            &&& read_len_of(capacity, mode, 0) == capacity * 7 / 100
            &&& here == capacity * 92 / 100 ==> next == capacity * 7 / 100
            &&& here != capacity * 92 / 100 ==> next == here + 1
        },
{
    if capacity > 128 && mode != 0 {
        let least = capacity * 7 / 100;
        let range = capacity * 92 / 100 - least + 1;
        let n = nanos as int;
        vstd::arithmetic::div_mod::lemma_small_mod(0, range as nat);
        vstd::arithmetic::div_mod::lemma_fundamental_div_mod(n, range);
        vstd::arithmetic::div_mod::lemma_mod_bound(n, range);
        let q = n / range;
        let r = n % range;
        assert(range * q == q * range) by (nonlinear_arith);
        if r == range - 1 {
            assert(n + 1 == (q + 1) * range + 0) by (nonlinear_arith)
                requires
                    n == q * range + r,
                    r == range - 1,
            ;
            vstd::arithmetic::div_mod::lemma_fundamental_div_mod_converse_mod(
                n + 1,
                range,
                q + 1,
                0,
            );
        } else {
            vstd::arithmetic::div_mod::lemma_fundamental_div_mod_converse_mod(
                n + 1,
                range,
                q,
                r + 1,
            );
        }
    }
}

/// Law: on a chunked stream each length between 7% and 92% of the buffer is asked
/// for under some fraction of a second, as long as there are as many fractions as
/// lengths.
pub proof fn law_read_len_covers(capacity: int, mode: u8, len: int) -> (nanos: u32)
    requires
        is_chunked(capacity, mode),
        capacity * 92 / 100 - capacity * 7 / 100 < 1_000_000_000,
        capacity * 7 / 100 <= len <= capacity * 92 / 100,
    ensures
        nanos < 1_000_000_000,
        read_len_of(capacity, mode, nanos) == len,
{
    let nanos = (len - capacity * 7 / 100) as u32;
    assert(nanos as int % (capacity * 92 / 100 - capacity * 7 / 100 + 1) == nanos) by {
        vstd::arithmetic::div_mod::lemma_small_mod(
            nanos as nat,
            (capacity * 92 / 100 - capacity * 7 / 100 + 1) as nat,
        );
    }
    nanos
}

/// The number of bytes to ask for in one read, when the clock shows `nanos` past
/// the second.
pub fn read_len(capacity: usize, mode: u8, nanos: u32) -> (len: usize)
    requires
        is_chunked(capacity as int, mode) ==> capacity * 92 <= usize::MAX,
    ensures
        len == read_len_of(capacity as int, mode, nanos),
        len <= capacity,
        capacity <= 128 || mode == 0 ==> len == capacity,
        capacity > 128 && mode != 0 ==> len - capacity * 7 / 100 == nanos as int % (capacity * 92
            / 100 - capacity * 7 / 100 + 1),
{
    proof {
        law_read_len_bounds(capacity as int, mode, nanos);
    }
    if capacity > CHUNK_THRESHOLD && mode != MODE_PLAIN {
        let least: usize = capacity * 7 / 100;
        let most: usize = capacity * 92 / 100;
        least + (nanos as usize % (most - least + 1))
    } else {
        capacity
    }
}

/// A stretch of a stream as it is relayed: masked, unless the relay is plain.
pub open spec fn masked(bytes: Seq<u8>, mode: u8) -> Seq<u8> {
    if mode == MODE_PLAIN {
        bytes
    } else {
        bytes.map_values(|byte: u8| byte ^ STREAM_MASK)
    }
}

/// Law: a stream that passes two disguising relays, whatever their sides, comes
/// out as it went in.
pub proof fn law_masked_twice(bytes: Seq<u8>, first: u8, second: u8)
    requires
        first != MODE_PLAIN,
        second != MODE_PLAIN,
    ensures
        masked(masked(bytes, first), second) == bytes,
{
    assert forall|i: int| 0 <= i < bytes.len() implies #[trigger] masked(
        masked(bytes, first),
        second,
    )[i] == bytes[i] by {
        let b = bytes[i];
        assert((b ^ 0x5A) ^ 0x5A == b) by (bit_vector);
    }
    assert(masked(masked(bytes, first), second) =~= bytes);
}

/// Law: a plain stream is relayed as it is; of a disguised one every byte is combined
/// with 0x5A, and so is changed.
pub proof fn law_every_byte_is_masked(bytes: Seq<u8>, mode: u8, i: int)
    requires
        0 <= i < bytes.len(),
    ensures
        masked(bytes, mode).len() == bytes.len(),
        mode == 0 ==> masked(bytes, mode)[i] == bytes[i],
        mode != 0 ==> masked(bytes, mode)[i] == bytes[i] ^ 0x5A && masked(bytes, mode)[i]
            != bytes[i],
{
    let b = bytes[i];
    assert(b ^ 0x5A != b) by (bit_vector);
}

/// Law: masking does not depend on where a stream is cut.
pub proof fn law_masked_pieces(a: Seq<u8>, b: Seq<u8>, mode: u8)
    ensures
        masked(a + b, mode) == masked(a, mode) + masked(b, mode),
{
    assert(masked(a + b, mode) =~= masked(a, mode) + masked(b, mode));
}

/// What a direction of a relay does next.
#[derive(Clone, Copy, Debug, PartialEq, Eq, Structural)]
pub enum CopyAction {
    /// Read into the buffer.
    Read,
    /// Write what the buffer holds.
    Write,
    /// Flush the writing side: all that was read has been written.
    Flush,
}

/// The writing side took no byte, and will not take any.
#[derive(Clone, Copy, Debug, PartialEq, Eq, Structural)]
pub struct WriteZero;

/// The buffer of one direction of a relay. `buf[pos..cap]` has been read and not
/// yet written.
pub struct CopyBuffer {
    pub buf: Vec<u8>,
    pub pos: usize,
    pub cap: usize,
    pub amt: u64,
    pub read_done: bool,
}

impl CopyBuffer {
    /// The bytes that wait to be written lie in the buffer.
    pub open spec fn wf(&self) -> bool {
        self.pos <= self.cap <= self.buf@.len()
    }

    /// The bytes that have been read and not yet written.
    pub open spec fn waiting(&self) -> Seq<u8> {
        self.buf@.subrange(self.pos as int, self.cap as int)
    }

    /// What comes next.
    pub open spec fn next_action(&self) -> CopyAction {
        if self.pos < self.cap {
            CopyAction::Write
        } else if !self.read_done {
            CopyAction::Read
        } else {
            CopyAction::Flush
        }
    }

    /// Whether `after` is what the buffer becomes when a read gives `raw`.
    pub open spec fn read_step(&self, raw: Seq<u8>, mode: u8, after: CopyBuffer) -> bool {
        &&& self.next_action() == CopyAction::Read
        &&& after.waiting() == masked(raw, mode)
        &&& after.amt == self.amt
        &&& after.read_done == (raw.len() == 0)
    }

    /// Whether `after` is what the buffer becomes when a write takes the first `n`
    /// of the waiting bytes.
    pub open spec fn write_step(&self, n: nat, after: CopyBuffer) -> bool {
        &&& n <= self.waiting().len()
        &&& after.waiting() == self.waiting().skip(n as int)
        &&& after.amt == self.amt + n
        &&& after.read_done == self.read_done
    }

    /// A buffer that nothing has passed through.
    pub fn new(buf: Vec<u8>) -> (copy: CopyBuffer)
        ensures
            copy.wf(),
            copy.buf == buf,
            copy.pos == 0,
            copy.cap == 0,
            copy.amt == 0,
            !copy.read_done,
    {
        CopyBuffer { buf, pos: 0, cap: 0, amt: 0, read_done: false }
    }

    /// A buffer of `size` zeros that nothing has passed through.
    pub fn zeroed(size: usize) -> (copy: CopyBuffer)
        ensures
            copy.wf(),
            copy.buf@ == Seq::new(size as nat, |i: int| 0u8),
            copy.pos == 0,
            copy.cap == 0,
            copy.amt == 0,
            !copy.read_done,
    {
        let buf: Vec<u8> = vec![0u8; size];
        assert(buf@ =~= Seq::new(size as nat, |i: int| 0u8));
        CopyBuffer::new(buf)
    }

    /// What comes next.
    pub fn action(&self) -> (action: CopyAction)
        ensures
            action == self.next_action(),
            action == CopyAction::Write <==> self.pos < self.cap,
            action == CopyAction::Read <==> self.pos >= self.cap && !self.read_done,
            action == CopyAction::Flush <==> self.pos >= self.cap && self.read_done,
    {
        if self.pos < self.cap {
            CopyAction::Write
        } else if !self.read_done {
            CopyAction::Read
        } else {
            CopyAction::Flush
        }
    }

    /// The number of bytes to ask for in the next read. Where reads are cut, the
    /// clock picks it, and fails exactly where it stands before the epoch.
    pub fn read_limit(&self, mode: u8) -> (limit: Result<usize, ClockError>)
        requires
            is_chunked(self.buf@.len() as int, mode) ==> self.buf@.len() * 92 <= usize::MAX,
        ensures
            !is_chunked(self.buf@.len() as int, mode) ==> limit == Ok::<usize, ClockError>(
                self.buf@.len() as usize,
            ),
            is_chunked(self.buf@.len() as int, mode) ==> exists|time: SystemTime|
                call_ensures(SystemTime::now, (), time) && match #[trigger] subsec_nanos_at(time) {
                    Ok(nanos) => limit matches Ok(len) && len == read_len_of(
                        self.buf@.len() as int,
                        mode,
                        nanos,
                    ),
                    Err(e) => limit == Err::<usize, ClockError>(e),
                },
            self.buf@.len() <= 128 || mode == 0 ==> limit == Ok::<usize, ClockError>(
                self.buf@.len() as usize,
            ),
            self.buf@.len() > 128 && mode != 0 ==> exists|time: SystemTime|
                call_ensures(SystemTime::now, (), time) && match #[trigger] subsec_nanos_at(time) {
                    Ok(nanos) => limit matches Ok(len) && len - self.buf@.len() * 7 / 100
                        == nanos as int % (self.buf@.len() * 92 / 100 - self.buf@.len() * 7 / 100
                        + 1),
                    Err(e) => limit == Err::<usize, ClockError>(e),
                },
    {
        let capacity: usize = self.buf.len();
        if capacity > CHUNK_THRESHOLD && mode != MODE_PLAIN {
            match epoch_subsec_nanos() {
                Ok(nanos) => Ok(read_len(capacity, mode, nanos)),
                Err(e) => Err(e),
            }
        } else {
            Ok(capacity)
        }
    }

    /// Masks the first `len` bytes of the buffer, which a read has just filled.
    pub fn mask_filled(&mut self, len: usize, mode: u8)
        requires
            len <= old(self).buf@.len(),
        ensures
            final(self).buf@ == masked(old(self).buf@.take(len as int), mode) + old(
                self,
            ).buf@.skip(len as int),
            final(self).pos == old(self).pos,
            final(self).cap == old(self).cap,
            final(self).amt == old(self).amt,
            final(self).read_done == old(self).read_done,
    {
        let ghost before = self.buf@;
        let ghost after = masked(before.take(len as int), mode) + before.skip(len as int);
        if mode != MODE_PLAIN {
            for i in 0..len
                invariant
                    mode != MODE_PLAIN,
                    len <= before.len(),
                    after == masked(before.take(len as int), mode) + before.skip(len as int),
                    self.buf@ =~= after.take(i as int) + before.skip(i as int),
                    self.pos == old(self).pos,
                    self.cap == old(self).cap,
                    self.amt == old(self).amt,
                    self.read_done == old(self).read_done,
            {
                let byte: u8 = self.buf[i];
                self.buf.set(i, byte ^ STREAM_MASK);
            }
        }
        assert(self.buf@ =~= after);
    }

    /// Takes in that a read put `n` bytes at the start of the buffer: they are
    /// masked and wait to be written. None means that the stream has ended.
    pub fn take_in(&mut self, n: usize, mode: u8)
        requires
            old(self).wf(),
            old(self).next_action() == CopyAction::Read,
            n <= old(self).buf@.len(),
        ensures
            final(self).wf(),
            final(self).buf@.len() == old(self).buf@.len(),
            old(self).read_step(old(self).buf@.take(n as int), mode, *final(self)),
            n == 0 ==> *final(self) == (CopyBuffer {
                buf: final(self).buf,
                read_done: true,
                ..*old(self)
            }),
            n > 0 ==> *final(self) == (CopyBuffer {
                buf: final(self).buf,
                pos: 0,
                cap: n,
                ..*old(self)
            }),
            forall|i: int|
                0 <= i < n ==> #[trigger] final(self).buf@[i] == if mode == 0 {
                    old(self).buf@[i]
                } else {
                    old(self).buf@[i] ^ 0x5A
                },
            forall|i: int|
                n <= i < old(self).buf@.len() ==> #[trigger] final(self).buf@[i]
                    == old(self).buf@[i],
    {
        self.mask_filled(n, mode);
        if n == 0 {
            self.read_done = true;
        } else {
            self.pos = 0;
            self.cap = n;
        }
        assert(self.waiting() =~= masked(old(self).buf@.take(n as int), mode));
    }

    /// The bytes that wait to be written.
    pub fn to_write(&self) -> (bytes: &[u8])
        requires
            self.wf(),
        ensures
            bytes@ == self.waiting(),
            bytes@ == self.buf@.subrange(self.pos as int, self.cap as int),
    {
        &self.buf.as_slice()[self.pos..self.cap]
    }

    /// Takes in that a write took `n` of the waiting bytes. A write that takes
    /// none fails.
    pub fn written(&mut self, n: usize) -> (result: Result<(), WriteZero>)
        requires
            old(self).wf(),
            n <= old(self).waiting().len(),
            old(self).amt + n <= u64::MAX,
        ensures
            final(self).wf(),
            final(self).buf == old(self).buf,
            old(self).write_step(n as nat, *final(self)),
            final(self).pos == old(self).pos + n,
            final(self).cap == old(self).cap,
            final(self).amt == old(self).amt + n,
            result == if n == 0 {
                Err::<(), WriteZero>(WriteZero)
            } else {
                Ok::<(), WriteZero>(())
            },
    {
        if n == 0 {
            assert(self.waiting().skip(0) =~= self.waiting());
            return Err(WriteZero);
        }
        self.pos = self.pos + n;
        self.amt = self.amt + n as u64;
        assert(self.waiting() =~= old(self).waiting().skip(n as int));
        Ok(())
    }
}

/// Law: what a buffer asks for rests on two things alone, what waits in it and whether
/// its stream has ended. However many bytes have passed, waiting bytes are written
/// first, and a stream that has not ended is read on.
pub proof fn law_buffer_is_emptied_then_filled(buffer: CopyBuffer)
    requires
        buffer.wf(),
    ensures
        buffer.waiting().len() == buffer.cap - buffer.pos,
        buffer.waiting().len() > 0 <==> buffer.next_action() == CopyAction::Write,
        buffer.waiting().len() == 0 && !buffer.read_done <==> buffer.next_action()
            == CopyAction::Read,
        buffer.waiting().len() == 0 && buffer.read_done <==> buffer.next_action()
            == CopyAction::Flush,
{
}

} // verus!
