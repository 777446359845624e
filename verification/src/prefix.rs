//! The prefix that opens a disguised connection.
//!
//! A prefix is a header of five bytes and then garbage. Under the key, two or
//! three of the header's bytes are ASCII digits; read in order they are the
//! number of garbage bytes in decimal. A header whose digits are fewer, more, or
//! start with zeros so that the number falls below ten, was not sent by a peer.

use vstd::prelude::*;

verus! {

/// The number of bytes of a header.
pub const HEADER_LEN: usize = 5;

/// The key that both sides of a disguised connection share.
pub const OBFS_KEY: &'static str = "hoorayhug_obfs_key_2024";

/// The seconds for which a connection is left waiting once its header has shown
/// that no peer sent it.
pub const PROBE_STALL_SECS: u64 = 3;

/// Why a prefix is refused.
#[derive(Clone, Copy, Debug, PartialEq, Eq, Structural)]
pub enum ObfsError {
    /// The header announces no length: whoever sent it is probing.
    ActiveProbe,
}

impl ObfsError {
    /// The text of the error.
    pub fn message(&self) -> (text: &'static str)
        ensures
            text@ == "Active probe silently dropped"@,
    {
        "Active probe silently dropped"
    }
}

/// Whether `byte` is an ASCII digit.
pub open spec fn is_digit(byte: u8) -> bool {
    0x30 <= byte <= 0x39
}

/// The ASCII digits among `bytes`, in order.
pub open spec fn digits_in(bytes: Seq<u8>) -> Seq<u8> {
    bytes.filter(|byte: u8| is_digit(byte))
}

/// The number that ASCII digits write in decimal.
pub open spec fn decimal(digits: Seq<u8>) -> nat
    decreases digits.len(),
{
    if digits.len() == 0 {
        0
    } else {
        (decimal(digits.drop_last()) * 10 + (digits.last() - 0x30)) as nat
    }
}

/// `bytes` under `key`: each byte is combined with the key's bytes in turn. An
/// empty key changes nothing.
pub open spec fn keyed(bytes: Seq<u8>, key: Seq<u8>) -> Seq<u8> {
    if key.len() == 0 {
        bytes
    } else {
        Seq::new(bytes.len(), |i: int| bytes[i] ^ key[i % key.len() as int])
    }
}

/// Whether `digits` are those of a header that a peer sent.
pub open spec fn are_length_digits(digits: Seq<u8>) -> bool {
    ||| digits.len() == 2 && digits[0] != 0x30
    ||| digits.len() == 3 && !(digits[0] == 0x30 && digits[1] == 0x30)
}

/// The number of garbage bytes that `header` announces under `key`, if it is one
/// that a peer sent.
pub open spec fn announced_len(header: Seq<u8>, key: Seq<u8>) -> Option<nat> {
    let digits = digits_in(keyed(header, key));
    if are_length_digits(digits) {
        Some(decimal(digits))
    } else {
        None
    }
}

/// One more byte adds itself to the digits, if it is one.
pub(crate) proof fn lemma_digits_push(bytes: Seq<u8>, byte: u8)
    ensures
        digits_in(bytes.push(byte)) == if is_digit(byte) {
            digits_in(bytes).push(byte)
        } else {
            digits_in(bytes)
        },
{
    reveal(Seq::filter);
    assert(bytes.push(byte).drop_last() == bytes);
}

/// What two or three digits write.
pub(crate) proof fn lemma_decimal_three(digits: Seq<u8>)
    requires
        digits.len() <= 3,
        forall|i: int| 0 <= i < digits.len() ==> is_digit(#[trigger] digits[i]),
    ensures
        digits.len() == 2 ==> decimal(digits) == (digits[0] - 0x30) * 10 + (digits[1] - 0x30),
        digits.len() == 3 ==> decimal(digits) == (digits[0] - 0x30) * 100 + (digits[1] - 0x30) * 10
            + (digits[2] - 0x30),
{
    reveal_with_fuel(decimal, 4);
    if digits.len() >= 2 {
        assert(digits.drop_last().last() == digits[digits.len() - 2]);
    }
    if digits.len() == 3 {
        assert(digits.drop_last().drop_last().last() == digits[0]);
    }
}

/// The digits among bytes are digits.
proof fn lemma_digits_are_digits(bytes: Seq<u8>)
    ensures
        forall|i: int|
            0 <= i < digits_in(bytes).len() ==> is_digit(#[trigger] digits_in(bytes)[i]),
{
    let pred = |byte: u8| is_digit(byte);
    assert forall|i: int| 0 <= i < digits_in(bytes).len() implies is_digit(
        #[trigger] digits_in(bytes)[i],
    ) by {
        bytes.lemma_filter_pred(pred, i);
        assert(pred(digits_in(bytes)[i]));
    }
}

/// Law: a header that a peer sent announces at least 10 and at most 999 bytes of
/// garbage. So no header ever announces a length out of bounds.
pub proof fn law_announced_len_bounds(header: Seq<u8>, key: Seq<u8>)
    ensures
        announced_len(header, key) matches Some(len) ==> 10 <= len <= 999,
{
    let digits = digits_in(keyed(header, key));
    if are_length_digits(digits) {
        lemma_digits_are_digits(keyed(header, key));
        lemma_decimal_three(digits);
    }
}

/// How many of the first `n` bytes are digits.
spec fn digits_before(bytes: Seq<u8>, n: nat) -> nat
    decreases n,
{
    if n == 0 {
        0
    } else {
        digits_before(bytes, (n - 1) as nat) + if is_digit(bytes[n - 1]) {
            1nat
        } else {
            0nat
        }
    }
}

/// A digit stands behind as many digits as there are before it.
proof fn lemma_digit_rank(bytes: Seq<u8>, n: nat)
    requires
        n <= bytes.len(),
    ensures
        digits_in(bytes.take(n as int)).len() == digits_before(bytes, n),
        forall|m: nat|
            m < n && is_digit(bytes[m as int]) ==> #[trigger] digits_before(bytes, m)
                < digits_before(bytes, n) && digits_in(bytes.take(n as int))[digits_before(
                bytes,
                m,
            ) as int] == bytes[m as int],
    decreases n,
{
    if n == 0 {
        reveal(Seq::filter);
    } else {
        let m = (n - 1) as nat;
        lemma_digit_rank(bytes, m);
        lemma_digits_push(bytes.take(m as int), bytes[m as int]);
        assert(bytes.take(n as int) =~= bytes.take(m as int).push(bytes[m as int]));
    }
}

/// Law: how a header is read. Under the key it has as many digits as the count says.
/// A count other than two and three announces nothing. Two digits announce the number
/// of tens and ones that they are, unless the first is a zero; three announce hundreds,
/// tens and ones, unless the first two are zeros.
#[verifier::rlimit(40)]
pub proof fn law_header_is_read_by_its_digits(
    header: Seq<u8>,
    key: Seq<u8>,
    i: int,
    j: int,
    k: int,
)
    requires
        header.len() == 5,
    ensures
        ({
            let byte = |n: int|
                if key.len() == 0 {
                    header[n]
                } else {
                    header[n] ^ key[n % key.len() as int]
                };
            let digit = |n: int| 0x30 <= byte(n) && byte(n) <= 0x39;
            let one = |n: int|
                if digit(n) {
                    1int
                } else {
                    0int
                };
            let count = one(0) + one(1) + one(2) + one(3) + one(4);
            let value = |n: int| byte(n) - 0x30;
            &&& count != 2 && count != 3 ==> announced_len(header, key) is None
            &&& count == 2 && 0 <= i < j < 5 && digit(i) && digit(j) ==> announced_len(header, key)
                == if value(i) == 0 {
                None::<nat>
            } else {
                Some((value(i) * 10 + value(j)) as nat)
            }
            &&& count == 3 && 0 <= i < j < k < 5 && digit(i) && digit(j) && digit(k)
                ==> announced_len(header, key) == if value(i) == 0 && value(j) == 0 {
                None::<nat>
            } else {
                Some((value(i) * 100 + value(j) * 10 + value(k)) as nat)
            }
        }),
{
    let plain = keyed(header, key);
    let digits = digits_in(plain);
    lemma_digit_rank(plain, 5);
    lemma_digits_are_digits(plain);
    assert(plain.take(5) =~= plain);
    reveal_with_fuel(digits_before, 6);
    if digits.len() == 2 && 0 <= i < j < 5 && is_digit(plain[i]) && is_digit(plain[j]) {
        assert(digits_before(plain, i as nat) == 0);
        assert(digits_before(plain, j as nat) == 1);
        lemma_decimal_three(digits);
    }
    if digits.len() == 3 && 0 <= i < j < k < 5 && is_digit(plain[i]) && is_digit(plain[j])
        && is_digit(plain[k]) {
        assert(digits_before(plain, i as nat) == 0);
        assert(digits_before(plain, j as nat) == 1);
        assert(digits_before(plain, k as nat) == 2);
        lemma_decimal_three(digits);
    }
}

/// Law: the key applied twice changes nothing.
pub proof fn law_keyed_twice(bytes: Seq<u8>, key: Seq<u8>)
    ensures
        keyed(keyed(bytes, key), key) == bytes,
{
    if key.len() != 0 {
        assert forall|i: int| 0 <= i < bytes.len() implies #[trigger] keyed(
            keyed(bytes, key),
            key,
        )[i] == bytes[i] by {
            let b = bytes[i];
            let k = key[i % key.len() as int];
            assert((b ^ k) ^ k == b) by (bit_vector);
        }
    }
    assert(keyed(keyed(bytes, key), key) =~= bytes);
}

/// `bytes` under `key`.
pub(crate) fn apply_key(bytes: &[u8], key: &[u8]) -> (out: Vec<u8>)
    ensures
        out@ == keyed(bytes@, key@),
{
    let mut out: Vec<u8> = Vec::new();
    for i in 0..bytes.len()
        invariant
            out@.len() == i,
            forall|j: int| 0 <= j < i ==> out@[j] == #[trigger] keyed(bytes@, key@)[j],
    {
        if key.len() == 0 {
            out.push(bytes[i]);
        } else {
            out.push(bytes[i] ^ key[i % key.len()]);
        }
    }
    assert(out@ =~= keyed(bytes@, key@));
    out
}

/// The ASCII digits among `bytes`, in order.
pub(crate) fn collect_digits(bytes: &[u8]) -> (digits: Vec<u8>)
    ensures
        digits@ == digits_in(bytes@),
{
    let mut digits: Vec<u8> = Vec::new();
    proof {
        reveal(Seq::filter);
        assert(digits@ == digits_in(bytes@.take(0)));
    }
    for i in 0..bytes.len()
        invariant
            digits@ == digits_in(bytes@.take(i as int)),
    {
        let byte: u8 = bytes[i];
        proof {
            lemma_digits_push(bytes@.take(i as int), byte);
            assert(bytes@.take(i + 1) == bytes@.take(i as int).push(byte));
        }
        if 0x30 <= byte && byte <= 0x39 {
            digits.push(byte);
        }
    }
    assert(bytes@.take(bytes@.len() as int) == bytes@);
    digits
}

/// The number that at most three ASCII digits write in decimal.
pub(crate) fn decimal_value(digits: &[u8]) -> (value: usize)
    requires
        digits@.len() <= 3,
        forall|i: int| 0 <= i < digits@.len() ==> is_digit(#[trigger] digits@[i]),
    ensures
        value == decimal(digits@),
{
    let mut value: usize = 0;
    for i in 0..digits.len()
        invariant
            digits@.len() <= 3,
            forall|j: int| 0 <= j < digits@.len() ==> is_digit(#[trigger] digits@[j]),
            value == decimal(digits@.take(i as int)),
            i == 0 ==> value == 0,
            i == 1 ==> value <= 9,
            i == 2 ==> value <= 99,
            i == 3 ==> value <= 999,
    {
        let digit: usize = (digits[i] - 0x30) as usize;
        proof {
            assert(digits@.take(i + 1).drop_last() == digits@.take(i as int));
        }
        value = value * 10 + digit;
    }
    assert(digits@.take(digits@.len() as int) == digits@);
    value
}

/// Reads a header: the number of garbage bytes that follow it, or the finding
/// that no peer sent it.
pub fn decode_header(header: &[u8; 5], key: &str) -> (len: Result<usize, ObfsError>)
    ensures
        match announced_len(header@, vstd::utf8::encode_utf8(key@)) {
            Some(n) => len == Ok::<usize, ObfsError>(n as usize) && 10 <= n <= 999,
            None => len == Err::<usize, ObfsError>(ObfsError::ActiveProbe),
        },
{
    let ghost key_bytes = vstd::utf8::encode_utf8(key@);
    let plain = apply_key(header, key.as_bytes());
    let digits = collect_digits(&plain);
    let count: usize = digits.len();
    let from_peer = (count == 2 && digits[0] != 0x30) || (count == 3 && !(digits[0] == 0x30
        && digits[1] == 0x30));
    if !from_peer {
        return Err(ObfsError::ActiveProbe);
    }
    proof {
        law_announced_len_bounds(header@, key_bytes);
        lemma_digits_are_digits(plain@);
    }
    Ok(decimal_value(&digits))
}

} // verus!
