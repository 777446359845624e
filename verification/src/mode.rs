//! Whether, and from which side, a connection is disguised.

use tokio::task::LocalKey;
use vstd::prelude::*;

verus! {

/// The connection is relayed as it is.
pub const MODE_PLAIN: u8 = 0;

/// The connection is disguised, and this side opens it with a prefix.
pub const MODE_CLIENT: u8 = 1;

/// The connection is disguised, and this side expects a prefix.
pub const MODE_SERVER: u8 = 2;

/// `tokio::task::LocalKey`, carried as it is.
#[verifier::external_type_specification]
#[verifier::external_body]
#[verifier::reject_recursive_types(T)]
pub struct ExLocalKey<T: 'static>(tokio::task::LocalKey<T>);

/// `LocalKey::try_with`: a copy of the value that the current task holds under
/// `key`, or none where it holds no value. Which of the two comes, and which
/// value, rests on the running task: nothing is claimed of it.
#[verifier::external_body]
pub fn held_by_task(key: &'static LocalKey<u8>) -> Option<u8> {
    key.try_with(|held| *held).ok()
}

/// The mode of a task that holds `held` as its mode: plain where it holds none.
pub open spec fn mode_held(held: Option<u8>) -> u8 {
    match held {
        Some(mode) => mode,
        None => MODE_PLAIN,
    }
}

/// The mode of a task that holds `held` as its mode: plain where it holds none.
pub fn held_or_plain(held: Option<u8>) -> (mode: u8)
    ensures
        mode == mode_held(held),
        held matches Some(m) ==> mode == m,
        held is None ==> mode == 0,
{
    match held {
        Some(mode) => mode,
        None => MODE_PLAIN,
    }
}

/// The mode of the current task: what the task holds under `key`, or plain where it
/// holds nothing. What it holds rests on the scope that it runs in.
pub fn get_obfs_mode(key: &'static LocalKey<u8>) -> (mode: u8)
    ensures
        exists|held: Option<u8>| #[trigger]
            call_ensures(held_by_task, (key,), held) && mode == mode_held(held),
{
    held_or_plain(held_by_task(key))
}

/// The mode that an endpoint's `obfs` option asks for: any word but `client` and
/// `server` asks for a plain relay.
pub open spec fn mode_of_option(obfs: Seq<char>) -> u8 {
    if obfs == "client"@ {
        MODE_CLIENT
    } else if obfs == "server"@ {
        MODE_SERVER
    } else {
        MODE_PLAIN
    }
}

/// The mode that an endpoint's `obfs` option asks for.
pub fn parse_obfs_mode(obfs: &str) -> (mode: u8)
    ensures
        mode == mode_of_option(obfs@),
        mode == 1 <==> obfs@ == "client"@,
        mode == 2 <==> obfs@ == "server"@,
        mode <= 2,
{
    proof {
        law_option_names_the_mode(obfs@);
    }
    if same_text(obfs, "client") {
        MODE_CLIENT
    } else if same_text(obfs, "server") {
        MODE_SERVER
    } else {
        MODE_PLAIN
    }
}

/// Whether two strings hold the same text.
fn same_text(a: &str, b: &str) -> (same: bool)
    ensures
        same == (a@ == b@),
{
    let x = a.as_bytes();
    let y = b.as_bytes();
    proof {
        vstd::utf8::encode_utf8_decode_utf8(a@);
        vstd::utf8::encode_utf8_decode_utf8(b@);
    }
    if x.len() != y.len() {
        return false;
    }
    for i in 0..x.len()
        invariant
            x@ == vstd::utf8::encode_utf8(a@),
            y@ == vstd::utf8::encode_utf8(b@),
            x@.len() == y@.len(),
            x@.take(i as int) == y@.take(i as int),
    {
        if x[i] != y[i] {
            return false;
        }
        assert(x@.take(i + 1) == x@.take(i as int).push(x@[i as int]));
        assert(y@.take(i + 1) == y@.take(i as int).push(y@[i as int]));
    }
    assert(x@ == x@.take(x@.len() as int));
    assert(y@ == y@.take(y@.len() as int));
    true
}

/// Law: exactly the word `client` asks for the client's side and exactly the word
/// `server` for the server's; everything else asks for a plain relay.
pub proof fn law_option_names_the_mode(obfs: Seq<char>)
    ensures
        mode_of_option(obfs) == 1 <==> obfs == seq!['c', 'l', 'i', 'e', 'n', 't'],
        mode_of_option(obfs) == 2 <==> obfs == seq!['s', 'e', 'r', 'v', 'e', 'r'],
        mode_of_option(obfs) <= 2,
        "client"@ == seq!['c', 'l', 'i', 'e', 'n', 't'],
        "server"@ == seq!['s', 'e', 'r', 'v', 'e', 'r'],
{
    reveal_strlit("client");
    reveal_strlit("server");
    assert("client"@ =~= seq!['c', 'l', 'i', 'e', 'n', 't']);
    assert("server"@ =~= seq!['s', 'e', 'r', 'v', 'e', 'r']);
    assert("client"@[0] != "server"@[0]);
}

/// Law: a task's mode is whatever it holds, and plain where it holds nothing.
pub proof fn law_held_mode_is_kept(mode: u8)
    ensures
        mode_held(Some(mode)) == mode,
        mode_held(None) == 0,
{
}

} // verus!
