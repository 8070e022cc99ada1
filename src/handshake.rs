//! The protocol-upgrade handshake that opens a stream connection: the request
//! the client writes, the decision after each read of the reply, and the check
//! that the reply switched protocols.

use vstd::prelude::*;
use vstd::string::StringSliceAdditionalSpecFns;
use vstd::utf8::{decode_utf8, encode_utf8_decode_utf8, valid_utf8};

verus! {

/// Size of the buffer the reply headers are read into.
pub const RESPONSE_CAPACITY: usize = 1024;

/// Length of a handshake key: 16 bytes in padded base64.
pub const KEY_LEN: usize = 24;

/// Carriage return.
pub const CR: u8 = 13;

/// Line feed.
pub const LF: u8 = 10;

/// The digit `0`.
pub const ZERO_DIGIT: u8 = 48;

/// Whether `needle` occurs in `hay` as a contiguous run.
pub open spec fn contains(hay: Seq<char>, needle: Seq<char>) -> bool {
    exists|i: int|
        0 <= i && i + needle.len() <= hay.len() && #[trigger] hay.subrange(i, i + needle.len())
            == needle
}

/// A byte of the padded base64 alphabet.
pub open spec fn base64_byte(b: u8) -> bool {
    // A-Z, a-z, 0-9, '+', '/', and '=' for padding
    (65 <= b <= 90) || (97 <= b <= 122) || (48 <= b <= 57) || b == 43 || b == 47 || b == 61
}

/// What the lowercase form of a text is.
pub uninterp spec fn lower_of(s: Seq<char>) -> Seq<char>;

/// Relies on `str::to_lowercase`: the result depends on the characters alone.
#[verifier::external_body]
fn lowercase(s: &str) -> (r: String)
    ensures
        r@ == lower_of(s@),
{
    s.to_lowercase()
}

/// Relies on `str::contains` with a string pattern: true exactly when the
/// pattern occurs in the text.
#[verifier::external_body]
fn has_substring(s: &str, pat: &str) -> (r: bool)
    ensures
        r == contains(s@, pat@),
{
    s.contains(pat)
}

/// Relies on `std::str::from_utf8`: it accepts exactly the valid UTF-8 byte
/// sequences and then views the same bytes as text.
#[verifier::external_body]
fn utf8_text(b: &[u8]) -> (r: Option<&str>)
    ensures
        r is Some <==> valid_utf8(b@),
        r matches Some(s) ==> s.spec_bytes() == b@,
{
    std::str::from_utf8(b).ok()
}

/// Relies on `tungstenite::handshake::client::generate_key`: 16 random bytes
/// in padded base64, so 24 characters of that alphabet.
#[verifier::external_body]
fn handshake_key() -> (r: Vec<u8>)
    ensures
        r@.len() == KEY_LEN,
        forall|i: int| 0 <= i < r@.len() ==> base64_byte(#[trigger] r@[i]),
{
    tungstenite::handshake::client::generate_key().into_bytes()
}

/// Decimal digits of `n`, most significant first, without leading zeros.
pub open spec fn decimal(n: nat) -> Seq<u8>
    decreases n,
{
    if n < 10 {
        seq![(ZERO_DIGIT + n) as u8]
    } else {
        decimal(n / 10) + seq![(ZERO_DIGIT + n % 10) as u8]
    }
}

/// The upgrade request for a loopback port and a handshake key.
pub open spec fn upgrade_request(port: u16, key: Seq<u8>) -> Seq<u8> {
    "GET / HTTP/1.1\r\nHost: 127.0.0.1:".spec_bytes() + decimal(port as nat)
        + "\r\nUpgrade: websocket\r\nConnection: Upgrade\r\nSec-WebSocket-Key: ".spec_bytes() + key
        + "\r\nSec-WebSocket-Version: 13\r\n\r\n".spec_bytes()
}

/// Appends every byte of `s`.
fn push_all(out: &mut Vec<u8>, s: &[u8])
    ensures
        final(out)@ == old(out)@ + s@,
{
    let ghost start = out@;
    let mut i: usize = 0;
    while i < s.len()
        invariant
            i <= s@.len(),
            out@ == start + s@.take(i as int),
        decreases s@.len() - i,
    {
        out.push(s[i]);
        assert(s@.take(i as int + 1) =~= s@.take(i as int).push(s@[i as int]));
        i = i + 1;
    }
    assert(s@.take(s@.len() as int) =~= s@);
}

/// Appends the decimal digits of `n`.
fn push_decimal(out: &mut Vec<u8>, n: u16)
    ensures
        final(out)@ == old(out)@ + decimal(n as nat),
    decreases n,
{
    if n >= 10 {
        push_decimal(out, n / 10);
    }
    out.push(ZERO_DIGIT + (n % 10) as u8);
    assert(out@ =~= old(out)@ + decimal(n as nat));
}

/// The upgrade request for `port` carrying `key`.
pub fn request_with_key(port: u16, key: &[u8]) -> (r: Vec<u8>)
    ensures
        r@ == upgrade_request(port, key@),
{
    let mut out: Vec<u8> = Vec::new();
    push_all(&mut out, "GET / HTTP/1.1\r\nHost: 127.0.0.1:".as_bytes());
    push_decimal(&mut out, port);
    push_all(
        &mut out,
        "\r\nUpgrade: websocket\r\nConnection: Upgrade\r\nSec-WebSocket-Key: ".as_bytes(),
    );
    push_all(&mut out, key);
    push_all(&mut out, "\r\nSec-WebSocket-Version: 13\r\n\r\n".as_bytes());
    out
}

/// The upgrade request for `port`, with a freshly generated key.
pub fn new_upgrade_request(port: u16) -> (r: Vec<u8>)
    ensures
        exists|key: Seq<u8>|
            key.len() == KEY_LEN && (forall|i: int| 0 <= i < key.len() ==> base64_byte(#[trigger] key[i]))
                && r@ == #[trigger] upgrade_request(port, key),
{
    let key = handshake_key();
    let r = request_with_key(port, key.as_slice());
    assert(r@ == upgrade_request(port, key@));
    r
}

/// What the reader of the reply headers does after a read.
#[derive(Debug, Clone, Copy, PartialEq, Eq, Structural)]
pub enum ReadProgress {
    /// The peer closed the stream: the handshake failed.
    Closed,
    /// The headers ended with an empty line.
    Complete,
    /// The buffer filled up before the headers ended: the handshake failed.
    Overflow,
    /// Read again.
    More,
}

/// Whether a reply ends with the empty line that closes the headers.
pub open spec fn ends_headers(r: Seq<u8>) -> bool {
    r.len() >= 4 && r.subrange(r.len() - 4, r.len() as int) == seq![CR, LF, CR, LF]
}

/// The decision after a read of `n` bytes, given everything received so
/// far (including those `n` bytes) and the buffer's capacity.
pub open spec fn progress(received: Seq<u8>, n: nat, capacity: nat) -> ReadProgress {
    if n == 0 {
        ReadProgress::Closed
    } else if ends_headers(received) {
        ReadProgress::Complete
    } else if received.len() >= capacity {
        ReadProgress::Overflow
    } else {
        ReadProgress::More
    }
}

/// The decision after a read of `n` bytes; `received` is everything read so
/// far, those bytes included.
pub fn after_read(received: &[u8], n: usize, capacity: usize) -> (r: ReadProgress)
    ensures
        r == progress(received@, n as nat, capacity as nat),
{
    let len = received.len();
    if n == 0 {
        ReadProgress::Closed
    } else if len >= 4 && received[len - 4] == CR && received[len - 3] == LF
        && received[len - 2] == CR && received[len - 1] == LF {
        assert(received@.subrange(len - 4, len as int) =~= seq![CR, LF, CR, LF]);
        ReadProgress::Complete
    } else if len >= capacity {
        ReadProgress::Overflow
    } else {
        ReadProgress::More
    }
}

/// Space.
pub const SP: u8 = 32;

/// The status line's start when the server switches protocols.
pub open spec fn switching_status() -> Seq<u8> {
    "HTTP/1.1 101".spec_bytes()
}

/// Whether a reply's status line carries code 101: it starts with
/// `HTTP/1.1 101`, followed by a space or the line's end.
pub open spec fn status_is_101(reply: Seq<u8>) -> bool {
    let line = switching_status();
    &&& reply.len() > line.len()
    &&& reply.subrange(0, line.len() as int) == line
    &&& (reply[line.len() as int] == SP || reply[line.len() as int] == CR)
}

/// Whether a reply signals a protocol switch: its status line carries code
/// 101, and `lowered`, the lowercase form of its text, mentions `upgrade`.
pub fn switch_confirmed(reply: &[u8], lowered: &str) -> (r: bool)
    ensures
        r == (status_is_101(reply@) && contains(lowered@, "upgrade"@)),
{
    let line = "HTTP/1.1 101".as_bytes();
    let len = line.len();
    if reply.len() <= len {
        return false;
    }
    let mut i: usize = 0;
    while i < len
        invariant
            i <= len,
            len == line@.len(),
            line@ == switching_status(),
            reply@.len() > len,
            reply@.subrange(0, i as int) == line@.subrange(0, i as int),
        decreases len - i,
    {
        if reply[i] != line[i] {
            assert(reply@.subrange(0, len as int)[i as int] != line@[i as int]);
            return false;
        }
        assert(reply@.subrange(0, i as int + 1) =~= line@.subrange(0, i as int + 1));
        i = i + 1;
    }
    assert(line@.subrange(0, len as int) =~= line@);
    let next = reply[len];
    (next == SP || next == CR) && has_substring(lowered, "upgrade")
}

/// Whether the reply bytes are text that signals a protocol switch.
pub fn response_accepted(reply: &[u8]) -> (r: bool)
    ensures
        r == (valid_utf8(reply@) && status_is_101(reply@) && contains(
            lower_of(decode_utf8(reply@)),
            "upgrade"@,
        )),
{
    match utf8_text(reply) {
        Some(text) => {
            proof {
                encode_utf8_decode_utf8(text@);
            }
            let lowered = lowercase(text);
            switch_confirmed(reply, lowered.as_str())
        },
        None => false,
    }
}

} // verus!
