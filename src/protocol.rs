//! Wire record for spectrum data and its fixed-width binary layout.
//!
//! Every packet encodes to exactly `PACKET_SIZE` bytes: the kind byte, the
//! sample rate and timestamp in little-endian order, both band arrays, then
//! the two peaks and the two RMS levels. Floating-point quantities travel as
//! their IEEE-754 bit patterns, so the record is `u32` words throughout and the
//! bytes are those of the same values written as `f32` in little-endian order.

use vstd::bytes::{
    lemma_auto_spec_u32_to_from_le_bytes, lemma_auto_spec_u64_to_from_le_bytes,
    spec_u32_from_le_bytes, spec_u32_to_le_bytes, spec_u64_from_le_bytes,
    spec_u64_to_le_bytes, u32_from_le_bytes, u32_to_le_bytes, u64_from_le_bytes,
    u64_to_le_bytes,
};
use vstd::prelude::*;
use vstd::slice::slice_subrange;

verus! {

/// Number of frequency bands in a spectral frame.
pub const NUM_BANDS: usize = 64;

/// Kind byte of a packet carrying spectral data.
pub const PACKET_TYPE_FFT: u8 = 0;

/// Kind byte of a keep-alive packet.
pub const PACKET_TYPE_HEARTBEAT: u8 = 1;

/// Encoded size of every packet: 1 + 4 + 8 + 2 * 64 * 4 + 4 * 4 bytes.
pub const PACKET_SIZE: usize = 541;

/// Bit pattern of the decibel floor, -100.0 as `f32`.
pub const FLOOR_DB_BITS: u32 = 0xC2C8_0000;

/// Bit pattern of 0.0 as `f32`.
pub const ZERO_BITS: u32 = 0;

/// Offset of the left band array in the encoding.
pub const LEFT_BANDS_OFFSET: usize = 13;

/// Offset of the right band array in the encoding.
pub const RIGHT_BANDS_OFFSET: usize = 269;

/// Offset of the four level words in the encoding.
pub const LEVELS_OFFSET: usize = 525;

/// One audio packet. The band and level fields hold `f32` bit patterns:
/// bands and peaks in dB, RMS levels linear.
#[derive(Debug, Clone, Copy, PartialEq)]
pub struct AudioPacket {
    pub packet_type: u8,
    pub sample_rate: u32,
    pub timestamp_ms: u64,
    pub left_bands: [u32; NUM_BANDS],
    pub right_bands: [u32; NUM_BANDS],
    pub left_peak: u32,
    pub right_peak: u32,
    pub left_rms: u32,
    pub right_rms: u32,
}

/// Mathematical model of a packet, with the band arrays as sequences.
pub struct PacketView {
    pub packet_type: u8,
    pub sample_rate: u32,
    pub timestamp_ms: u64,
    pub left_bands: Seq<u32>,
    pub right_bands: Seq<u32>,
    pub left_peak: u32,
    pub right_peak: u32,
    pub left_rms: u32,
    pub right_rms: u32,
}

impl View for AudioPacket {
    type V = PacketView;

    open spec fn view(&self) -> PacketView {
        PacketView {
            packet_type: self.packet_type,
            sample_rate: self.sample_rate,
            timestamp_ms: self.timestamp_ms,
            left_bands: self.left_bands@,
            right_bands: self.right_bands@,
            left_peak: self.left_peak,
            right_peak: self.right_peak,
            left_rms: self.left_rms,
            right_rms: self.right_rms,
        }
    }
}

/// Why a byte sequence is not a packet.
#[derive(Debug, Clone, Copy, PartialEq, Eq, Structural)]
pub enum DecodeError {
    /// The input is not exactly `PACKET_SIZE` bytes long.
    Length,
    /// The kind byte names neither spectral data nor a heartbeat.
    Kind,
}

/// Whether a kind byte names one of the two packet kinds.
pub open spec fn known_kind(k: u8) -> bool {
    k == PACKET_TYPE_FFT || k == PACKET_TYPE_HEARTBEAT
}

impl PacketView {
    /// A packet of a known kind whose band arrays have the declared length.
    pub open spec fn valid(self) -> bool {
        &&& known_kind(self.packet_type)
        &&& self.left_bands.len() == NUM_BANDS
        &&& self.right_bands.len() == NUM_BANDS
    }
}

/// Little-endian bytes of a sequence of words, in order.
pub open spec fn words_le(s: Seq<u32>) -> Seq<u8>
    decreases s.len(),
{
    if s.len() == 0 {
        Seq::empty()
    } else {
        words_le(s.drop_last()) + spec_u32_to_le_bytes(s.last())
    }
}

/// The encoding of a packet.
pub open spec fn encode(p: PacketView) -> Seq<u8> {
    seq![p.packet_type] + spec_u32_to_le_bytes(p.sample_rate) + spec_u64_to_le_bytes(
        p.timestamp_ms,
    ) + words_le(p.left_bands) + words_le(p.right_bands) + spec_u32_to_le_bytes(p.left_peak)
        + spec_u32_to_le_bytes(p.right_peak) + spec_u32_to_le_bytes(p.left_rms)
        + spec_u32_to_le_bytes(p.right_rms)
}

/// The little-endian word at byte offset `at`.
pub open spec fn word_at(b: Seq<u8>, at: int) -> u32 {
    spec_u32_from_le_bytes(b.subrange(at, at + 4))
}

/// `n` consecutive little-endian words starting at byte offset `at`.
pub open spec fn words_at(b: Seq<u8>, at: int, n: nat) -> Seq<u32> {
    Seq::new(n, |k: int| word_at(b, at + 4 * k))
}

/// The packet read from a byte sequence of length `PACKET_SIZE`.
pub open spec fn decode(b: Seq<u8>) -> PacketView {
    PacketView {
        packet_type: b[0],
        sample_rate: word_at(b, 1),
        timestamp_ms: spec_u64_from_le_bytes(b.subrange(5, 13)),
        left_bands: words_at(b, LEFT_BANDS_OFFSET as int, NUM_BANDS as nat),
        right_bands: words_at(b, RIGHT_BANDS_OFFSET as int, NUM_BANDS as nat),
        left_peak: word_at(b, LEVELS_OFFSET as int),
        right_peak: word_at(b, LEVELS_OFFSET as int + 4),
        left_rms: word_at(b, LEVELS_OFFSET as int + 8),
        right_rms: word_at(b, LEVELS_OFFSET as int + 12),
    }
}

/// The heartbeat packet for a sample rate and timestamp.
pub open spec fn heartbeat_view(sample_rate: u32, timestamp_ms: u64) -> PacketView {
    PacketView {
        packet_type: PACKET_TYPE_HEARTBEAT,
        sample_rate,
        timestamp_ms,
        left_bands: Seq::new(NUM_BANDS as nat, |i: int| ZERO_BITS),
        right_bands: Seq::new(NUM_BANDS as nat, |i: int| ZERO_BITS),
        left_peak: FLOOR_DB_BITS,
        right_peak: FLOOR_DB_BITS,
        left_rms: ZERO_BITS,
        right_rms: ZERO_BITS,
    }
}

/// What decoding a byte sequence gives: a packet, or the first reason it is not one.
pub open spec fn decode_result(b: Seq<u8>) -> Result<PacketView, DecodeError> {
    if b.len() != PACKET_SIZE {
        Err(DecodeError::Length)
    } else if !known_kind(b[0]) {
        Err(DecodeError::Kind)
    } else {
        Ok(decode(b))
    }
}

proof fn lemma_words_le(s: Seq<u32>)
    ensures
        words_le(s).len() == 4 * s.len(),
        forall|k: int|
            0 <= k < s.len() ==> #[trigger] words_le(s).subrange(4 * k, 4 * k + 4)
                == spec_u32_to_le_bytes(s[k]),
    decreases s.len(),
{
    lemma_auto_spec_u32_to_from_le_bytes();
    if s.len() > 0 {
        let init = s.drop_last();
        lemma_words_le(init);
        let w = words_le(s);
        assert forall|k: int| 0 <= k < s.len() implies #[trigger] w.subrange(4 * k, 4 * k + 4)
            == spec_u32_to_le_bytes(s[k]) by {
            if k < init.len() {
                assert(w.subrange(4 * k, 4 * k + 4) =~= words_le(init).subrange(4 * k, 4 * k + 4));
            } else {
                assert(w.subrange(4 * k, 4 * k + 4) =~= spec_u32_to_le_bytes(s.last()));
            }
        }
    }
}

proof fn lemma_words_at_words_le(pre: Seq<u8>, s: Seq<u32>, post: Seq<u8>)
    ensures
        words_at(pre + words_le(s) + post, pre.len() as int, s.len()) == s,
{
    lemma_words_le(s);
    lemma_auto_spec_u32_to_from_le_bytes();
    let b = pre + words_le(s) + post;
    let at = pre.len() as int;
    assert forall|k: int| 0 <= k < s.len() implies #[trigger] words_at(b, at, s.len())[k]
        == s[k] by {
        assert(b.subrange(at + 4 * k, at + 4 * k + 4) =~= words_le(s).subrange(4 * k, 4 * k + 4));
    }
    assert(words_at(b, at, s.len()) =~= s);
}

/// The encoding of any packet with full band arrays is exactly `PACKET_SIZE`
/// bytes long, well under a budget of 600 bytes.
pub proof fn lemma_encoded_size(p: PacketView)
    requires
        p.left_bands.len() == NUM_BANDS,
        p.right_bands.len() == NUM_BANDS,
    ensures
        encode(p).len() == PACKET_SIZE,
        encode(p).len() < 600,
{
    lemma_auto_spec_u32_to_from_le_bytes();
    lemma_auto_spec_u64_to_from_le_bytes();
    lemma_words_le(p.left_bands);
    lemma_words_le(p.right_bands);
}

/// Decoding the encoding of a valid packet succeeds and gives back that packet.
pub proof fn lemma_round_trip(p: PacketView)
    requires
        p.valid(),
    ensures
        decode_result(encode(p)) == Ok::<PacketView, DecodeError>(p),
{
    lemma_encoded_size(p);
    lemma_auto_spec_u32_to_from_le_bytes();
    lemma_auto_spec_u64_to_from_le_bytes();
    let b = encode(p);
    let head = seq![p.packet_type] + spec_u32_to_le_bytes(p.sample_rate) + spec_u64_to_le_bytes(
        p.timestamp_ms,
    );
    let lw = words_le(p.left_bands);
    let rw = words_le(p.right_bands);
    let lp = spec_u32_to_le_bytes(p.left_peak);
    let rp = spec_u32_to_le_bytes(p.right_peak);
    let lr = spec_u32_to_le_bytes(p.left_rms);
    let rr = spec_u32_to_le_bytes(p.right_rms);
    lemma_words_le(p.left_bands);
    lemma_words_le(p.right_bands);
    assert(head.len() == 13);
    assert(b =~= head + lw + (rw + lp + rp + lr + rr));
    lemma_words_at_words_le(head, p.left_bands, rw + lp + rp + lr + rr);
    assert(b =~= (head + lw) + rw + (lp + rp + lr + rr));
    lemma_words_at_words_le(head + lw, p.right_bands, lp + rp + lr + rr);
    assert(b.subrange(1, 5) =~= spec_u32_to_le_bytes(p.sample_rate));
    assert(b.subrange(5, 13) =~= spec_u64_to_le_bytes(p.timestamp_ms));
    assert(b.subrange(525, 529) =~= lp);
    assert(b.subrange(529, 533) =~= rp);
    assert(b.subrange(533, 537) =~= lr);
    assert(b.subrange(537, 541) =~= rr);
    assert(decode(b) == p);
}

/// Appends the little-endian bytes of `x`.
fn push_u32(out: &mut Vec<u8>, x: u32)
    ensures
        final(out)@ == old(out)@ + spec_u32_to_le_bytes(x),
{
    let mut b = u32_to_le_bytes(x);
    out.append(&mut b);
}

/// Appends the little-endian bytes of every word of `words`.
fn push_words(out: &mut Vec<u8>, words: &[u32; NUM_BANDS])
    ensures
        final(out)@ == old(out)@ + words_le(words@),
{
    let ghost start = out@;
    let mut i: usize = 0;
    while i < NUM_BANDS
        invariant
            i <= NUM_BANDS,
            out@ == start + words_le(words@.take(i as int)),
        decreases NUM_BANDS - i,
    {
        push_u32(out, words[i]);
        proof {
            let t = words@.take(i as int + 1);
            assert(t.drop_last() =~= words@.take(i as int));
            assert(out@ =~= start + words_le(t));
        }
        i = i + 1;
    }
    assert(words@.take(NUM_BANDS as int) =~= words@);
}

/// Reads the little-endian word at byte offset `at`.
fn read_u32(b: &[u8], at: usize) -> (r: u32)
    requires
        at + 4 <= b.len(),
    ensures
        r == word_at(b@, at as int),
{
    u32_from_le_bytes(slice_subrange(b, at, at + 4))
}

/// Reads `NUM_BANDS` little-endian words starting at byte offset `at`.
fn read_words(b: &[u8], at: usize) -> (r: [u32; NUM_BANDS])
    requires
        at + 4 * NUM_BANDS <= b.len(),
    ensures
        r@ == words_at(b@, at as int, NUM_BANDS as nat),
{
    let mut out = [0u32; NUM_BANDS];
    let mut i: usize = 0;
    while i < NUM_BANDS
        invariant
            i <= NUM_BANDS,
            at + 4 * NUM_BANDS <= b.len(),
            out@.len() == NUM_BANDS,
            forall|k: int| 0 <= k < i ==> out@[k] == word_at(b@, at + 4 * k),
        decreases NUM_BANDS - i,
    {
        out[i] = read_u32(b, at + 4 * i);
        i = i + 1;
    }
    assert(out@ =~= words_at(b@, at as int, NUM_BANDS as nat));
    out
}

impl AudioPacket {
    /// A spectral-data packet with the given fields.
    pub fn new_fft(
        sample_rate: u32,
        timestamp_ms: u64,
        left_bands: [u32; NUM_BANDS],
        right_bands: [u32; NUM_BANDS],
        left_peak: u32,
        right_peak: u32,
        left_rms: u32,
        right_rms: u32,
    ) -> (r: Self)
        ensures
            r.packet_type == PACKET_TYPE_FFT,
            r.sample_rate == sample_rate,
            r.timestamp_ms == timestamp_ms,
            r.left_bands == left_bands,
            r.right_bands == right_bands,
            r.left_peak == left_peak,
            r.right_peak == right_peak,
            r.left_rms == left_rms,
            r.right_rms == right_rms,
    {
        AudioPacket {
            packet_type: PACKET_TYPE_FFT,
            sample_rate,
            timestamp_ms,
            left_bands,
            right_bands,
            left_peak,
            right_peak,
            left_rms,
            right_rms,
        }
    }

    /// A heartbeat packet: zero-filled bands, peaks at the dB floor, zero RMS.
    pub fn new_heartbeat(sample_rate: u32, timestamp_ms: u64) -> (r: Self)
        ensures
            r@ == heartbeat_view(sample_rate, timestamp_ms),
    {
        let r = AudioPacket {
            packet_type: PACKET_TYPE_HEARTBEAT,
            sample_rate,
            timestamp_ms,
            left_bands: [ZERO_BITS; NUM_BANDS],
            right_bands: [ZERO_BITS; NUM_BANDS],
            left_peak: FLOOR_DB_BITS,
            right_peak: FLOOR_DB_BITS,
            left_rms: ZERO_BITS,
            right_rms: ZERO_BITS,
        };
        assert(r@.left_bands =~= Seq::new(NUM_BANDS as nat, |i: int| ZERO_BITS));
        assert(r@.right_bands =~= Seq::new(NUM_BANDS as nat, |i: int| ZERO_BITS));
        r
    }

    /// The packet's bytes in the fixed layout. Never fails.
    pub fn to_bytes(&self) -> (r: Vec<u8>)
        ensures
            r@ == encode(self@),
            r@.len() == PACKET_SIZE,
    {
        let mut out: Vec<u8> = Vec::with_capacity(PACKET_SIZE);
        out.push(self.packet_type);
        push_u32(&mut out, self.sample_rate);
        let mut ts = u64_to_le_bytes(self.timestamp_ms);
        out.append(&mut ts);
        push_words(&mut out, &self.left_bands);
        push_words(&mut out, &self.right_bands);
        push_u32(&mut out, self.left_peak);
        push_u32(&mut out, self.right_peak);
        push_u32(&mut out, self.left_rms);
        push_u32(&mut out, self.right_rms);
        proof {
            assert(out@ =~= encode(self@));
            lemma_encoded_size(self@);
        }
        out
    }

    /// Reads a packet from its fixed layout. Fails on any length other than
    /// `PACKET_SIZE`, then on an unknown kind byte.
    pub fn from_bytes(data: &[u8]) -> (r: Result<Self, DecodeError>)
        ensures
            r is Ok <==> decode_result(data@) is Ok,
            r matches Ok(p) ==> decode_result(data@) == Ok::<PacketView, DecodeError>(p@),
            r matches Err(e) ==> decode_result(data@) == Err::<PacketView, DecodeError>(e),
    {
        if data.len() != PACKET_SIZE {
            return Err(DecodeError::Length);
        }
        let packet_type = data[0];
        if packet_type != PACKET_TYPE_FFT && packet_type != PACKET_TYPE_HEARTBEAT {
            return Err(DecodeError::Kind);
        }
        let p = AudioPacket {
            packet_type,
            sample_rate: read_u32(data, 1),
            timestamp_ms: u64_from_le_bytes(slice_subrange(data, 5, 13)),
            left_bands: read_words(data, LEFT_BANDS_OFFSET),
            right_bands: read_words(data, RIGHT_BANDS_OFFSET),
            left_peak: read_u32(data, LEVELS_OFFSET),
            right_peak: read_u32(data, LEVELS_OFFSET + 4),
            left_rms: read_u32(data, LEVELS_OFFSET + 8),
            right_rms: read_u32(data, LEVELS_OFFSET + 12),
        };
        assert(p@ == decode(data@));
        Ok(p)
    }
}

} // verus!
