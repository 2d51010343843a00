//! The RIFF/WAVE container for single-channel 16-bit PCM.
//!
//! `encode_wav` frames a sample sequence as the exact byte sequence
//! `wav_bytes_spec` gives: a 44-byte canonical header followed by the
//! samples, little-endian. `decode_wav` reads such a byte sequence back;
//! its contract states both that anything it accepts really is the
//! framing of what it returns, and that every encoded sequence is
//! accepted and returned unchanged — the round trip is lossless.

use vstd::prelude::*;
use vstd::arithmetic::div_mod::lemma_fundamental_div_mod;
use vstd::arithmetic::div_mod::lemma_div_denominator;
use vstd::arithmetic::div_mod::lemma_div_is_ordered;
use vstd::arithmetic::div_mod::lemma_small_mod;
use vstd::arithmetic::div_mod::lemma_div_multiples_vanish_fancy;
use vstd::arithmetic::div_mod::lemma_mod_multiples_vanish;
use vstd::arithmetic::div_mod::lemma_mod_multiples_basic;
use vstd::arithmetic::div_mod::lemma_div_pos_is_pos;

verus! {

/// The most samples one file can carry: the data chunk and the RIFF
/// size must fit 32 bits.
pub const MAX_SAMPLES: usize = 0x7FFF_FFE2;

/// The highest admitted sample rate: the byte rate field must fit 32
/// bits.
pub const MAX_RATE: u32 = 0x7FFF_FFFF;

/// A sample reinterpreted as its unsigned 16-bit wire value.
pub open spec fn to_u16_spec(x: i16) -> int {
    if x >= 0 {
        x as int
    } else {
        x + 65536
    }
}

/// Byte `k` of a little-endian 32-bit field.
pub open spec fn lb0(v: int) -> u8 {
    (v % 256) as u8
}

pub open spec fn lb1(v: int) -> u8 {
    ((v / 256) % 256) as u8
}

pub open spec fn lb2(v: int) -> u8 {
    ((v / 65536) % 256) as u8
}

pub open spec fn lb3(v: int) -> u8 {
    ((v / 16777216) % 256) as u8
}

/// The canonical 44-byte header: RIFF size, "WAVE", one PCM format
/// chunk (mono, 16 bits, the given rate), and the data chunk size.
#[verifier::opaque]
pub open spec fn wav_header_spec(sr: int, data_len: int) -> Seq<u8> {
    seq![
        0x52u8, 0x49u8, 0x46u8, 0x46u8,
        lb0(36 + data_len), lb1(36 + data_len), lb2(36 + data_len), lb3(36 + data_len),
        0x57u8, 0x41u8, 0x56u8, 0x45u8,
        0x66u8, 0x6du8, 0x74u8, 0x20u8,
        16u8, 0u8, 0u8, 0u8,
        1u8, 0u8,
        1u8, 0u8,
        lb0(sr), lb1(sr), lb2(sr), lb3(sr),
        lb0(2 * sr), lb1(2 * sr), lb2(2 * sr), lb3(2 * sr),
        2u8, 0u8,
        16u8, 0u8,
        0x64u8, 0x61u8, 0x74u8, 0x61u8,
        lb0(data_len), lb1(data_len), lb2(data_len), lb3(data_len),
    ]
}

/// The samples on the wire: each as two little-endian bytes.
pub open spec fn sample_bytes_spec(s: Seq<i16>) -> Seq<u8>
    decreases s.len(),
{
    if s.len() == 0 {
        Seq::<u8>::empty()
    } else {
        sample_bytes_spec(s.drop_last()) + seq![
            (to_u16_spec(s.last()) % 256) as u8,
            (to_u16_spec(s.last()) / 256) as u8,
        ]
    }
}

/// The whole file: header, then samples.
pub open spec fn wav_bytes_spec(sr: int, s: Seq<i16>) -> Seq<u8> {
    wav_header_spec(sr, 2 * (s.len() as int)) + sample_bytes_spec(s)
}

/// Two wire bytes per sample.
pub proof fn lemma_sample_bytes_len(s: Seq<i16>)
    ensures
        sample_bytes_spec(s).len() == 2 * s.len(),
    decreases s.len(),
{
    if s.len() > 0 {
        lemma_sample_bytes_len(s.drop_last());
    }
}

/// The wire bytes of sample `j` stand at offsets `2j` and `2j + 1`.
pub proof fn lemma_sample_bytes_index(s: Seq<i16>, j: int)
    requires
        0 <= j < s.len(),
    ensures
        sample_bytes_spec(s)[2 * j] == (to_u16_spec(s[j]) % 256) as u8,
        sample_bytes_spec(s)[2 * j + 1] == (to_u16_spec(s[j]) / 256) as u8,
    decreases s.len(),
{
    lemma_sample_bytes_len(s.drop_last());
    if j == s.len() - 1 {
    } else {
        lemma_sample_bytes_index(s.drop_last(), j);
    }
}

/// A 32-bit value is recovered from its four little-endian bytes.
proof fn lemma_le32_decomp(v: int)
    requires
        0 <= v < 0x1_0000_0000,
    ensures
        v == (v % 256) + 256 * ((v / 256) % 256) + 65536 * ((v / 65536) % 256) + 16777216 * ((v
            / 16777216) % 256),
{
    lemma_fundamental_div_mod(v, 256);
    lemma_fundamental_div_mod(v / 256, 256);
    lemma_div_denominator(v, 256, 256);
    lemma_fundamental_div_mod(v / 65536, 256);
    lemma_div_denominator(v, 65536, 256);
    lemma_div_pos_is_pos(v, 16777216);
    lemma_div_is_ordered(v, 0xFFFF_FFFF, 16777216);
    lemma_small_mod((v / 16777216) as nat, 256nat);
}

/// A 16-bit value is recovered from its two little-endian bytes.
proof fn lemma_le16_recompose(lo: int, hi: int)
    requires
        0 <= lo < 256,
        0 <= hi < 256,
    ensures
        (lo + 256 * hi) % 256 == lo,
        (lo + 256 * hi) / 256 == hi,
{
    lemma_div_multiples_vanish_fancy(hi, lo, 256);
    assert(256 * hi + lo == lo + 256 * hi);
    lemma_mod_multiples_vanish(hi, lo, 256);
    lemma_small_mod(lo as nat, 256nat);
}

/// What the framing of `(sr0, s0)` looks like from outside: its length
/// and the little-endian rate field at offset 24.
proof fn lemma_wav_shape(bytes: Seq<u8>, sr0: u32, s0: Seq<i16>)
    requires
        bytes == wav_bytes_spec(sr0 as int, s0),
    ensures
        bytes.len() == 44 + 2 * s0.len(),
        (bytes.len() - 44) % 2 == 0,
        bytes[24] + 256 * bytes[25] + 65536 * bytes[26] + 16777216 * bytes[27] == sr0 as int,
{
    reveal(wav_header_spec);
    lemma_sample_bytes_len(s0);
    lemma_mod_multiples_basic(s0.len() as int, 2);
    lemma_le32_decomp(sr0 as int);
    assert(bytes[24] == lb0(sr0 as int));
    assert(bytes[25] == lb1(sr0 as int));
    assert(bytes[26] == lb2(sr0 as int));
    assert(bytes[27] == lb3(sr0 as int));
}

/// Append a 32-bit value, little-endian.
fn push_le32(out: &mut Vec<u8>, v: u32)
    ensures
        final(out)@ == old(out)@ + seq![lb0(v as int), lb1(v as int), lb2(v as int), lb3(v as int)],
{
    out.push((v % 256) as u8);
    out.push(((v / 256) % 256) as u8);
    out.push(((v / 65536) % 256) as u8);
    out.push(((v / 16777216) % 256) as u8);
    assert(out@ =~= old(out)@ + seq![
        lb0(v as int),
        lb1(v as int),
        lb2(v as int),
        lb3(v as int),
    ]);
}

/// Read the 32-bit little-endian value at `off`.
fn read_le32(bytes: &Vec<u8>, off: usize) -> (r: u32)
    requires
        off + 4 <= bytes@.len(),
    ensures
        r as int == bytes@[off as int] + 256 * bytes@[off as int + 1] + 65536 * bytes@[off as int
            + 2] + 16777216 * bytes@[off as int + 3],
{
    let n: usize = bytes.len();
    assert(off + 4 <= n);
    bytes[off] as u32 + 256 * (bytes[off + 1] as u32) + 65536 * (bytes[off + 2] as u32)
        + 16777216 * (bytes[off + 3] as u32)
}

/// The canonical header as bytes.
fn header_bytes(sample_rate: u32, data_len: u32) -> (r: Vec<u8>)
    requires
        sample_rate <= MAX_RATE,
        data_len as int + 36 <= u32::MAX as int,
    ensures
        r@ == wav_header_spec(sample_rate as int, data_len as int),
        r@.len() == 44,
{
    let mut out: Vec<u8> = Vec::new();
    out.push(0x52);
    out.push(0x49);
    out.push(0x46);
    out.push(0x46);
    push_le32(&mut out, 36 + data_len);
    out.push(0x57);
    out.push(0x41);
    out.push(0x56);
    out.push(0x45);
    out.push(0x66);
    out.push(0x6d);
    out.push(0x74);
    out.push(0x20);
    push_le32(&mut out, 16);
    out.push(1);
    out.push(0);
    out.push(1);
    out.push(0);
    push_le32(&mut out, sample_rate);
    push_le32(&mut out, 2 * sample_rate);
    out.push(2);
    out.push(0);
    out.push(16);
    out.push(0);
    out.push(0x64);
    out.push(0x61);
    out.push(0x74);
    out.push(0x61);
    push_le32(&mut out, data_len);
    proof {
        reveal(wav_header_spec);
        assert(out@ =~= wav_header_spec(sample_rate as int, data_len as int));
    }
    out
}

/// Frame `samples` at `sample_rate` as one complete RIFF/WAVE byte
/// sequence.
pub fn encode_wav(sample_rate: u32, samples: &Vec<i16>) -> (r: Vec<u8>)
    requires
        sample_rate <= MAX_RATE,
        samples@.len() <= MAX_SAMPLES,
    ensures
        r@ == wav_bytes_spec(sample_rate as int, samples@),
        r@.len() == 44 + 2 * samples@.len(),
{
    let n: usize = samples.len();
    let data_len: u32 = (n as u32) * 2;
    let mut out: Vec<u8> = header_bytes(sample_rate, data_len);
    let mut i: usize = 0;
    proof {
        reveal(wav_header_spec);
        assert(samples@.take(0) =~= Seq::<i16>::empty());
        lemma_sample_bytes_len(samples@.take(0));
        assert(out@ =~= wav_header_spec(sample_rate as int, data_len as int)
            + sample_bytes_spec(samples@.take(0)));
    }
    while i < n
        invariant
            n == samples@.len(),
            n <= MAX_SAMPLES,
            data_len == 2 * n,
            sample_rate <= MAX_RATE,
            i <= n,
            out@ == wav_header_spec(sample_rate as int, data_len as int) + sample_bytes_spec(
                samples@.take(i as int),
            ),
        decreases n - i,
    {
        let x: i16 = samples[i];
        let xi: i32 = x as i32;
        let u: u32 = if xi >= 0 {
            xi as u32
        } else {
            (xi + 65536) as u32
        };
        assert(u as int == to_u16_spec(x));
        out.push((u % 256) as u8);
        out.push((u / 256) as u8);
        proof {
            let t = samples@.take(i as int + 1);
            assert(t.drop_last() =~= samples@.take(i as int));
            assert(t.last() == samples@[i as int]);
            assert(out@ =~= wav_header_spec(sample_rate as int, data_len as int)
                + sample_bytes_spec(t));
        }
        i = i + 1;
    }
    proof {
        assert(samples@.take(n as int) =~= samples@);
        lemma_sample_bytes_len(samples@);
    }
    out
}

/// Compare two byte vectors.
fn bytes_eq(a: &Vec<u8>, b: &Vec<u8>) -> (r: bool)
    ensures
        r <==> a@ == b@,
{
    if a.len() != b.len() {
        return false;
    }
    let mut i: usize = 0;
    while i < a.len()
        invariant
            a@.len() == b@.len(),
            i <= a@.len(),
            forall|j: int| 0 <= j < i ==> a@[j] == b@[j],
        decreases a@.len() - i,
    {
        if a[i] != b[i] {
            return false;
        }
        i = i + 1;
    }
    assert(a@ =~= b@);
    true
}

/// Read one complete RIFF/WAVE byte sequence back into its sample rate
/// and samples. Exactly the byte sequences `encode_wav` produces are
/// accepted, and they return precisely what was framed.
#[verifier::rlimit(100)]
pub fn decode_wav(bytes: &Vec<u8>) -> (r: Option<(u32, Vec<i16>)>)
    ensures
        (r matches Some(p) ==> p.0 <= MAX_RATE && p.1@.len() <= MAX_SAMPLES && bytes@
            == wav_bytes_spec(p.0 as int, p.1@)),
        forall|sr0: u32, s0: Seq<i16>|
            sr0 <= MAX_RATE && s0.len() <= MAX_SAMPLES && bytes@ == wav_bytes_spec(
                sr0 as int,
                s0,
            ) ==> (r matches Some(p) && p.0 == sr0 && p.1@ == s0),
{
    let len: usize = bytes.len();
    if len < 44 || (len - 44) % 2 != 0 {
        proof {
            assert forall|sr0: u32, s0: Seq<i16>|
                sr0 <= MAX_RATE && s0.len() <= MAX_SAMPLES && bytes@ == wav_bytes_spec(
                    sr0 as int,
                    s0,
                ) implies false by {
                lemma_wav_shape(bytes@, sr0, s0);
            }
        }
        return None;
    }
    let n: usize = (len - 44) / 2;
    proof {
        lemma_fundamental_div_mod((len - 44) as int, 2);
    }
    let sr: u32 = read_le32(bytes, 24);
    if n > MAX_SAMPLES || sr > MAX_RATE {
        proof {
            assert forall|sr0: u32, s0: Seq<i16>|
                sr0 <= MAX_RATE && s0.len() <= MAX_SAMPLES && bytes@ == wav_bytes_spec(
                    sr0 as int,
                    s0,
                ) implies false by {
                lemma_wav_shape(bytes@, sr0, s0);
                assert(n == s0.len());
                assert(sr as int == sr0 as int);
            }
        }
        return None;
    }
    let mut samples: Vec<i16> = Vec::new();
    let mut j: usize = 0;
    while j < n
        invariant
            len == bytes@.len(),
            len == 44 + 2 * n,
            j <= n,
            samples@.len() == j,
            forall|k: int| 0 <= k < j ==> to_u16_spec(#[trigger] samples@[k]) == bytes@[44 + 2 * k]
                + 256 * bytes@[44 + 2 * k + 1],
        decreases n - j,
    {
        let lo: u8 = bytes[44 + 2 * j];
        let hi: u8 = bytes[44 + 2 * j + 1];
        let u: u32 = lo as u32 + 256 * (hi as u32);
        let x: i16 = if u < 32768 {
            u as i16
        } else {
            (u as i32 - 65536) as i16
        };
        assert(to_u16_spec(x) == u as int);
        samples.push(x);
        j = j + 1;
    }
    let expected: Vec<u8> = encode_wav(sr, &samples);
    if bytes_eq(bytes, &expected) {
        proof {
            assert forall|sr0: u32, s0: Seq<i16>|
                sr0 <= MAX_RATE && s0.len() <= MAX_SAMPLES && bytes@ == wav_bytes_spec(
                    sr0 as int,
                    s0,
                ) implies sr == sr0 && samples@ == s0 by {
                lemma_wav_shape(bytes@, sr0, s0);
                lemma_decode_matches(bytes@, sr0, s0, sr, samples@);
            }
        }
        Some((sr, samples))
    } else {
        proof {
            assert forall|sr0: u32, s0: Seq<i16>|
                sr0 <= MAX_RATE && s0.len() <= MAX_SAMPLES && bytes@ == wav_bytes_spec(
                    sr0 as int,
                    s0,
                ) implies false by {
                lemma_wav_shape(bytes@, sr0, s0);
                lemma_decode_matches(bytes@, sr0, s0, sr, samples@);
                assert(expected@ == wav_bytes_spec(sr as int, samples@));
                assert(expected@ == bytes@);
            }
        }
        None
    }
}

/// If a byte sequence is the framing of `(sr0, s0)`, then the fields a
/// decoder parses out of it — the rate at offset 24 and the sample at
/// each pair of data offsets — are those of `(sr0, s0)`.
proof fn lemma_decode_matches(bytes: Seq<u8>, sr0: u32, s0: Seq<i16>, sr: u32, samples: Seq<i16>)
    requires
        bytes == wav_bytes_spec(sr0 as int, s0),
        sr as int == bytes[24] + 256 * bytes[25] + 65536 * bytes[26] + 16777216 * bytes[27],
        samples.len() == s0.len(),
        forall|k: int| 0 <= k < samples.len() ==> to_u16_spec(#[trigger] samples[k]) == bytes[44 + 2
            * k] + 256 * bytes[44 + 2 * k + 1],
    ensures
        sr == sr0,
        samples == s0,
{
    reveal(wav_header_spec);
    lemma_wav_shape(bytes, sr0, s0);
    assert(sr as int == sr0 as int);
    assert forall|k: int| 0 <= k < samples.len() implies samples[k] == s0[k] by {
        lemma_sample_bytes_index(s0, k);
        assert(bytes[44 + 2 * k] == (to_u16_spec(s0[k]) % 256) as u8);
        assert(bytes[44 + 2 * k + 1] == (to_u16_spec(s0[k]) / 256) as u8);
        lemma_le16_recompose(to_u16_spec(s0[k]) % 256, to_u16_spec(s0[k]) / 256);
        lemma_fundamental_div_mod(to_u16_spec(s0[k]), 256);
        assert(to_u16_spec(samples[k]) == to_u16_spec(s0[k]));
    }
    assert(samples =~= s0);
}

} // verus!
