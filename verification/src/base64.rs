//! Base64 encoding and sample serialization.
//!
//! The daemon echoes each utterance's audio on stdout in base64 — the WAV
//! bytes, and the Opus bytes when the source is the 16 kHz device. The
//! standard alphabet with `=` padding is used.

use vstd::prelude::*;

verus! {

/// The standard base64 alphabet, as a character table.
pub open spec fn b64_char(v: int) -> char {
    "ABCDEFGHIJKLMNOPQRSTUVWXYZabcdefghijklmnopqrstuvwxyz0123456789+/"@[v]
}

/// Base64 of a byte sequence: each three-byte group becomes four alphabet
/// characters; a trailing group of one or two bytes is padded with `=`.
pub open spec fn spec_base64(bytes: Seq<u8>) -> Seq<char>
    decreases bytes.len(),
{
    if bytes.len() == 0 {
        Seq::empty()
    } else if bytes.len() == 1 {
        let b0 = bytes[0] as int;
        seq![b64_char(b0 / 4), b64_char(b0 % 4 * 16), '=', '=']
    } else if bytes.len() == 2 {
        let b0 = bytes[0] as int;
        let b1 = bytes[1] as int;
        seq![b64_char(b0 / 4), b64_char(b0 % 4 * 16 + b1 / 16), b64_char(b1 % 16 * 4), '=']
    } else {
        let b0 = bytes[0] as int;
        let b1 = bytes[1] as int;
        let b2 = bytes[2] as int;
        seq![
            b64_char(b0 / 4),
            b64_char(b0 % 4 * 16 + b1 / 16),
            b64_char(b1 % 16 * 4 + b2 / 64),
            b64_char(b2 % 64),
        ] + spec_base64(bytes.skip(3))
    }
}

/// Append one alphabet character.
fn append_b64(out: &mut String, v: usize)
    requires
        v < 64,
    ensures
        final (out)@ == old(out)@ + seq![b64_char(v as int)],
{
    let table = "ABCDEFGHIJKLMNOPQRSTUVWXYZabcdefghijklmnopqrstuvwxyz0123456789+/";
    proof {
        reveal_strlit("ABCDEFGHIJKLMNOPQRSTUVWXYZabcdefghijklmnopqrstuvwxyz0123456789+/");
    }
    let piece = table.substring_char(v, v + 1);
    out.append(piece);
    proof {
        assert(piece@ =~= seq![b64_char(v as int)]);
    }
}

/// Base64-encode a byte buffer with the standard alphabet and padding.
pub fn base64_encode(bytes: &[u8]) -> (r: String)
    ensures
        r@ == spec_base64(bytes@),
{
    let n = bytes.len();
    let mut out = String::new();
    let mut i: usize = 0;
    proof {
        assert(bytes@.skip(0) =~= bytes@);
        assert(out@ + spec_base64(bytes@) =~= spec_base64(bytes@));
    }
    while n >= 3 && i <= n - 3
        invariant
            0 <= i <= n == bytes@.len(),
            spec_base64(bytes@) == out@ + spec_base64(bytes@.skip(i as int)),
        decreases n - i,
    {
        let ghost rest = bytes@.skip(i as int);
        let b0 = *vstd::slice::slice_index_get(bytes, i) as usize;
        let b1 = *vstd::slice::slice_index_get(bytes, i + 1) as usize;
        let b2 = *vstd::slice::slice_index_get(bytes, i + 2) as usize;
        append_b64(&mut out, b0 / 4);
        append_b64(&mut out, b0 % 4 * 16 + b1 / 16);
        append_b64(&mut out, b1 % 16 * 4 + b2 / 64);
        append_b64(&mut out, b2 % 64);
        proof {
            assert(rest[0] == bytes@[i as int]);
            assert(rest[1] == bytes@[i as int + 1]);
            assert(rest[2] == bytes@[i as int + 2]);
            assert(rest.skip(3) =~= bytes@.skip(i as int + 3));
        }
        i += 3;
    }
    let ghost tail = bytes@.skip(i as int);
    if n - i == 1 {
        let b0 = *vstd::slice::slice_index_get(bytes, i) as usize;
        append_b64(&mut out, b0 / 4);
        append_b64(&mut out, b0 % 4 * 16);
        out.append("==");
        proof {
            assert(tail.len() == 1);
            assert(tail[0] == bytes@[i as int]);
            reveal_strlit("==");
            assert("=="@ =~= seq!['=', '=']);
            assert(out@ =~= spec_base64(bytes@));
        }
    } else if n - i == 2 {
        let b0 = *vstd::slice::slice_index_get(bytes, i) as usize;
        let b1 = *vstd::slice::slice_index_get(bytes, i + 1) as usize;
        append_b64(&mut out, b0 / 4);
        append_b64(&mut out, b0 % 4 * 16 + b1 / 16);
        append_b64(&mut out, b1 % 16 * 4);
        out.append("=");
        proof {
            assert(tail.len() == 2);
            assert(tail[0] == bytes@[i as int]);
            assert(tail[1] == bytes@[i as int + 1]);
            reveal_strlit("=");
            assert("="@ =~= seq!['=']);
            assert(out@ =~= spec_base64(bytes@));
        }
    } else {
        proof {
            assert(tail.len() == 0);
            assert(spec_base64(tail) =~= Seq::<char>::empty());
            assert(out@ + Seq::<char>::empty() =~= out@);
        }
    }
    out
}

/// A sample's value read as its unsigned 16-bit two's-complement image.
pub open spec fn sample_unsigned(x: i16) -> int {
    if x >= 0 {
        x as int
    } else {
        x as int + 65536
    }
}

/// A sample's two little-endian bytes.
pub open spec fn sample_le_bytes(x: i16) -> Seq<u8> {
    seq![(sample_unsigned(x) % 256) as u8, (sample_unsigned(x) / 256) as u8]
}

/// A PCM buffer as little-endian bytes, sample by sample.
pub open spec fn spec_pcm_le_bytes(s: Seq<i16>) -> Seq<u8>
    decreases s.len(),
{
    if s.len() == 0 {
        Seq::empty()
    } else {
        spec_pcm_le_bytes(s.drop_last()) + sample_le_bytes(s.last())
    }
}

/// Serialize PCM to the little-endian byte order a WAV body carries.
pub fn pcm_le_bytes(samples: &[i16]) -> (r: Vec<u8>)
    ensures
        r@ == spec_pcm_le_bytes(samples@),
{
    let n = samples.len();
    let mut out: Vec<u8> = Vec::new();
    let mut i: usize = 0;
    proof {
        assert(samples@.take(0) =~= Seq::<i16>::empty());
        assert(out@ =~= spec_pcm_le_bytes(samples@.take(0)));
    }
    while i < n
        invariant
            0 <= i <= n == samples@.len(),
            out@ == spec_pcm_le_bytes(samples@.take(i as int)),
        decreases n - i,
    {
        let x = *vstd::slice::slice_index_get(samples, i);
        let u: u32 = if x >= 0 {
            x as u32
        } else {
            (x as i32 + 65536) as u32
        };
        proof {
            assert(u as int == sample_unsigned(x));
        }
        out.push((u % 256) as u8);
        out.push((u / 256) as u8);
        proof {
            assert(samples@.take(i as int + 1).drop_last() =~= samples@.take(i as int));
            assert(samples@.take(i as int + 1).last() == samples@[i as int]);
            assert(out@ =~= spec_pcm_le_bytes(samples@.take(i as int)) + sample_le_bytes(x));
        }
        i += 1;
    }
    proof {
        assert(samples@.take(n as int) =~= samples@);
    }
    out
}

} // verus!
