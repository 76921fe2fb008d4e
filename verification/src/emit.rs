//! Stdout line building and sample conversion.
//!
//! The daemon reports to its driving UI over stdout: a `FINAL:` line of
//! self-contained JSON per spoken utterance, a duration line, and the
//! utterance as a canonical RIFF WAV. The lines are built here, byte for
//! byte and character for character, including the JSON string escaping.

use vstd::prelude::*;

verus! {

/// JSON string escape of one character: quote, backslash and the control
/// shorthands by their two-character escapes, the other control characters
/// by their `\u00XX` form, everything else as itself.
pub open spec fn esc_char(c: char) -> Seq<char> {
    match c {
        '"' => "\\\""@,
        '\\' => "\\\\"@,
        '\u{8}' => "\\b"@,
        '\t' => "\\t"@,
        '\n' => "\\n"@,
        '\u{c}' => "\\f"@,
        '\r' => "\\r"@,
        '\u{0}' => "\\u0000"@,
        '\u{1}' => "\\u0001"@,
        '\u{2}' => "\\u0002"@,
        '\u{3}' => "\\u0003"@,
        '\u{4}' => "\\u0004"@,
        '\u{5}' => "\\u0005"@,
        '\u{6}' => "\\u0006"@,
        '\u{7}' => "\\u0007"@,
        '\u{b}' => "\\u000b"@,
        '\u{e}' => "\\u000e"@,
        '\u{f}' => "\\u000f"@,
        '\u{10}' => "\\u0010"@,
        '\u{11}' => "\\u0011"@,
        '\u{12}' => "\\u0012"@,
        '\u{13}' => "\\u0013"@,
        '\u{14}' => "\\u0014"@,
        '\u{15}' => "\\u0015"@,
        '\u{16}' => "\\u0016"@,
        '\u{17}' => "\\u0017"@,
        '\u{18}' => "\\u0018"@,
        '\u{19}' => "\\u0019"@,
        '\u{1a}' => "\\u001a"@,
        '\u{1b}' => "\\u001b"@,
        '\u{1c}' => "\\u001c"@,
        '\u{1d}' => "\\u001d"@,
        '\u{1e}' => "\\u001e"@,
        '\u{1f}' => "\\u001f"@,
        _ => seq![c],
    }
}

/// JSON string escape of a whole text.
pub open spec fn spec_json_escape(s: Seq<char>) -> Seq<char>
    decreases s.len(),
{
    if s.len() == 0 {
        Seq::empty()
    } else {
        spec_json_escape(s.drop_last()) + esc_char(s.last())
    }
}

/// Append one escaped character.
fn append_escaped(out: &mut String, s: &str, i: usize)
    requires
        i < s@.len() <= usize::MAX,
    ensures
        final (out)@ == old(out)@ + esc_char(s@[i as int]),
{
    let c = s.get_char(i);
    match c {
        '"' => out.append("\\\""),
        '\\' => out.append("\\\\"),
        '\u{8}' => out.append("\\b"),
        '\t' => out.append("\\t"),
        '\n' => out.append("\\n"),
        '\u{c}' => out.append("\\f"),
        '\r' => out.append("\\r"),
        '\u{0}' => out.append("\\u0000"),
        '\u{1}' => out.append("\\u0001"),
        '\u{2}' => out.append("\\u0002"),
        '\u{3}' => out.append("\\u0003"),
        '\u{4}' => out.append("\\u0004"),
        '\u{5}' => out.append("\\u0005"),
        '\u{6}' => out.append("\\u0006"),
        '\u{7}' => out.append("\\u0007"),
        '\u{b}' => out.append("\\u000b"),
        '\u{e}' => out.append("\\u000e"),
        '\u{f}' => out.append("\\u000f"),
        '\u{10}' => out.append("\\u0010"),
        '\u{11}' => out.append("\\u0011"),
        '\u{12}' => out.append("\\u0012"),
        '\u{13}' => out.append("\\u0013"),
        '\u{14}' => out.append("\\u0014"),
        '\u{15}' => out.append("\\u0015"),
        '\u{16}' => out.append("\\u0016"),
        '\u{17}' => out.append("\\u0017"),
        '\u{18}' => out.append("\\u0018"),
        '\u{19}' => out.append("\\u0019"),
        '\u{1a}' => out.append("\\u001a"),
        '\u{1b}' => out.append("\\u001b"),
        '\u{1c}' => out.append("\\u001c"),
        '\u{1d}' => out.append("\\u001d"),
        '\u{1e}' => out.append("\\u001e"),
        '\u{1f}' => out.append("\\u001f"),
        _ => {
            let piece = s.substring_char(i, i + 1);
            out.append(piece);
            proof {
                assert(piece@ =~= seq![s@[i as int]]);
            }
        },
    }
}

/// JSON string escape, executable form.
pub fn json_escape(s: &str) -> (r: String)
    ensures
        r@ == spec_json_escape(s@),
{
    let n = s.unicode_len();
    let mut out = String::new();
    let mut i: usize = 0;
    proof {
        assert(s@.take(0) =~= Seq::<char>::empty());
        assert(out@ =~= spec_json_escape(s@.take(0)));
    }
    while i < n
        invariant
            0 <= i <= n == s@.len(),
            out@ == spec_json_escape(s@.take(i as int)),
        decreases n - i,
    {
        append_escaped(&mut out, s, i);
        proof {
            assert(s@.take(i as int + 1).drop_last() =~= s@.take(i as int));
            assert(s@.take(i as int + 1).last() == s@[i as int]);
        }
        i += 1;
    }
    proof {
        assert(s@.take(n as int) =~= s@);
    }
    out
}

/// The `FINAL:` line for one utterance, exactly: raw transcript, processed
/// text, the LLM flag (always false here), and the application context, as
/// one self-contained JSON object.
pub open spec fn spec_final_line(
    raw: Seq<char>,
    processed: Seq<char>,
    app: Seq<char>,
    title: Seq<char>,
) -> Seq<char> {
    "FINAL: {\"rawTranscript\":\""@ + spec_json_escape(raw) + "\",\"processedText\":\""@
        + spec_json_escape(processed) + "\",\"wasProcessedByLLM\":false,\"appContext\":{\"appName\":\""@
        + spec_json_escape(app) + "\",\"windowTitle\":\""@ + spec_json_escape(title) + "\"}}"@
}

/// Build the `FINAL:` line.
pub fn format_final_line(raw: &str, processed: &str, app: &str, title: &str) -> (r: String)
    ensures
        r@ == spec_final_line(raw@, processed@, app@, title@),
{
    let mut out = String::new();
    out.append("FINAL: {\"rawTranscript\":\"");
    let e = json_escape(raw);
    out.append(e.as_str());
    out.append("\",\"processedText\":\"");
    let e = json_escape(processed);
    out.append(e.as_str());
    out.append("\",\"wasProcessedByLLM\":false,\"appContext\":{\"appName\":\"");
    let e = json_escape(app);
    out.append(e.as_str());
    out.append("\",\"windowTitle\":\"");
    let e = json_escape(title);
    out.append(e.as_str());
    out.append("\"}}");
    proof {
        assert(out@ =~= spec_final_line(raw@, processed@, app@, title@));
    }
    out
}

/// Little-endian bytes of a 16-bit value.
pub open spec fn le16(x: u16) -> Seq<u8> {
    seq![(x % 256) as u8, (x / 256) as u8]
}

/// Little-endian bytes of a 32-bit value.
pub open spec fn le32(x: u32) -> Seq<u8> {
    seq![
        (x % 256) as u8,
        (x / 256 % 256) as u8,
        (x / 65536 % 256) as u8,
        (x / 16777216) as u8,
    ]
}

/// The canonical 44-byte RIFF header for 16 kHz mono 16-bit PCM, followed by
/// nothing: `RIFF`, chunk size, `WAVE`, the 16-byte `fmt ` block (PCM, one
/// channel, 16000 Hz, 32000 bytes per second, block align 2, 16 bits), and
/// the `data` header with the payload size.
pub open spec fn spec_wav_header(sample_count: u32) -> Seq<u8> {
    let data_len = (2 * sample_count) as u32;
    seq![0x52u8, 0x49u8, 0x46u8, 0x46u8] + le32((36 + data_len) as u32) + seq![
        0x57u8,
        0x41u8,
        0x56u8,
        0x45u8,
        0x66u8,
        0x6du8,
        0x74u8,
        0x20u8,
    ] + le32(16) + le16(1) + le16(1) + le32(16000) + le32(32000) + le16(2) + le16(16) + seq![
        0x64u8,
        0x61u8,
        0x74u8,
        0x61u8,
    ] + le32(data_len)
}

/// Append a 32-bit value in little-endian order.
fn push_le32(out: &mut Vec<u8>, x: u32)
    ensures
        final (out)@ == old(out)@ + le32(x),
{
    out.push((x % 256) as u8);
    out.push((x / 256 % 256) as u8);
    out.push((x / 65536 % 256) as u8);
    out.push((x / 16777216) as u8);
    proof {
        assert(out@ =~= old(out)@ + le32(x));
    }
}

/// Append a 16-bit value in little-endian order.
fn push_le16(out: &mut Vec<u8>, x: u16)
    ensures
        final (out)@ == old(out)@ + le16(x),
{
    out.push((x % 256) as u8);
    out.push((x / 256) as u8);
    proof {
        assert(out@ =~= old(out)@ + le16(x));
    }
}

/// Build the WAV header for an utterance of `sample_count` canonical
/// samples.
pub fn wav_header(sample_count: u32) -> (r: Vec<u8>)
    requires
        sample_count <= (u32::MAX - 36) / 2,
    ensures
        r@ == spec_wav_header(sample_count),
{
    let data_len: u32 = 2 * sample_count;
    let mut out: Vec<u8> = Vec::new();
    out.push(0x52);
    out.push(0x49);
    out.push(0x46);
    out.push(0x46);
    push_le32(&mut out, 36 + data_len);
    out.push(0x57);
    out.push(0x41);
    out.push(0x56);
    out.push(0x45);
    out.push(0x66);
    out.push(0x6d);
    out.push(0x74);
    out.push(0x20);
    push_le32(&mut out, 16);
    push_le16(&mut out, 1);
    push_le16(&mut out, 1);
    push_le32(&mut out, 16000);
    push_le32(&mut out, 32000);
    push_le16(&mut out, 2);
    push_le16(&mut out, 16);
    out.push(0x64);
    out.push(0x61);
    out.push(0x74);
    out.push(0x61);
    push_le32(&mut out, data_len);
    proof {
        assert(out@ =~= spec_wav_header(sample_count));
    }
    out
}

/// The decimal digit characters of a number.
pub open spec fn spec_digit(d: nat) -> char {
    if d == 0 {
        '0'
    } else if d == 1 {
        '1'
    } else if d == 2 {
        '2'
    } else if d == 3 {
        '3'
    } else if d == 4 {
        '4'
    } else if d == 5 {
        '5'
    } else if d == 6 {
        '6'
    } else if d == 7 {
        '7'
    } else if d == 8 {
        '8'
    } else {
        '9'
    }
}

/// Decimal digits of a number, most significant first.
pub open spec fn spec_digits(n: nat) -> Seq<char>
    decreases n,
{
    if n < 10 {
        seq![spec_digit(n)]
    } else {
        spec_digits(n / 10) + seq![spec_digit(n % 10)]
    }
}

/// One decimal digit as text.
fn digit_str(d: u64) -> (r: &'static str)
    requires
        d < 10,
    ensures
        r@ == seq![spec_digit(d as nat)],
{
    let r = match d {
        0 => "0",
        1 => "1",
        2 => "2",
        3 => "3",
        4 => "4",
        5 => "5",
        6 => "6",
        7 => "7",
        8 => "8",
        _ => "9",
    };
    proof {
        reveal_strlit("0");
        reveal_strlit("1");
        reveal_strlit("2");
        reveal_strlit("3");
        reveal_strlit("4");
        reveal_strlit("5");
        reveal_strlit("6");
        reveal_strlit("7");
        reveal_strlit("8");
        reveal_strlit("9");
        assert(r@ =~= seq![spec_digit(d as nat)]);
    }
    r
}

/// Append a number in decimal.
fn append_decimal(out: &mut String, n: u64)
    ensures
        final (out)@ == old(out)@ + spec_digits(n as nat),
    decreases n,
{
    if n < 10 {
        out.append(digit_str(n));
    } else {
        append_decimal(out, n / 10);
        out.append(digit_str(n % 10));
        proof {
            assert(old(out)@ + spec_digits((n / 10) as nat) + seq![spec_digit((n % 10) as nat)]
                =~= old(out)@ + spec_digits(n as nat));
        }
    }
}

/// The duration report for an utterance: whole seconds, a point, and two
/// decimals, from the sample count and rate.
pub open spec fn spec_duration_line(sample_count: nat, rate: nat) -> Seq<char> {
    let centis = sample_count * 100 / rate;
    "AUDIO_DURATION:"@ + spec_digits(centis / 100) + "."@ + seq![
        spec_digit(centis / 10 % 10),
        spec_digit(centis % 10),
    ]
}

/// Build the duration line for an utterance.
pub fn format_duration_line(sample_count: u64, rate: u32) -> (r: String)
    requires
        rate >= 1,
        sample_count <= u64::MAX / 100,
    ensures
        r@ == spec_duration_line(sample_count as nat, rate as nat),
{
    let centis: u64 = sample_count * 100 / (rate as u64);
    let mut out = String::new();
    out.append("AUDIO_DURATION:");
    append_decimal(&mut out, centis / 100);
    out.append(".");
    out.append(digit_str(centis / 10 % 10));
    out.append(digit_str(centis % 10));
    proof {
        assert(out@ =~= spec_duration_line(sample_count as nat, rate as nat));
    }
    out
}

/// Convert one unsigned 16-bit capture sample to the canonical signed form
/// by recentering around zero.
pub fn u16_sample_to_i16(s: u16) -> (r: i16)
    ensures
        r as int == s as int - 32768,
{
    ((s as i32) - 32768) as i16
}

/// Sum of squares of the samples: the integer core of the level meter. The
/// root, normalization and shaping of the meter are floating-point work and
/// stay with the meter.
pub fn sum_of_squares(samples: &[i16]) -> (r: u64)
    requires
        samples@.len() <= 0x4000_0000,
    ensures
        r == spec_sum_of_squares(samples@),
{
    let n = samples.len();
    let mut acc: u64 = 0;
    let mut i: usize = 0;
    proof {
        assert(samples@.take(0) =~= Seq::<i16>::empty());
    }
    while i < n
        invariant
            0 <= i <= n == samples@.len(),
            n <= 0x4000_0000,
            acc == spec_sum_of_squares(samples@.take(i as int)),
            acc <= (i as u64) * 0x4000_0000u64,
        decreases n - i,
    {
        let s = *vstd::slice::slice_index_get(samples, i);
        proof {
            assert(0 <= (s as i64) * (s as i64) <= 0x4000_0000) by (nonlinear_arith)
                requires
                    -0x8000 <= s as i64 <= 0x7fff,
            ;
            assert(samples@.take(i as int + 1).drop_last() =~= samples@.take(i as int));
            assert((i as u64) * 0x4000_0000u64 + 0x4000_0000u64 == ((i as u64) + 1)
                * 0x4000_0000u64) by (nonlinear_arith);
            assert(((i as u64) + 1) * 0x4000_0000u64 <= 0x4000_0000u64 * 0x4000_0000u64)
                by (nonlinear_arith)
                requires
                    (i as u64) + 1 <= 0x4000_0000u64,
            ;
        }
        let sq: u64 = (s as i64 * s as i64) as u64;
        acc = acc + sq;
        i += 1;
    }
    proof {
        assert(samples@.take(n as int) =~= samples@);
    }
    acc
}

/// Sum of squared samples.
pub open spec fn spec_sum_of_squares(s: Seq<i16>) -> int
    decreases s.len(),
{
    if s.len() == 0 {
        0
    } else {
        spec_sum_of_squares(s.drop_last()) + (s.last() as int) * (s.last() as int)
    }
}

} // verus!
