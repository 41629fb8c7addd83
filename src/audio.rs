//! What the pipeline knows of its audio input.
use vstd::prelude::*;

verus! {

/// Facts about a decoded clip, carried beside its interleaved samples.
#[derive(Debug, Clone, Copy, PartialEq, Eq, Structural)]
pub struct AudioMetadata {
    /// Samples per second per channel.
    pub sample_rate: u32,
    /// Interleaved channel count.
    pub channels: u16,
    /// Samples per channel.
    pub total_samples: u64,
    /// Bit depth of the source, where known.
    pub bit_depth: Option<u16>,
}

/// Audio source failures.
#[derive(Debug, Copy, Clone, PartialEq, Eq, Structural)]
pub enum AudioError {
    UnsupportedFormat,
    DecodeFailed,
    IoError,
    Cancelled,
}

/// Audio source that decodes a file with the `ffmpeg` tools.
#[derive(Debug, Clone)]
pub struct FfmpegAudioSource {
    /// Path of the input file.
    pub path: String,
}

impl FfmpegAudioSource {
    pub fn new(path: String) -> (r: FfmpegAudioSource)
        ensures
            r.path@ == path@,
    {
        FfmpegAudioSource { path }
    }
}

/// Sample rate and channel count reported by the probe.
#[derive(Debug, Copy, Clone, PartialEq, Eq, Structural)]
pub struct ProbeInfo {
    pub sample_rate: u32,
    pub channels: u16,
}

/// Index of the first `\n` at or after `from`, or the length.
pub open spec fn line_end(s: Seq<u8>, from: int) -> int
    decreases s.len() - from,
{
    if from >= s.len() {
        s.len() as int
    } else if s[from] == 10u8 {
        from
    } else {
        line_end(s, from + 1)
    }
}

/// The line starting at `from`, without its terminator (`\n` or `\r\n`).
pub open spec fn line_from(s: Seq<u8>, from: int) -> Seq<u8> {
    let raw = if from < line_end(s, from) { s.subrange(from, line_end(s, from)) } else { Seq::empty() };
    if raw.len() > 0 && raw.last() == 13u8 {
        raw.drop_last()
    } else {
        raw
    }
}

pub open spec fn is_digit(b: u8) -> bool {
    48 <= b <= 57
}

/// Value of a string of decimal digits.
pub open spec fn digits_value(d: Seq<u8>) -> nat
    decreases d.len(),
{
    if d.len() == 0 {
        0
    } else {
        digits_value(d.drop_last()) * 10 + (d.last() - 48) as nat
    }
}

/// Every byte is a decimal digit.
pub open spec fn all_digits(d: Seq<u8>) -> bool {
    forall|i: int| 0 <= i < d.len() ==> is_digit(#[trigger] d[i])
}

/// `d` without one leading `+`.
pub open spec fn unsigned_body(d: Seq<u8>) -> Seq<u8> {
    if d.len() > 0 && d[0] == 43u8 { d.drop_first() } else { d }
}

/// An unsigned decimal with an optional leading `+`, if it is one and at most `max`.
pub open spec fn parse_unsigned(d: Seq<u8>, max: nat) -> Option<nat> {
    let body = unsigned_body(d);
    if body.len() > 0 && all_digits(body) && digits_value(body) <= max {
        Some(digits_value(body))
    } else {
        None
    }
}

/// The probe's answer: the sample rate on the first line, the channel count on the second.
pub open spec fn probe_result(s: Seq<u8>) -> Result<ProbeInfo, AudioError> {
    let first = parse_unsigned(line_from(s, 0), u32::MAX as nat);
    let second = parse_unsigned(line_from(s, line_end(s, 0) + 1), u16::MAX as nat);
    if first is Some && second is Some {
        Ok(ProbeInfo { sample_rate: first->0 as u32, channels: second->0 as u16 })
    } else {
        Err(AudioError::DecodeFailed)
    }
}

proof fn lemma_line_end_bounds(s: Seq<u8>, from: int)
    requires
        0 <= from,
    ensures
        from <= line_end(s, from) <= s.len() || (from > s.len() && line_end(s, from) == s.len()),
        line_end(s, from) <= s.len(),
    decreases s.len() - from,
{
    if from < s.len() && s[from] != 10u8 {
        lemma_line_end_bounds(s, from + 1);
    }
}

proof fn lemma_digits_value_monotone(d: Seq<u8>, j: int)
    requires
        0 <= j <= d.len(),
        all_digits(d),
    ensures
        digits_value(d.take(j)) <= digits_value(d),
    decreases d.len() - j,
{
    if j < d.len() {
        lemma_digits_value_monotone(d, j + 1);
        assert(d.take(j + 1).drop_last() =~= d.take(j));
        assert(digits_value(d.take(j + 1)) == digits_value(d.take(j)) * 10 + (d[j] - 48) as nat);
    } else {
        assert(d.take(j) =~= d);
    }
}

fn find_line_end(s: &[u8], from: usize) -> (r: usize)
    requires
        from <= s@.len(),
    ensures
        r == line_end(s@, from as int),
{
    let mut i = from;
    while i < s.len() && s[i] != 10u8
        invariant
            from <= i <= s@.len(),
            line_end(s@, from as int) == line_end(s@, i as int),
        decreases s@.len() - i,
    {
        i = i + 1;
    }
    i
}

fn parse_line(s: &[u8], from: usize, max: u64) -> (r: Option<u64>)
    requires
        from <= s@.len(),
        max >= 9,
    ensures
        r == match parse_unsigned(line_from(s@, from as int), max as nat) {
            Some(v) => Some(v as u64),
            None => None::<u64>,
        },
{
    let end = find_line_end(s, from);
    proof {
        lemma_line_end_bounds(s@, from as int);
    }
    let ghost line = line_from(s@, from as int);
    let mut stop = end;
    if stop > from && s[stop - 1] == 13u8 {
        stop = stop - 1;
    }
    let mut start = from;
    if start < stop && s[start] == 43u8 {
        start = start + 1;
    }
    let ghost body = s@.subrange(start as int, stop as int);
    assert(body =~= unsigned_body(line));
    if start == stop {
        assert(body.len() == 0);
        return None;
    }
    let mut acc: u64 = 0;
    let mut i = start;
    let mut overflow = false;
    while i < stop
        invariant
            from <= start <= i <= stop <= s@.len(),
            max >= 9,
            body == s@.subrange(start as int, stop as int),
            line == line_from(s@, from as int),
            body == unsigned_body(line),
            forall|k: int| 0 <= k < i - start ==> is_digit(#[trigger] body[k]),
            !overflow ==> acc == digits_value(body.take(i - start)) && acc <= max,
            overflow ==> digits_value(body.take(i - start)) > max,
        decreases stop - i,
    {
        let b = s[i];
        if b < 48u8 || b > 57u8 {
            assert(!is_digit(body[i - start]));
            assert(!all_digits(body));
            return None;
        }
        proof {
            assert(body.take(i - start + 1).drop_last() =~= body.take(i - start));
        }
        if !overflow {
            let d = (b - 48u8) as u64;
            if acc > (max - d) / 10 {
                overflow = true;
            } else {
                acc = acc * 10 + d;
            }
        } else {
            assert(digits_value(body.take(i - start + 1)) >= digits_value(body.take(i - start)) * 10);
        }
        proof {
            if !overflow {
                assert(acc == digits_value(body.take(i - start + 1)));
            }
        }
        i = i + 1;
    }
    assert(body.take(stop - start) =~= body);
    if overflow {
        proof {
            lemma_digits_value_monotone(body, stop - start);
        }
        None
    } else {
        Some(acc)
    }
}

/// Reads the probe's answer, as `probe_result` states; a missing, malformed or
/// out-of-range value is a decode failure.
pub fn parse_probe_output(s: &[u8]) -> (r: Result<ProbeInfo, AudioError>)
    ensures
        r == probe_result(s@),
{
    let first = parse_line(s, 0, u32::MAX as u64);
    let end = find_line_end(s, 0);
    proof {
        lemma_line_end_bounds(s@, 0);
    }
    let second = if end < s.len() {
        parse_line(s, end + 1, u16::MAX as u64)
    } else {
        proof {
            assert(line_from(s@, end + 1) =~= Seq::<u8>::empty()) by {
                assert(line_end(s@, end + 1) == s@.len());
            }
        }
        None
    };
    match (first, second) {
        (Some(rate), Some(channels)) => Ok(ProbeInfo { sample_rate: rate as u32, channels: channels as u16 }),
        _ => Err(AudioError::DecodeFailed),
    }
}

} // verus!
