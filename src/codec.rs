use vstd::prelude::*;
use crate::sample::{Axes, Sample};

verus! {

/// First byte of every encoded batch: the version of the layout below.
///
/// A batch is this byte, the sample count as a little-endian `u16`, then
/// each sample as ten little-endian 32-bit words: the time, then the x, y
/// and z words of acceleration, gyroscope and magnetometer.
pub const FORMAT_VERSION: u8 = 1;

/// Bytes before the first sample.
pub const HEADER_LEN: usize = 3;

/// Bytes taken by one sample.
pub const SAMPLE_LEN: usize = 40;

/// Most samples one batch can carry (its count is a `u16`).
pub const MAX_BATCH_SAMPLES: usize = 65535;

/// Why a batch could not be encoded or decoded.
#[derive(Clone, Copy, Debug, PartialEq, Eq, Structural)]
pub enum CodecError {
    /// More samples than `MAX_BATCH_SAMPLES`.
    TooManySamples,
    /// Fewer bytes than a header.
    Truncated,
    /// The first byte is not `FORMAT_VERSION`.
    UnsupportedVersion,
    /// The length disagrees with the sample count in the header.
    LengthMismatch,
}

pub open spec fn le32(x: u32) -> Seq<u8> {
    seq![(x & 0xff) as u8, ((x >> 8) & 0xff) as u8, ((x >> 16) & 0xff) as u8, ((x >> 24) & 0xff) as u8]
}

pub open spec fn axes_bytes(a: Axes) -> Seq<u8> {
    le32(a.x) + le32(a.y) + le32(a.z)
}

pub open spec fn sample_bytes(s: Sample) -> Seq<u8> {
    le32(s.time) + axes_bytes(s.acceleration) + axes_bytes(s.gyroscope) + axes_bytes(s.magnetometer)
}

pub open spec fn samples_bytes(xs: Seq<Sample>) -> Seq<u8>
    decreases xs.len(),
{
    if xs.len() == 0 {
        Seq::empty()
    } else {
        samples_bytes(xs.drop_last()) + sample_bytes(xs.last())
    }
}

/// The encoding of a batch of at most `MAX_BATCH_SAMPLES` samples.
pub open spec fn batch_bytes(xs: Seq<Sample>) -> Seq<u8> {
    seq![FORMAT_VERSION, (xs.len() % 256) as u8, (xs.len() / 256) as u8] + samples_bytes(xs)
}

/// The word stored little-endian at `b[i..i + 4]`.
pub open spec fn word_at(b: Seq<u8>, i: int) -> u32 {
    (b[i] as u32) | ((b[i + 1] as u32) << 8u32) | ((b[i + 2] as u32) << 16u32) | ((b[i + 3] as u32) << 24u32)
}

pub open spec fn axes_at(b: Seq<u8>, i: int) -> Axes {
    Axes { x: word_at(b, i), y: word_at(b, i + 4), z: word_at(b, i + 8) }
}

pub open spec fn sample_at(b: Seq<u8>, i: int) -> Sample {
    Sample {
        time: word_at(b, i),
        acceleration: axes_at(b, i + 4),
        gyroscope: axes_at(b, i + 16),
        magnetometer: axes_at(b, i + 28),
    }
}

/// The sample count a header announces.
pub open spec fn header_count(b: Seq<u8>) -> nat {
    (b[1] as nat) + 256 * (b[2] as nat)
}

/// The error a byte sequence is rejected with, if any.
pub open spec fn decode_error(b: Seq<u8>) -> Option<CodecError> {
    if b.len() < HEADER_LEN {
        Some(CodecError::Truncated)
    } else if b[0] != FORMAT_VERSION {
        Some(CodecError::UnsupportedVersion)
    } else if b.len() != HEADER_LEN + SAMPLE_LEN * header_count(b) {
        Some(CodecError::LengthMismatch)
    } else {
        None
    }
}

/// The samples a well-formed batch holds.
pub open spec fn decoded(b: Seq<u8>) -> Seq<Sample> {
    Seq::new(header_count(b), |i: int| sample_at(b, HEADER_LEN + SAMPLE_LEN * i))
}

fn push_word(out: &mut Vec<u8>, x: u32)
    ensures
        final(out)@ == old(out)@ + le32(x),
{
    out.push((x & 0xff) as u8);
    out.push(((x >> 8) & 0xff) as u8);
    out.push(((x >> 16) & 0xff) as u8);
    out.push(((x >> 24) & 0xff) as u8);
    assert(final(out)@ =~= old(out)@ + le32(x));
}

fn push_axes(out: &mut Vec<u8>, a: &Axes)
    ensures
        final(out)@ == old(out)@ + axes_bytes(*a),
{
    push_word(out, a.x);
    push_word(out, a.y);
    push_word(out, a.z);
    assert(final(out)@ =~= old(out)@ + axes_bytes(*a));
}

/// Serializes `samples`, in order, as one batch.
pub fn encode(samples: &[Sample]) -> (r: Result<Vec<u8>, CodecError>)
    ensures
        samples@.len() <= MAX_BATCH_SAMPLES ==> r == Ok::<Vec<u8>, CodecError>(r->Ok_0)
            && r->Ok_0@ == batch_bytes(samples@),
        samples@.len() > MAX_BATCH_SAMPLES ==> r == Err::<Vec<u8>, CodecError>(CodecError::TooManySamples),
{
    let n = samples.len();
    if n > MAX_BATCH_SAMPLES {
        return Err(CodecError::TooManySamples);
    }
    let mut out: Vec<u8> = Vec::new();
    out.push(FORMAT_VERSION);
    out.push((n % 256) as u8);
    out.push((n / 256) as u8);
    let ghost header = out@;
    assert(samples@.take(0) =~= Seq::<Sample>::empty());
    let mut i: usize = 0;
    while i < n
        invariant
            n == samples@.len(),
            i <= n,
            header == seq![FORMAT_VERSION, (n % 256) as u8, (n / 256) as u8],
            out@ == header + samples_bytes(samples@.take(i as int)),
        decreases n - i,
    {
        let s = &samples[i];
        push_word(&mut out, s.time);
        push_axes(&mut out, &s.acceleration);
        push_axes(&mut out, &s.gyroscope);
        push_axes(&mut out, &s.magnetometer);
        proof {
            let t = samples@.take(i + 1);
            assert(t.drop_last() =~= samples@.take(i as int));
            assert(t.last() == samples@[i as int]);
            assert(out@ =~= header + samples_bytes(t));
        }
        i = i + 1;
    }
    assert(samples@.take(n as int) =~= samples@);
    Ok(out)
}

fn word_at_exec(b: &[u8], i: usize) -> (w: u32)
    requires
        i + 4 <= b@.len(),
    ensures
        w == word_at(b@, i as int),
{
    (b[i] as u32) | ((b[i + 1] as u32) << 8u32) | ((b[i + 2] as u32) << 16u32) | ((b[i + 3] as u32) << 24u32)
}

fn axes_at_exec(b: &[u8], i: usize) -> (a: Axes)
    requires
        i + 12 <= b@.len() <= usize::MAX,
    ensures
        a == axes_at(b@, i as int),
{
    Axes { x: word_at_exec(b, i), y: word_at_exec(b, i + 4), z: word_at_exec(b, i + 8) }
}

/// Reads a batch back into its samples, in order.
pub fn decode(bytes: &[u8]) -> (r: Result<Vec<Sample>, CodecError>)
    ensures
        decode_error(bytes@) is None ==> r == Ok::<Vec<Sample>, CodecError>(r->Ok_0)
            && r->Ok_0@ == decoded(bytes@),
        decode_error(bytes@) is Some ==> r == Err::<Vec<Sample>, CodecError>(decode_error(bytes@)->Some_0),
{
    let len = bytes.len();
    if len < HEADER_LEN {
        return Err(CodecError::Truncated);
    }
    if bytes[0] != FORMAT_VERSION {
        return Err(CodecError::UnsupportedVersion);
    }
    let count: usize = bytes[1] as usize + 256 * (bytes[2] as usize);
    if len - HEADER_LEN != SAMPLE_LEN * count || len < HEADER_LEN + SAMPLE_LEN * count {
        return Err(CodecError::LengthMismatch);
    }
    let mut out: Vec<Sample> = Vec::new();
    let mut i: usize = 0;
    while i < count
        invariant
            len == bytes@.len(),
            count == header_count(bytes@),
            len == HEADER_LEN + SAMPLE_LEN * count,
            i <= count,
            out@ == decoded(bytes@).take(i as int),
        decreases count - i,
    {
        let at = HEADER_LEN + SAMPLE_LEN * i;
        let s = Sample {
            time: word_at_exec(bytes, at),
            acceleration: axes_at_exec(bytes, at + 4),
            gyroscope: axes_at_exec(bytes, at + 16),
            magnetometer: axes_at_exec(bytes, at + 28),
        };
        out.push(s);
        assert(out@ =~= decoded(bytes@).take(i + 1));
        i = i + 1;
    }
    assert(out@ =~= decoded(bytes@));
    Ok(out)
}

proof fn lemma_word_round_trip(x: u32)
    ensures
        word_at(le32(x), 0) == x,
{
    let b = le32(x);
    let b0 = b[0];
    let b1 = b[1];
    let b2 = b[2];
    let b3 = b[3];
    assert(b0 == (x & 0xff) as u8 && b1 == ((x >> 8) & 0xff) as u8
        && b2 == ((x >> 16) & 0xff) as u8 && b3 == ((x >> 24) & 0xff) as u8);
    assert((b0 as u32) | ((b1 as u32) << 8u32) | ((b2 as u32) << 16u32) | ((b3 as u32) << 24u32) == x)
        by (bit_vector)
        requires
            b0 == (x & 0xff) as u8,
            b1 == ((x >> 8) & 0xff) as u8,
            b2 == ((x >> 16) & 0xff) as u8,
            b3 == ((x >> 24) & 0xff) as u8,
    ;
}

/// Reading a word only looks at its four bytes.
proof fn lemma_word_at_window(b: Seq<u8>, c: Seq<u8>, i: int, j: int)
    requires
        0 <= i,
        i + 4 <= b.len(),
        0 <= j,
        j + 4 <= c.len(),
        b.subrange(i, i + 4) == c.subrange(j, j + 4),
    ensures
        word_at(b, i) == word_at(c, j),
{
    assert(b[i] == b.subrange(i, i + 4)[0]);
    assert(b[i + 1] == b.subrange(i, i + 4)[1]);
    assert(b[i + 2] == b.subrange(i, i + 4)[2]);
    assert(b[i + 3] == b.subrange(i, i + 4)[3]);
    assert(c[j] == c.subrange(j, j + 4)[0]);
    assert(c[j + 1] == c.subrange(j, j + 4)[1]);
    assert(c[j + 2] == c.subrange(j, j + 4)[2]);
    assert(c[j + 3] == c.subrange(j, j + 4)[3]);
}

proof fn lemma_word_in(b: Seq<u8>, i: int, x: u32)
    requires
        0 <= i,
        i + 4 <= b.len(),
        b.subrange(i, i + 4) == le32(x),
    ensures
        word_at(b, i) == x,
{
    lemma_word_round_trip(x);
    assert(le32(x).subrange(0, 4) =~= le32(x));
    lemma_word_at_window(b, le32(x), i, 0);
}

proof fn lemma_word_of_sample(b: Seq<u8>, i: int, sb: Seq<u8>, k: int, x: u32)
    requires
        0 <= i,
        i + SAMPLE_LEN <= b.len(),
        b.subrange(i, i + SAMPLE_LEN) == sb,
        0 <= k,
        k + 4 <= SAMPLE_LEN,
        sb.subrange(k, k + 4) == le32(x),
    ensures
        word_at(b, i + k) == x,
{
    assert(b.subrange(i + k, i + k + 4) =~= sb.subrange(k, k + 4));
    lemma_word_in(b, i + k, x);
}

/// A sample reads back from where its bytes stand.
proof fn lemma_sample_in(b: Seq<u8>, i: int, s: Sample)
    requires
        0 <= i,
        i + SAMPLE_LEN <= b.len(),
        b.subrange(i, i + SAMPLE_LEN) == sample_bytes(s),
    ensures
        sample_at(b, i) == s,
{
    let sb = sample_bytes(s);
    let a = s.acceleration;
    let g = s.gyroscope;
    let m = s.magnetometer;
    assert(sb.subrange(0, 4) =~= le32(s.time));
    assert(sb.subrange(4, 8) =~= le32(a.x));
    assert(sb.subrange(8, 12) =~= le32(a.y));
    assert(sb.subrange(12, 16) =~= le32(a.z));
    assert(sb.subrange(16, 20) =~= le32(g.x));
    assert(sb.subrange(20, 24) =~= le32(g.y));
    assert(sb.subrange(24, 28) =~= le32(g.z));
    assert(sb.subrange(28, 32) =~= le32(m.x));
    assert(sb.subrange(32, 36) =~= le32(m.y));
    assert(sb.subrange(36, 40) =~= le32(m.z));
    lemma_word_of_sample(b, i, sb, 0, s.time);
    lemma_word_of_sample(b, i, sb, 4, a.x);
    lemma_word_of_sample(b, i, sb, 8, a.y);
    lemma_word_of_sample(b, i, sb, 12, a.z);
    lemma_word_of_sample(b, i, sb, 16, g.x);
    lemma_word_of_sample(b, i, sb, 20, g.y);
    lemma_word_of_sample(b, i, sb, 24, g.z);
    lemma_word_of_sample(b, i, sb, 28, m.x);
    lemma_word_of_sample(b, i, sb, 32, m.y);
    lemma_word_of_sample(b, i, sb, 36, m.z);
    assert(word_at(b, i + 0) == s.time);
    assert(word_at(b, i + 4) == a.x);
    assert(word_at(b, i + 8) == a.y);
    assert(word_at(b, i + 12) == a.z);
    assert(word_at(b, i + 16) == g.x);
    assert(word_at(b, i + 20) == g.y);
    assert(word_at(b, i + 24) == g.z);
    assert(word_at(b, i + 28) == m.x);
    assert(word_at(b, i + 32) == m.y);
    assert(word_at(b, i + 36) == m.z);
}

proof fn lemma_samples_bytes_layout(xs: Seq<Sample>, i: int)
    requires
        0 <= i < xs.len(),
    ensures
        samples_bytes(xs).len() == SAMPLE_LEN * xs.len(),
        samples_bytes(xs).subrange(SAMPLE_LEN * i, SAMPLE_LEN * i + SAMPLE_LEN) == sample_bytes(xs[i]),
    decreases xs.len(),
{
    lemma_samples_bytes_len(xs);
    let init = xs.drop_last();
    lemma_samples_bytes_len(init);
    let whole = samples_bytes(xs);
    if i < xs.len() - 1 {
        lemma_samples_bytes_layout(init, i);
        assert(whole.subrange(SAMPLE_LEN * i, SAMPLE_LEN * i + SAMPLE_LEN)
            =~= samples_bytes(init).subrange(SAMPLE_LEN * i, SAMPLE_LEN * i + SAMPLE_LEN));
    } else {
        assert(whole.subrange(SAMPLE_LEN * i, SAMPLE_LEN * i + SAMPLE_LEN) =~= sample_bytes(xs.last()));
    }
}

proof fn lemma_samples_bytes_len(xs: Seq<Sample>)
    ensures
        samples_bytes(xs).len() == SAMPLE_LEN * xs.len(),
    decreases xs.len(),
{
    if xs.len() > 0 {
        lemma_samples_bytes_len(xs.drop_last());
    }
}

/// Decoding the encoding of a batch of at most `MAX_BATCH_SAMPLES` samples
/// succeeds and gives back the same samples, bit for bit, in the same order.
pub proof fn lemma_round_trip(xs: Seq<Sample>)
    requires
        xs.len() <= MAX_BATCH_SAMPLES,
    ensures
        decode_error(batch_bytes(xs)) is None,
        decoded(batch_bytes(xs)) == xs,
{
    let b = batch_bytes(xs);
    let n = xs.len();
    lemma_samples_bytes_len(xs);
    assert(b[1] as nat == n % 256);
    assert(b[2] as nat == n / 256);
    assert(header_count(b) == n);
    assert forall|i: int| 0 <= i < n implies #[trigger] sample_at(b, HEADER_LEN + SAMPLE_LEN * i) == xs[i] by {
        lemma_samples_bytes_layout(xs, i);
        let at = HEADER_LEN + SAMPLE_LEN * i;
        assert(b.subrange(at, at + SAMPLE_LEN)
            =~= samples_bytes(xs).subrange(SAMPLE_LEN * i, SAMPLE_LEN * i + SAMPLE_LEN));
        lemma_sample_in(b, at, xs[i]);
    }
    assert(decoded(b) =~= xs);
}

} // verus!
