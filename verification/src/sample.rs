//! The sample representation shared by buffers, mixer, scheduler and encoder.

use vstd::prelude::*;

verus! {

/// One audio sample: linear PCM on the 16-bit scale, held in 32 bits so that
/// a source may exceed full scale before the encoder clamps it.
pub type Sample = i32;

/// The magnitude that stands for an amplitude of 1.0.
pub const FULL_SCALE: i32 = 32767;

/// `x` limited to the closed range `[-FULL_SCALE, FULL_SCALE]`.
pub open spec fn clamped(x: int) -> int {
    if x < -(FULL_SCALE as int) {
        -(FULL_SCALE as int)
    } else if x > FULL_SCALE as int {
        FULL_SCALE as int
    } else {
        x
    }
}

/// Limits a sample to full scale and narrows it to 16 bits. Values outside
/// the range are clamped, never wrapped.
pub fn clamp_to_pcm16(x: Sample) -> (r: i16)
    ensures
        r as int == clamped(x as int),
{
    if x < -FULL_SCALE {
        -32767i16
    } else if x > FULL_SCALE {
        32767i16
    } else {
        x as i16
    }
}

/// The samples of `data`, each limited to full scale and narrowed to 16
/// bits.
pub open spec fn quantized(data: Seq<Sample>) -> Seq<i16> {
    Seq::new(data.len(), |i: int| clamped(data[i] as int) as i16)
}

/// Limits every sample of `data` to full scale and narrows it to 16 bits.
pub fn quantize(data: &Vec<Sample>) -> (r: Vec<i16>)
    ensures
        r@ == quantized(data@),
{
    let mut out: Vec<i16> = Vec::new();
    let mut i: usize = 0;
    while i < data.len()
        invariant
            i <= data.len(),
            out.len() == i,
            forall|j: int| 0 <= j < i ==> #[trigger] out[j] == clamped(data[j] as int) as i16,
        decreases data.len() - i,
    {
        out.push(clamp_to_pcm16(data[i]));
        i = i + 1;
    }
    proof {
        assert(out@ =~= quantized(data@));
    }
    out
}

/// The quotient of `a` by a positive `n`, rounded towards zero.
pub open spec fn trunc_div(a: int, n: int) -> int {
    if a >= 0 {
        a / n
    } else {
        -((-a) / n)
    }
}

/// The sample that a signed 16-bit device sample stands for: the same
/// number, since both are on the 16-bit scale.
pub open spec fn from_i16(s: i16) -> int {
    s as int
}

/// The sample that an unsigned 16-bit device sample stands for: the range
/// `0..=65535` is laid onto `-FULL_SCALE..=FULL_SCALE`, rounding towards
/// zero.
pub open spec fn from_u16(s: u16) -> int {
    trunc_div((2 * s - 65535) * 32767, 65535)
}

/// Converts one signed 16-bit device sample.
pub fn sample_from_i16(s: i16) -> (r: Sample)
    ensures
        r as int == from_i16(s),
{
    s as i32
}

/// Converts one unsigned 16-bit device sample.
pub fn sample_from_u16(s: u16) -> (r: Sample)
    ensures
        r as int == from_u16(s),
        -FULL_SCALE <= r <= FULL_SCALE,
{
    let centred: i64 = 2 * (s as i64) - 65535;
    let scaled: i64 = centred * 32767;
    let r: i64 = scaled / 65535;
    r as i32
}

/// Converts a block of signed 16-bit device samples.
pub fn convert_i16(data: &[i16]) -> (r: Vec<Sample>)
    ensures
        r.len() == data.len(),
        forall|i: int| 0 <= i < r.len() ==> (#[trigger] r[i]) as int == from_i16(data[i]),
{
    let mut out: Vec<Sample> = Vec::new();
    let mut i: usize = 0;
    while i < data.len()
        invariant
            i <= data.len(),
            out.len() == i,
            forall|j: int| 0 <= j < i ==> (#[trigger] out[j]) as int == from_i16(data[j]),
        decreases data.len() - i,
    {
        out.push(sample_from_i16(data[i]));
        i = i + 1;
    }
    out
}

/// Converts a block of unsigned 16-bit device samples.
pub fn convert_u16(data: &[u16]) -> (r: Vec<Sample>)
    ensures
        r.len() == data.len(),
        forall|i: int| 0 <= i < r.len() ==> (#[trigger] r[i]) as int == from_u16(data[i]),
{
    let mut out: Vec<Sample> = Vec::new();
    let mut i: usize = 0;
    while i < data.len()
        invariant
            i <= data.len(),
            out.len() == i,
            forall|j: int| 0 <= j < i ==> (#[trigger] out[j]) as int == from_u16(data[j]),
        decreases data.len() - i,
    {
        out.push(sample_from_u16(data[i]));
        i = i + 1;
    }
    out
}

} // verus!
