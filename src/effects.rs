//! Sample-to-sample transforms on one channel.

use vstd::prelude::*;
use crate::error::WaveError;
use crate::sample::{clip16, saturate};

verus! {

/// The magnitude of a sample.
pub open spec fn magnitude(s: i16) -> int {
    if s < 0 {
        -s
    } else {
        s as int
    }
}

/// `x / d` rounded toward zero.
pub open spec fn div_toward_zero(x: int, d: int) -> int {
    if x >= 0 {
        x / d
    } else {
        -((-x) / d)
    }
}

/// One sample through a hard-knee compressor: unchanged below `cutoff`, the
/// excess over `cutoff` divided by `ratio` at or above it, sign kept.
pub open spec fn compress_sample(s: i16, cutoff: i16, ratio: u16) -> i16 {
    if magnitude(s) < cutoff {
        s
    } else {
        let m = cutoff + (magnitude(s) - cutoff) / (ratio as int);
        clip16(
            if s > 0 {
                m
            } else {
                -m
            },
        )
    }
}

/// Sample `i` of `s` with the sample `delay_by` earlier added at a gain of
/// `num / den`, the echo rounded toward zero.
pub open spec fn echo_sample(s: Seq<i16>, i: int, delay_by: int, num: i16, den: u16) -> i16 {
    if i < delay_by {
        s[i]
    } else {
        clip16(s[i] + div_toward_zero(s[i - delay_by] * num, den as int))
    }
}

/// What `delay` returns for `s`.
pub open spec fn delay_model(s: Seq<i16>, delay_by: int, num: i16, den: u16) -> Seq<i16> {
    Seq::new(s.len(), |i: int| echo_sample(s, i, delay_by, num, den))
}

/// Compresses every sample above `cutoff` in magnitude by `ratio`.
pub fn compressor(audio: Vec<i16>, cutoff: i16, ratio: u16) -> (r: Vec<i16>)
    requires
        ratio > 0,
    ensures
        r@ == audio@.map_values(|s: i16| compress_sample(s, cutoff, ratio)),
{
    let mut buffer: Vec<i16> = Vec::with_capacity(audio.len());
    let mut i: usize = 0;
    while i < audio.len()
        invariant
            ratio > 0,
            i <= audio.len(),
            buffer@ =~= audio@.take(i as int).map_values(|s: i16| compress_sample(s, cutoff, ratio)),
        decreases audio.len() - i,
    {
        let sample = audio[i];
        let a: i32 = if sample < 0 {
            -(sample as i32)
        } else {
            sample as i32
        };
        if a < cutoff as i32 {
            buffer.push(sample);
        } else {
            let excess: u32 = (a - cutoff as i32) as u32;
            let m: i32 = cutoff as i32 + (excess / ratio as u32) as i32;
            buffer.push(
                saturate(
                    if sample > 0 {
                        m
                    } else {
                        -m
                    },
                ),
            );
        }
        i = i + 1;
    }
    buffer
}

/// The echo of sample `s` at a gain of `num / den`, rounded toward zero.
fn echo_of(s: i16, num: i16, den: u16) -> (r: i32)
    requires
        den > 0,
    ensures
        r as int == div_toward_zero(s * num, den as int),
        -1073741824 <= r <= 1073741824,
{
    proof {
        assert(-1073741824 <= (s as int) * (num as int) <= 1073741824) by (nonlinear_arith)
            requires
                -32768 <= s <= 32767,
                -32768 <= num <= 32767,
        ;
    }
    let x: i32 = s as i32 * num as i32;
    if x >= 0 {
        ((x as u32) / (den as u32)) as i32
    } else {
        -(((-x) as u32 / den as u32) as i32)
    }
}

/// A feed-forward echo: each sample from `delay_by` on gains the sample
/// `delay_by` earlier at a gain of `amount_num / amount_den`; fails when
/// `delay_by` lies past the end of `audio`.
pub fn delay(audio: Vec<i16>, delay_by: usize, amount_num: i16, amount_den: u16) -> (r: Result<
    Vec<i16>,
    WaveError,
>)
    requires
        amount_den > 0,
    ensures
        delay_by <= audio.len() <==> r is Ok,
        r matches Ok(v) ==> v@ == delay_model(audio@, delay_by as int, amount_num, amount_den),
        r matches Err(e) ==> e == WaveError::OutOfRange,
{
    if delay_by > audio.len() {
        return Err(WaveError::OutOfRange);
    }
    let mut buffer: Vec<i16> = Vec::with_capacity(audio.len());
    let mut i: usize = 0;
    while i < audio.len()
        invariant
            amount_den > 0,
            delay_by <= audio.len(),
            i <= audio.len(),
            buffer@ =~= delay_model(audio@, delay_by as int, amount_num, amount_den).take(i as int),
        decreases audio.len() - i,
    {
        if i < delay_by {
            buffer.push(audio[i]);
        } else {
            let e = echo_of(audio[i - delay_by], amount_num, amount_den);
            buffer.push(saturate(audio[i] as i32 + e));
        }
        i = i + 1;
    }
    Ok(buffer)
}

/// A per-channel transform, chosen and set up by the caller.
#[derive(Clone, Copy, Debug, PartialEq, Eq)]
pub enum Effect {
    /// `compressor` with this cutoff and ratio.
    Compressor { cutoff: i16, ratio: u16 },
    /// `delay` by this many samples at a gain of `amount_num / amount_den`.
    Delay { delay_by: usize, amount_num: i16, amount_den: u16 },
}

impl Effect {
    /// The ratio or the gain's denominator is not zero.
    pub open spec fn valid(&self) -> bool {
        match *self {
            Effect::Compressor { ratio, .. } => ratio > 0,
            Effect::Delay { amount_den, .. } => amount_den > 0,
        }
    }

    /// What the effect makes of the samples `s`.
    pub open spec fn model(&self, s: Seq<i16>) -> Result<Seq<i16>, WaveError> {
        match *self {
            Effect::Compressor { cutoff, ratio } => Ok(
                s.map_values(|x: i16| compress_sample(x, cutoff, ratio)),
            ),
            Effect::Delay { delay_by, amount_num, amount_den } => if delay_by <= s.len() {
                Ok(delay_model(s, delay_by as int, amount_num, amount_den))
            } else {
                Err(WaveError::OutOfRange)
            },
        }
    }

    /// Runs the effect on one channel.
    pub fn run(&self, samples: Vec<i16>) -> (r: Result<Vec<i16>, WaveError>)
        requires
            self.valid(),
        ensures
            r matches Ok(v) ==> self.model(samples@) == Ok::<Seq<i16>, WaveError>(v@),
            r matches Err(e) ==> self.model(samples@) == Err::<Seq<i16>, WaveError>(e),
    {
        match *self {
            Effect::Compressor { cutoff, ratio } => Ok(compressor(samples, cutoff, ratio)),
            Effect::Delay { delay_by, amount_num, amount_den } => delay(
                samples,
                delay_by,
                amount_num,
                amount_den,
            ),
        }
    }
}

} // verus!
