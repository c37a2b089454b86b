//! The stereo sample buffer and the operations that build new buffers.

use vstd::prelude::*;
use crate::effects::Effect;
use crate::error::WaveError;
use crate::sample::{clip16, saturate};

verus! {

/// The mathematical content of a `Wave`.
pub struct WaveModel {
    pub left: Seq<i16>,
    pub right: Seq<i16>,
    pub sample_rate: u32,
}

impl WaveModel {
    /// Both channels hold the same number of samples.
    pub open spec fn wf(self) -> bool {
        self.left.len() == self.right.len()
    }
}

/// Sample `i` of `s`, or silence outside its range.
pub open spec fn sample_or_silence(s: Seq<i16>, i: int) -> int {
    if 0 <= i < s.len() {
        s[i] as int
    } else {
        0
    }
}

/// `b` played after `a`.
pub open spec fn concat_model(a: WaveModel, b: WaveModel) -> WaveModel {
    WaveModel { left: a.left + b.left, right: a.right + b.right, sample_rate: a.sample_rate }
}

/// Concatenation keeps both waves whole: the result is as long as both
/// together, starts with the samples of `a` and goes on with those of `b`.
pub proof fn lemma_concat_parts(a: WaveModel, b: WaveModel)
    ensures
        concat_model(a, b).left.len() == a.left.len() + b.left.len(),
        concat_model(a, b).right.len() == a.right.len() + b.right.len(),
        concat_model(a, b).left.subrange(0, a.left.len() as int) == a.left,
        concat_model(a, b).right.subrange(0, a.right.len() as int) == a.right,
        concat_model(a, b).left.subrange(a.left.len() as int, concat_model(a, b).left.len() as int)
            == b.left,
        concat_model(a, b).right.subrange(
            a.right.len() as int,
            concat_model(a, b).right.len() as int,
        ) == b.right,
        a.wf() && b.wf() ==> concat_model(a, b).wf(),
{
    let c = concat_model(a, b);
    assert(c.left.subrange(0, a.left.len() as int) =~= a.left);
    assert(c.right.subrange(0, a.right.len() as int) =~= a.right);
    assert(c.left.subrange(a.left.len() as int, c.left.len() as int) =~= b.left);
    assert(c.right.subrange(a.right.len() as int, c.right.len() as int) =~= b.right);
}

/// The samples of `b` added to those of `a`, starting `offset` samples in.
pub open spec fn overlay(a: Seq<i16>, b: Seq<i16>, offset: int) -> Seq<i16> {
    let n = if a.len() >= offset + b.len() {
        a.len() as int
    } else {
        offset + b.len()
    };
    Seq::new(
        n as nat,
        |i: int| clip16(sample_or_silence(a, i) + sample_or_silence(b, i - offset)),
    )
}

/// `b` mixed into `a` from `offset` on, at the sample rate of `a`.
pub open spec fn overlay_model(a: WaveModel, b: WaveModel, offset: int) -> WaveModel {
    WaveModel {
        left: overlay(a.left, b.left, offset),
        right: overlay(a.right, b.right, offset),
        sample_rate: a.sample_rate,
    }
}

/// Two channels of 16-bit samples, always of one length, and a sample rate.
pub struct Wave {
    channel_left: Vec<i16>,
    channel_right: Vec<i16>,
    sample_rate: u32,
}

impl View for Wave {
    type V = WaveModel;

    closed spec fn view(&self) -> WaveModel {
        WaveModel {
            left: self.channel_left@,
            right: self.channel_right@,
            sample_rate: self.sample_rate,
        }
    }
}

impl Clone for Wave {
    fn clone(&self) -> (r: Wave)
        ensures
            r@ == self@,
    {
        proof {
            use_type_invariant(self);
        }
        Wave {
            channel_left: self.channel_left.clone(),
            channel_right: self.channel_right.clone(),
            sample_rate: self.sample_rate,
        }
    }
}

impl Wave {
    #[verifier::type_invariant]
    spec fn channels_match(&self) -> bool {
        self.channel_left.len() == self.channel_right.len()
    }

    /// A wave from its two channels; fails when their lengths differ.
    pub fn new(left: Vec<i16>, right: Vec<i16>, sample_rate: u32) -> (r: Result<Wave, WaveError>)
        ensures
            left.len() == right.len() <==> r is Ok,
            r matches Ok(w) ==> w@ == (WaveModel { left: left@, right: right@, sample_rate }),
            r matches Err(e) ==> e == WaveError::LengthMismatch,
    {
        if left.len() != right.len() {
            return Err(WaveError::LengthMismatch);
        }
        Ok(Wave { channel_left: left, channel_right: right, sample_rate })
    }

    /// A wave from two channels known to have one length.
    pub(crate) fn from_parts(left: Vec<i16>, right: Vec<i16>, sample_rate: u32) -> (r: Wave)
        requires
            left.len() == right.len(),
        ensures
            r@ == (WaveModel { left: left@, right: right@, sample_rate }),
    {
        Wave { channel_left: left, channel_right: right, sample_rate }
    }

    /// Both channels of the wave, given back to the caller.
    pub fn into_channels(self) -> (r: (Vec<i16>, Vec<i16>))
        ensures
            r.0@ == self@.left,
            r.1@ == self@.right,
    {
        (self.channel_left, self.channel_right)
    }

    /// The left channel.
    pub fn left(&self) -> (r: &Vec<i16>)
        ensures
            r@ == self@.left,
    {
        &self.channel_left
    }

    /// The right channel.
    pub fn right(&self) -> (r: &Vec<i16>)
        ensures
            r@ == self@.right,
    {
        &self.channel_right
    }

    /// Samples per second.
    pub fn sample_rate(&self) -> (r: u32)
        ensures
            r == self@.sample_rate,
    {
        self.sample_rate
    }

    /// The number of samples in each channel.
    pub fn len(&self) -> (r: usize)
        ensures
            r == self@.left.len(),
            r == self@.right.len(),
    {
        proof {
            use_type_invariant(self);
        }
        self.channel_left.len()
    }
}

/// The sum of two samples, clipped to the 16-bit range.
fn mix_sample(a: i16, b: i16) -> (r: i16)
    ensures
        r == clip16(a + b),
{
    saturate(a as i32 + b as i32)
}

/// `wave2` played after `wave1`; both must have one sample rate.
pub fn compose(wave1: Wave, wave2: Wave) -> (r: Result<Wave, WaveError>)
    ensures
        wave1@.sample_rate == wave2@.sample_rate <==> r is Ok,
        r matches Ok(w) ==> w@ == concat_model(wave1@, wave2@) && w@.wf(),
        r matches Err(e) ==> e == WaveError::SampleRateMismatch,
{
    proof {
        use_type_invariant(&wave1);
        use_type_invariant(&wave2);
    }
    if wave1.sample_rate != wave2.sample_rate {
        return Err(WaveError::SampleRateMismatch);
    }
    let sample_rate = wave1.sample_rate;
    let (mut left, mut right) = wave1.into_channels();
    let (mut left2, mut right2) = wave2.into_channels();
    left.append(&mut left2);
    right.append(&mut right2);
    Ok(Wave { channel_left: left, channel_right: right, sample_rate })
}

/// One channel of `b` added to one of `a`, `b` starting `offset` samples in.
fn overlay_channel(a: &Vec<i16>, b: &Vec<i16>, offset: usize) -> (r: Vec<i16>)
    requires
        offset + b.len() <= usize::MAX,
    ensures
        r@ == overlay(a@, b@, offset as int),
{
    let n: usize = if a.len() >= offset + b.len() {
        a.len()
    } else {
        offset + b.len()
    };
    let mut out: Vec<i16> = Vec::with_capacity(n);
    let mut i: usize = 0;
    while i < n
        invariant
            i <= n,
            n == overlay(a@, b@, offset as int).len(),
            out@ =~= overlay(a@, b@, offset as int).take(i as int),
        decreases n - i,
    {
        let x: i16 = if i < a.len() {
            a[i]
        } else {
            0
        };
        let y: i16 = if i >= offset && i - offset < b.len() {
            b[i - offset]
        } else {
            0
        };
        out.push(mix_sample(x, y));
        i = i + 1;
    }
    out
}

/// The elementwise sum of two waves of one length and one sample rate.
pub fn add(wave1: Wave, wave2: Wave) -> (r: Result<Wave, WaveError>)
    ensures
        wave1@.left.len() != wave2@.left.len() ==> r == Err::<Wave, WaveError>(
            WaveError::LengthMismatch,
        ),
        wave1@.left.len() == wave2@.left.len() && wave1@.sample_rate != wave2@.sample_rate ==> r
            == Err::<Wave, WaveError>(WaveError::SampleRateMismatch),
        wave1@.left.len() == wave2@.left.len() && wave1@.sample_rate == wave2@.sample_rate ==> r
            is Ok,
        r matches Ok(w) ==> w@ == overlay_model(wave1@, wave2@, 0) && w@.wf() && w@.left.len()
            == wave1@.left.len(),
{
    proof {
        use_type_invariant(&wave1);
        use_type_invariant(&wave2);
    }
    if wave1.channel_left.len() != wave2.channel_left.len() {
        return Err(WaveError::LengthMismatch);
    }
    if wave1.sample_rate != wave2.sample_rate {
        return Err(WaveError::SampleRateMismatch);
    }
    Ok(add_with_offset(wave1, wave2, 0))
}

/// `wave2` mixed into `wave1` from sample `offset` on; the result is as long as
/// the longer of `wave1` and the shifted `wave2`, with silence where neither plays.
pub fn add_with_offset(wave1: Wave, wave2: Wave, offset: usize) -> (r: Wave)
    requires
        offset + wave2@.left.len() <= usize::MAX,
    ensures
        r@ == overlay_model(wave1@, wave2@, offset as int),
        r@.wf(),
{
    proof {
        use_type_invariant(&wave1);
        use_type_invariant(&wave2);
    }
    let left = overlay_channel(&wave1.channel_left, &wave2.channel_left, offset);
    let right = overlay_channel(&wave1.channel_right, &wave2.channel_right, offset);
    Wave { channel_left: left, channel_right: right, sample_rate: wave1.sample_rate }
}

/// The effect run on each channel of `wave` on its own, at the same sample
/// rate; fails as the effect fails on a channel.
pub fn apply(wave: Wave, effect: &Effect) -> (r: Result<Wave, WaveError>)
    requires
        effect.valid(),
    ensures
        effect.model(wave@.left) is Ok <==> r is Ok,
        r matches Ok(w) ==> Ok::<Seq<i16>, WaveError>(w@.left) == effect.model(wave@.left) && Ok::<
            Seq<i16>,
            WaveError,
        >(w@.right) == effect.model(wave@.right) && w@.sample_rate == wave@.sample_rate
            && w@.wf(),
        r matches Err(e) ==> effect.model(wave@.left) == Err::<Seq<i16>, WaveError>(e),
{
    proof {
        use_type_invariant(&wave);
    }
    let sample_rate = wave.sample_rate;
    let (left, right) = wave.into_channels();
    let left = match effect.run(left) {
        Ok(v) => v,
        Err(e) => return Err(e),
    };
    let right = match effect.run(right) {
        Ok(v) => v,
        Err(e) => return Err(e),
    };
    if left.len() != right.len() {
        return Err(WaveError::LengthMismatch);
    }
    Ok(Wave { channel_left: left, channel_right: right, sample_rate })
}

} // verus!
