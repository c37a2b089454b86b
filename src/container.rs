//! The RIFF/WAVE container: decoding bytes into a `Wave` and encoding it back.

use vstd::prelude::*;
use crate::codec::{
    b2i16, b2u16, b2u32, i16_to_bytes, u16_bytes, u16_of, u16_to_bytes, u32_bytes, u32_of,
    u32_to_bytes, signed16, unsigned16, Endian, lemma_u16_round_trip, lemma_u32_round_trip,
    lemma_i16_round_trip,
};
use crate::error::WaveError;
use crate::wave::{Wave, WaveModel};

verus! {

/// "RIFF" read as a big-endian number.
pub const RIFF_TAG: u32 = 0x5249_4646;

/// "WAVE" read as a big-endian number.
pub const WAVE_TAG: u32 = 0x5741_5645;

/// "fmt " read as a big-endian number.
pub const FMT_TAG: u32 = 0x666D_7420;

/// "data" read as a big-endian number.
pub const DATA_TAG: u32 = 0x6461_7461;

/// Bytes before the first sample.
pub const HEADER_LEN: usize = 44;

/// The little-endian 16-bit field at byte `p`.
pub open spec fn le16_at(b: Seq<u8>, p: int) -> nat {
    u16_of(b.subrange(p, p + 2), Endian::Little)
}

/// The little-endian 32-bit field at byte `p`.
pub open spec fn le32_at(b: Seq<u8>, p: int) -> nat {
    u32_of(b.subrange(p, p + 4), Endian::Little)
}

/// The big-endian 32-bit tag at byte `p`.
pub open spec fn be32_at(b: Seq<u8>, p: int) -> nat {
    u32_of(b.subrange(p, p + 4), Endian::Big)
}

/// The signed little-endian 16-bit sample at byte `p`.
pub open spec fn sample_at(b: Seq<u8>, p: int) -> i16 {
    signed16(le16_at(b, p)) as i16
}

/// The channel count field.
pub open spec fn channel_field(b: Seq<u8>) -> nat {
    le16_at(b, 22)
}

/// Bytes in one frame of `channels` 16-bit samples.
pub open spec fn frame_bytes(channels: nat) -> nat {
    if channels == 1 {
        2
    } else {
        4
    }
}

/// The number of whole frames in the data chunk.
pub open spec fn frame_count(b: Seq<u8>) -> nat {
    le32_at(b, 40) / frame_bytes(channel_field(b))
}

/// The byte at which frame `j` starts.
pub open spec fn frame_offset(channels: nat, j: int) -> int {
    if channels == 1 {
        44 + 2 * j
    } else {
        44 + 4 * j
    }
}

/// The byte at which the right sample of frame `j` starts; a mono frame's one
/// sample serves both channels.
pub open spec fn right_offset(channels: nat, j: int) -> int {
    if channels == 1 {
        frame_offset(channels, j)
    } else {
        frame_offset(channels, j) + 2
    }
}

/// What a stream of bytes decodes to: checks in the order the fields are read,
/// a short stream failing at the first field it cannot hold.
pub open spec fn decode_model(b: Seq<u8>) -> Result<WaveModel, WaveError> {
    if b.len() < 4 {
        Err(WaveError::TruncatedStream)
    } else if be32_at(b, 0) != RIFF_TAG {
        Err(WaveError::UnexpectedMagicNumber)
    } else if b.len() < 12 {
        Err(WaveError::TruncatedStream)
    } else if be32_at(b, 8) != WAVE_TAG {
        Err(WaveError::UnexpectedMagicNumber)
    } else if b.len() < 16 {
        Err(WaveError::TruncatedStream)
    } else if be32_at(b, 12) != FMT_TAG {
        Err(WaveError::UnexpectedMagicNumber)
    } else if b.len() < 22 {
        Err(WaveError::TruncatedStream)
    } else if le16_at(b, 20) != 1 {
        Err(WaveError::UnsupportedFormat)
    } else if b.len() < 24 {
        Err(WaveError::TruncatedStream)
    } else if channel_field(b) != 1 && channel_field(b) != 2 {
        Err(WaveError::UnsupportedChannelCount)
    } else if b.len() < 36 {
        Err(WaveError::TruncatedStream)
    } else if le16_at(b, 34) != 16 {
        Err(WaveError::UnsupportedBitDepth)
    } else if le16_at(b, 32) != frame_bytes(channel_field(b)) || le32_at(b, 28) != le32_at(b, 24)
        * frame_bytes(channel_field(b)) {
        Err(WaveError::MalformedFormatChunk)
    } else if b.len() < 40 {
        Err(WaveError::TruncatedStream)
    } else if be32_at(b, 36) != DATA_TAG {
        Err(WaveError::UnexpectedMagicNumber)
    } else if b.len() < 44 || b.len() < frame_offset(channel_field(b), frame_count(b) as int) {
        Err(WaveError::TruncatedStream)
    } else {
        let ch = channel_field(b);
        Ok(
            WaveModel {
                left: Seq::new(frame_count(b), |j: int| sample_at(b, frame_offset(ch, j))),
                right: Seq::new(frame_count(b), |j: int| sample_at(b, right_offset(ch, j))),
                sample_rate: le32_at(b, 24) as u32,
            },
        )
    }
}

/// Reads the little-endian 16-bit field at `p`.
fn read_u16(b: &[u8], p: usize) -> (r: u16)
    requires
        p + 2 <= b@.len(),
    ensures
        r as nat == le16_at(b@, p as int),
{
    let a: [u8; 2] = [b[p], b[p + 1]];
    let r = b2u16(a, Endian::Little);
    assert(a@ =~= b@.subrange(p as int, p + 2));
    r
}

/// Reads the little-endian 32-bit field at `p`.
fn read_u32(b: &[u8], p: usize) -> (r: u32)
    requires
        p + 4 <= b@.len(),
    ensures
        r as nat == le32_at(b@, p as int),
{
    let a: [u8; 4] = [b[p], b[p + 1], b[p + 2], b[p + 3]];
    let r = b2u32(a, Endian::Little);
    assert(a@ =~= b@.subrange(p as int, p + 4));
    r
}

/// Reads the big-endian tag at `p`.
fn read_tag(b: &[u8], p: usize) -> (r: u32)
    requires
        p + 4 <= b@.len(),
    ensures
        r as nat == be32_at(b@, p as int),
{
    let a: [u8; 4] = [b[p], b[p + 1], b[p + 2], b[p + 3]];
    let r = b2u32(a, Endian::Big);
    assert(a@ =~= b@.subrange(p as int, p + 4));
    r
}

/// Reads the signed little-endian 16-bit sample at `p`.
fn read_sample(b: &[u8], p: usize) -> (r: i16)
    requires
        p + 2 <= b@.len(),
    ensures
        r == sample_at(b@, p as int),
{
    let a: [u8; 2] = [b[p], b[p + 1]];
    let r = b2i16(a, Endian::Little);
    assert(a@ =~= b@.subrange(p as int, p + 2));
    r
}

/// The header fields that decoding keeps: channel count, sample rate and
/// the number of whole frames, after every check of the header has passed.
fn parse_header(b: &[u8]) -> (r: Result<(u16, u32, usize), WaveError>)
    ensures
        r matches Ok((channels, sample_rate, frames)) ==> decode_model(b@) is Ok && channels as nat
            == channel_field(b@) && sample_rate as nat == le32_at(b@, 24) && frames as nat
            == frame_count(b@) && frame_offset(channels as nat, frames as int) <= b@.len(),
        r matches Err(e) ==> decode_model(b@) == Err::<WaveModel, WaveError>(e),
{
    if b.len() < 4 {
        return Err(WaveError::TruncatedStream);
    }
    if read_tag(b, 0) != RIFF_TAG {
        return Err(WaveError::UnexpectedMagicNumber);
    }
    if b.len() < 12 {
        return Err(WaveError::TruncatedStream);
    }
    if read_tag(b, 8) != WAVE_TAG {
        return Err(WaveError::UnexpectedMagicNumber);
    }
    if b.len() < 16 {
        return Err(WaveError::TruncatedStream);
    }
    if read_tag(b, 12) != FMT_TAG {
        return Err(WaveError::UnexpectedMagicNumber);
    }
    if b.len() < 22 {
        return Err(WaveError::TruncatedStream);
    }
    if read_u16(b, 20) != 1 {
        return Err(WaveError::UnsupportedFormat);
    }
    if b.len() < 24 {
        return Err(WaveError::TruncatedStream);
    }
    let channels = read_u16(b, 22);
    if channels != 1 && channels != 2 {
        return Err(WaveError::UnsupportedChannelCount);
    }
    if b.len() < 36 {
        return Err(WaveError::TruncatedStream);
    }
    let sample_rate = read_u32(b, 24);
    let byte_rate = read_u32(b, 28);
    let block_align = read_u16(b, 32);
    let bits_per_sample = read_u16(b, 34);
    if bits_per_sample != 16 {
        return Err(WaveError::UnsupportedBitDepth);
    }
    let frame: u16 = if channels == 1 {
        2
    } else {
        4
    };
    if block_align != frame || byte_rate as u64 != sample_rate as u64 * frame as u64 {
        return Err(WaveError::MalformedFormatChunk);
    }
    if b.len() < 40 {
        return Err(WaveError::TruncatedStream);
    }
    if read_tag(b, 36) != DATA_TAG {
        return Err(WaveError::UnexpectedMagicNumber);
    }
    if b.len() < HEADER_LEN {
        return Err(WaveError::TruncatedStream);
    }
    let data_size = read_u32(b, 40);
    let room: usize = b.len() - HEADER_LEN;
    let fits: bool;
    let frames: usize;
    if channels == 1 {
        frames = (data_size / 2) as usize;
        fits = frames <= room / 2;
    } else {
        frames = (data_size / 4) as usize;
        fits = frames <= room / 4;
    }
    if !fits {
        return Err(WaveError::TruncatedStream);
    }
    Ok((channels, sample_rate, frames))
}

/// The samples of the first `frames` frames, left and right.
fn read_frames(b: &[u8], channels: u16, frames: usize) -> (r: (Vec<i16>, Vec<i16>))
    requires
        channels == 1 || channels == 2,
        frame_offset(channels as nat, frames as int) <= b@.len(),
    ensures
        r.0@ == Seq::new(frames as nat, |j: int| sample_at(b@, frame_offset(channels as nat, j))),
        r.1@ == Seq::new(frames as nat, |j: int| sample_at(b@, right_offset(channels as nat, j))),
{
    let ghost ch = channels as nat;
    let mut left: Vec<i16> = Vec::with_capacity(frames);
    let mut right: Vec<i16> = Vec::with_capacity(frames);
    let len: usize = b.len();
    let mut j: usize = 0;
    while j < frames
        invariant
            len == b@.len(),
            channels == 1 || channels == 2,
            ch == channels as nat,
            j <= frames,
            frame_offset(ch, frames as int) <= b@.len(),
            left@ =~= Seq::new(j as nat, |k: int| sample_at(b@, frame_offset(ch, k))),
            right@ =~= Seq::new(j as nat, |k: int| sample_at(b@, right_offset(ch, k))),
        decreases frames - j,
    {
        if channels == 1 {
            let s = read_sample(b, HEADER_LEN + 2 * j);
            left.push(s);
            right.push(s);
        } else {
            left.push(read_sample(b, HEADER_LEN + 4 * j));
            right.push(read_sample(b, HEADER_LEN + 4 * j + 2));
        }
        j = j + 1;
    }
    (left, right)
}

impl Wave {
    /// Decodes a RIFF/WAVE stream of 16-bit PCM samples, mono or stereo; a
    /// mono stream plays the same samples on both channels.
    pub fn from_wav_bytes(bytes: &[u8]) -> (r: Result<Wave, WaveError>)
        ensures
            r matches Ok(w) ==> decode_model(bytes@) == Ok::<WaveModel, WaveError>(w@),
            r matches Err(e) ==> decode_model(bytes@) == Err::<WaveModel, WaveError>(e),
    {
        match parse_header(bytes) {
            Err(e) => Err(e),
            Ok((channels, sample_rate, frames)) => {
                let (left, right) = read_frames(bytes, channels, frames);
                let r = Wave::from_parts(left, right, sample_rate);
                assert(decode_model(bytes@) == Ok::<WaveModel, WaveError>(r@));
                Ok(r)
            },
        }
    }
}

/// The header fields fit their 32-bit slots.
pub open spec fn encodable(w: WaveModel) -> bool {
    36 + 4 * w.left.len() <= u32::MAX && 4 * (w.sample_rate as nat) <= u32::MAX
}

/// Whether a wave of `len` frames at `sample_rate` fits the header's fields.
pub fn encodable_len(len: usize, sample_rate: u32) -> (r: bool)
    ensures
        r <==> 36 + 4 * len <= u32::MAX && 4 * (sample_rate as nat) <= u32::MAX,
{
    len <= (u32::MAX as usize - 36) / 4 && sample_rate <= u32::MAX / 4
}

/// The 44 header bytes of a canonical stereo, 16-bit file for `w`.
pub open spec fn header_model(w: WaveModel) -> Seq<u8> {
    let n = w.left.len();
    u32_bytes(RIFF_TAG as nat, Endian::Big) + u32_bytes(36 + 4 * n, Endian::Little) + u32_bytes(
        WAVE_TAG as nat,
        Endian::Big,
    ) + u32_bytes(FMT_TAG as nat, Endian::Big) + u32_bytes(16, Endian::Little) + u16_bytes(
        1,
        Endian::Little,
    ) + u16_bytes(2, Endian::Little) + u32_bytes(w.sample_rate as nat, Endian::Little)
        + u32_bytes(4 * (w.sample_rate as nat), Endian::Little) + u16_bytes(4, Endian::Little)
        + u16_bytes(16, Endian::Little) + u32_bytes(DATA_TAG as nat, Endian::Big) + u32_bytes(
        4 * n,
        Endian::Little,
    )
}

/// Byte `k` of the sample data: frame `k / 4` holds the left sample, then the
/// right, each little-endian.
pub open spec fn data_byte(w: WaveModel, k: int) -> u8 {
    let f = k / 4;
    let s = if k % 4 < 2 {
        w.left[f]
    } else {
        w.right[f]
    };
    u16_bytes(unsigned16(s as int), Endian::Little)[k % 2]
}

/// The bytes that encode `w`.
pub open spec fn encode_model(w: WaveModel) -> Seq<u8> {
    header_model(w) + Seq::new(4 * w.left.len(), |k: int| data_byte(w, k))
}

/// Appends the bytes of a 32-bit value.
fn push_u32(out: &mut Vec<u8>, v: u32, endian: Endian)
    ensures
        final(out)@ == old(out)@ + u32_bytes(v as nat, endian),
{
    let a = u32_to_bytes(v, endian);
    out.push(a[0]);
    out.push(a[1]);
    out.push(a[2]);
    out.push(a[3]);
    assert(final(out)@ =~= old(out)@ + u32_bytes(v as nat, endian));
}

/// Appends the bytes of a 16-bit value.
fn push_u16(out: &mut Vec<u8>, v: u16, endian: Endian)
    ensures
        final(out)@ == old(out)@ + u16_bytes(v as nat, endian),
{
    let a = u16_to_bytes(v, endian);
    out.push(a[0]);
    out.push(a[1]);
    assert(final(out)@ =~= old(out)@ + u16_bytes(v as nat, endian));
}

impl Wave {
    /// Encodes the wave as a canonical stereo, 16-bit PCM RIFF/WAVE stream.
    pub fn to_wav_bytes(&self) -> (r: Vec<u8>)
        requires
            encodable(self@),
        ensures
            r@ == encode_model(self@),
    {
        let n = self.len();
        let left = self.left();
        let right = self.right();
        let sample_rate = self.sample_rate();
        let data_size: u32 = (n as u32) * 4;
        let mut out: Vec<u8> = Vec::new();
        push_u32(&mut out, RIFF_TAG, Endian::Big);
        push_u32(&mut out, 36 + data_size, Endian::Little);
        push_u32(&mut out, WAVE_TAG, Endian::Big);
        push_u32(&mut out, FMT_TAG, Endian::Big);
        push_u32(&mut out, 16, Endian::Little);
        push_u16(&mut out, 1, Endian::Little);
        push_u16(&mut out, 2, Endian::Little);
        push_u32(&mut out, sample_rate, Endian::Little);
        push_u32(&mut out, sample_rate * 4, Endian::Little);
        push_u16(&mut out, 4, Endian::Little);
        push_u16(&mut out, 16, Endian::Little);
        push_u32(&mut out, DATA_TAG, Endian::Big);
        push_u32(&mut out, data_size, Endian::Little);
        let ghost header = out@;
        assert(header =~= header_model(self@));
        let mut i: usize = 0;
        while i < n
            invariant
                i <= n,
                n == self@.left.len(),
                n == self@.right.len(),
                left@ == self@.left,
                right@ == self@.right,
                header == header_model(self@),
                out@ =~= header + Seq::new(4 * i as nat, |k: int| data_byte(self@, k)),
            decreases n - i,
        {
            let l = i16_to_bytes(left[i], Endian::Little);
            let r = i16_to_bytes(right[i], Endian::Little);
            out.push(l[0]);
            out.push(l[1]);
            out.push(r[0]);
            out.push(r[1]);
            i = i + 1;
        }
        out
    }
}

/// The header of an encoded wave reads back as the fields that were written.
proof fn lemma_header_fields(w: WaveModel)
    requires
        w.wf(),
        encodable(w),
    ensures
        encode_model(w).len() == 44 + 4 * w.left.len(),
        be32_at(encode_model(w), 0) == RIFF_TAG,
        be32_at(encode_model(w), 8) == WAVE_TAG,
        be32_at(encode_model(w), 12) == FMT_TAG,
        le16_at(encode_model(w), 20) == 1,
        channel_field(encode_model(w)) == 2,
        le32_at(encode_model(w), 24) == w.sample_rate,
        le32_at(encode_model(w), 28) == 4 * (w.sample_rate as nat),
        le16_at(encode_model(w), 32) == 4,
        le16_at(encode_model(w), 34) == 16,
        be32_at(encode_model(w), 36) == DATA_TAG,
        le32_at(encode_model(w), 40) == 4 * w.left.len(),
{
    let b = encode_model(w);
    let n = w.left.len();
    let sr = w.sample_rate as nat;
    lemma_u32_round_trip(RIFF_TAG as nat, Endian::Big);
    lemma_u32_round_trip(36 + 4 * n, Endian::Little);
    lemma_u32_round_trip(WAVE_TAG as nat, Endian::Big);
    lemma_u32_round_trip(FMT_TAG as nat, Endian::Big);
    lemma_u32_round_trip(16, Endian::Little);
    lemma_u16_round_trip(1, Endian::Little);
    lemma_u16_round_trip(2, Endian::Little);
    lemma_u32_round_trip(sr, Endian::Little);
    lemma_u32_round_trip(4 * sr, Endian::Little);
    lemma_u16_round_trip(4, Endian::Little);
    lemma_u16_round_trip(16, Endian::Little);
    lemma_u32_round_trip(DATA_TAG as nat, Endian::Big);
    lemma_u32_round_trip(4 * n, Endian::Little);
    assert(header_model(w).len() == 44);
    assert(b.subrange(0, 4) =~= u32_bytes(RIFF_TAG as nat, Endian::Big));
    assert(b.subrange(8, 12) =~= u32_bytes(WAVE_TAG as nat, Endian::Big));
    assert(b.subrange(12, 16) =~= u32_bytes(FMT_TAG as nat, Endian::Big));
    assert(b.subrange(20, 22) =~= u16_bytes(1, Endian::Little));
    assert(b.subrange(22, 24) =~= u16_bytes(2, Endian::Little));
    assert(b.subrange(24, 28) =~= u32_bytes(sr, Endian::Little));
    assert(b.subrange(28, 32) =~= u32_bytes(4 * sr, Endian::Little));
    assert(b.subrange(32, 34) =~= u16_bytes(4, Endian::Little));
    assert(b.subrange(34, 36) =~= u16_bytes(16, Endian::Little));
    assert(b.subrange(36, 40) =~= u32_bytes(DATA_TAG as nat, Endian::Big));
    assert(b.subrange(40, 44) =~= u32_bytes(4 * n, Endian::Little));
}

/// The samples of frame `j` of an encoded wave read back as those written.
proof fn lemma_frame_samples(w: WaveModel, j: int)
    requires
        w.wf(),
        encodable(w),
        0 <= j < w.left.len(),
    ensures
        sample_at(encode_model(w), 44 + 4 * j) == w.left[j],
        sample_at(encode_model(w), 44 + 4 * j + 2) == w.right[j],
{
    let b = encode_model(w);
    let n = w.left.len();
    let data = Seq::new(4 * n, |k: int| data_byte(w, k));
    assert(header_model(w).len() == 44);
    assert(b == header_model(w) + data);
    let p = 44 + 4 * j;
    assert((4 * j) / 4 == j && (4 * j) % 4 == 0 && (4 * j) % 2 == 0);
    assert((4 * j + 1) / 4 == j && (4 * j + 1) % 4 == 1 && (4 * j + 1) % 2 == 1);
    assert((4 * j + 2) / 4 == j && (4 * j + 2) % 4 == 2 && (4 * j + 2) % 2 == 0);
    assert((4 * j + 3) / 4 == j && (4 * j + 3) % 4 == 3 && (4 * j + 3) % 2 == 1);
    let lb = u16_bytes(unsigned16(w.left[j] as int), Endian::Little);
    let rb = u16_bytes(unsigned16(w.right[j] as int), Endian::Little);
    assert(b[p] == data[4 * j] && data[4 * j] == lb[0]);
    assert(b[p + 1] == data[4 * j + 1] && data[4 * j + 1] == lb[1]);
    assert(b[p + 2] == data[4 * j + 2] && data[4 * j + 2] == rb[0]);
    assert(b[p + 3] == data[4 * j + 3] && data[4 * j + 3] == rb[1]);
    lemma_i16_round_trip(w.left[j], Endian::Little);
    lemma_i16_round_trip(w.right[j], Endian::Little);
    assert(b.subrange(p, p + 2) =~= lb);
    assert(b.subrange(p + 2, p + 4) =~= rb);
}

/// Decoding the encoding of a wave gives the wave back.
pub proof fn lemma_round_trip(w: WaveModel)
    requires
        w.wf(),
        encodable(w),
    ensures
        decode_model(encode_model(w)) == Ok::<WaveModel, WaveError>(w),
{
    let b = encode_model(w);
    let n = w.left.len();
    lemma_header_fields(w);
    assert(frame_count(b) == n);
    let d = decode_model(b)->Ok_0;
    assert forall|j: int| 0 <= j < n implies d.left[j] == w.left[j] && d.right[j] == w.right[j] by {
        lemma_frame_samples(w, j);
    }
    assert(d.left =~= w.left);
    assert(d.right =~= w.right);
}

/// A mono stream decodes to a wave whose two channels are equal.
pub proof fn lemma_mono_upmix(b: Seq<u8>)
    requires
        decode_model(b) is Ok,
        channel_field(b) == 1,
    ensures
        decode_model(b)->Ok_0.left == decode_model(b)->Ok_0.right,
{
    assert(decode_model(b)->Ok_0.left =~= decode_model(b)->Ok_0.right);
}

} // verus!
