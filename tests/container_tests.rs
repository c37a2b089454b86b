use wav_audio::container::encodable_len;
use wav_audio::error::WaveError;
use wav_audio::wave::Wave;

fn le16(out: &mut Vec<u8>, v: u16) {
    out.extend_from_slice(&v.to_le_bytes());
}

fn le32(out: &mut Vec<u8>, v: u32) {
    out.extend_from_slice(&v.to_le_bytes());
}

fn header(format: u16, channels: u16, rate: u32, byte_rate: u32, align: u16, bits: u16, data_size: u32) -> Vec<u8> {
    let mut out = Vec::new();
    out.extend_from_slice(b"RIFF");
    le32(&mut out, 36 + data_size);
    out.extend_from_slice(b"WAVE");
    out.extend_from_slice(b"fmt ");
    le32(&mut out, 16);
    le16(&mut out, format);
    le16(&mut out, channels);
    le32(&mut out, rate);
    le32(&mut out, byte_rate);
    le16(&mut out, align);
    le16(&mut out, bits);
    out.extend_from_slice(b"data");
    le32(&mut out, data_size);
    out
}

fn stereo(left: Vec<i16>, right: Vec<i16>, rate: u32) -> Wave {
    Wave::new(left, right, rate).unwrap()
}

#[test]
fn round_trip_stereo() {
    let w = stereo(vec![0, 1, -1, i16::MAX, i16::MIN], vec![5, -5, 300, -300, 7], 44100);
    let bytes = w.to_wav_bytes();
    assert_eq!(bytes.len(), 44 + 5 * 4);
    let back = Wave::from_wav_bytes(&bytes).unwrap();
    assert_eq!(back.left(), w.left());
    assert_eq!(back.right(), w.right());
    assert_eq!(back.sample_rate(), 44100);
}

#[test]
fn round_trip_empty() {
    let w = stereo(vec![], vec![], 8000);
    let back = Wave::from_wav_bytes(&w.to_wav_bytes()).unwrap();
    assert_eq!(back.len(), 0);
    assert_eq!(back.sample_rate(), 8000);
}

#[test]
fn encodes_canonical_header() {
    let w = stereo(vec![1, 2], vec![-1, -2], 22050);
    let bytes = w.to_wav_bytes();
    let mut expected = header(1, 2, 22050, 88200, 4, 16, 8);
    expected.extend_from_slice(&[1, 0, 0xff, 0xff, 2, 0, 0xfe, 0xff]);
    assert_eq!(bytes, expected);
}

#[test]
fn mono_is_upmixed() {
    let mut bytes = header(1, 1, 8000, 16000, 2, 16, 6);
    bytes.extend_from_slice(&[10, 0, 0xf6, 0xff, 0, 0x80]);
    let w = Wave::from_wav_bytes(&bytes).unwrap();
    assert_eq!(w.left(), &vec![10, -10, i16::MIN]);
    assert_eq!(w.left(), w.right());
}

#[test]
fn stereo_decodes_interleaved_frames() {
    let mut bytes = header(1, 2, 48000, 192000, 4, 16, 9);
    bytes.extend_from_slice(&[1, 0, 2, 0, 3, 0, 4, 0, 99]);
    let w = Wave::from_wav_bytes(&bytes).unwrap();
    assert_eq!(w.left(), &vec![1, 3]);
    assert_eq!(w.right(), &vec![2, 4]);
    assert_eq!(w.sample_rate(), 48000);
}

#[test]
fn rejects_missing_riff_tag() {
    let mut bytes = header(1, 2, 8000, 32000, 4, 16, 0);
    bytes[0] = b'X';
    assert_eq!(Wave::from_wav_bytes(&bytes).err(), Some(WaveError::UnexpectedMagicNumber));
}

#[test]
fn rejects_other_tags() {
    for at in [8usize, 12, 36] {
        let mut bytes = header(1, 2, 8000, 32000, 4, 16, 0);
        bytes[at + 3] = b'?';
        assert_eq!(Wave::from_wav_bytes(&bytes).err(), Some(WaveError::UnexpectedMagicNumber));
    }
}

#[test]
fn rejects_eight_bit_samples() {
    let mut bytes = header(1, 2, 8000, 16000, 2, 8, 4);
    bytes.extend_from_slice(&[1, 2, 3, 4]);
    assert_eq!(Wave::from_wav_bytes(&bytes).err(), Some(WaveError::UnsupportedBitDepth));
}

#[test]
fn rejects_float_format() {
    let bytes = header(3, 2, 8000, 32000, 4, 16, 0);
    assert_eq!(Wave::from_wav_bytes(&bytes).err(), Some(WaveError::UnsupportedFormat));
}

#[test]
fn rejects_three_channels() {
    let bytes = header(1, 3, 8000, 48000, 6, 16, 0);
    assert_eq!(Wave::from_wav_bytes(&bytes).err(), Some(WaveError::UnsupportedChannelCount));
}

#[test]
fn rejects_inconsistent_format_fields() {
    let bad_align = header(1, 2, 8000, 32000, 2, 16, 0);
    assert_eq!(Wave::from_wav_bytes(&bad_align).err(), Some(WaveError::MalformedFormatChunk));
    let bad_rate = header(1, 2, 8000, 16000, 4, 16, 0);
    assert_eq!(Wave::from_wav_bytes(&bad_rate).err(), Some(WaveError::MalformedFormatChunk));
}

#[test]
fn rejects_truncated_streams() {
    let full = header(1, 2, 8000, 32000, 4, 16, 8);
    for cut in [0usize, 3, 10, 20, 30, 43, 44] {
        assert_eq!(Wave::from_wav_bytes(&full[..cut]).err(), Some(WaveError::TruncatedStream));
    }
    let mut short = full.clone();
    short.extend_from_slice(&[1, 0, 2, 0, 3, 0, 4]);
    assert_eq!(Wave::from_wav_bytes(&short).err(), Some(WaveError::TruncatedStream));
}

#[test]
fn header_fit_bounds() {
    assert!(encodable_len(0, 44100));
    assert!(encodable_len(1_073_741_814, 1_073_741_823));
    assert!(!encodable_len(1_073_741_815, 8000));
    assert!(!encodable_len(10, 1_073_741_824));
}
