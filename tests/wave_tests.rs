use wav_audio::effects::{compressor, delay, Effect};
use wav_audio::error::WaveError;
use wav_audio::wave::{add, add_with_offset, apply, compose, Wave};

fn wave(left: Vec<i16>, right: Vec<i16>, rate: u32) -> Wave {
    Wave::new(left, right, rate).unwrap()
}

#[test]
fn new_rejects_unequal_channels() {
    assert_eq!(Wave::new(vec![1, 2], vec![1], 8000).err(), Some(WaveError::LengthMismatch));
}

#[test]
fn compose_appends() {
    let a = wave(vec![1, 2], vec![3, 4], 8000);
    let b = wave(vec![5], vec![6], 8000);
    let c = compose(a, b).unwrap();
    assert_eq!(c.left(), &vec![1, 2, 5]);
    assert_eq!(c.right(), &vec![3, 4, 6]);
    assert_eq!(c.sample_rate(), 8000);
}

#[test]
fn compose_rejects_rate_mismatch() {
    let a = wave(vec![1], vec![1], 8000);
    let b = wave(vec![1], vec![1], 44100);
    assert_eq!(compose(a, b).err(), Some(WaveError::SampleRateMismatch));
}

#[test]
fn add_sums_samples() {
    let a = wave(vec![100, -100], vec![100, -100], 8000);
    let b = wave(vec![50, 50], vec![50, 50], 8000);
    let c = add(a, b).unwrap();
    assert_eq!(c.left(), &vec![150, -50]);
    assert_eq!(c.right(), &vec![150, -50]);
}

#[test]
fn add_clips_to_range() {
    let a = wave(vec![30000, -30000], vec![0, 0], 8000);
    let b = wave(vec![30000, -30000], vec![1, -1], 8000);
    let c = add(a, b).unwrap();
    assert_eq!(c.left(), &vec![i16::MAX, i16::MIN]);
    assert_eq!(c.right(), &vec![1, -1]);
}

#[test]
fn add_rejects_mismatches() {
    let a = wave(vec![1, 2], vec![1, 2], 8000);
    let b = wave(vec![1], vec![1], 8000);
    assert_eq!(add(a, b).err(), Some(WaveError::LengthMismatch));
    let a = wave(vec![1], vec![1], 8000);
    let b = wave(vec![1], vec![1], 16000);
    assert_eq!(add(a, b).err(), Some(WaveError::SampleRateMismatch));
}

#[test]
fn add_with_offset_overlaps() {
    let a = wave(vec![1, 2, 3], vec![4, 5, 6], 8000);
    let b = wave(vec![10, 20], vec![30, 40], 8000);
    let c = add_with_offset(a, b, 2);
    assert_eq!(c.left(), &vec![1, 2, 13, 20]);
    assert_eq!(c.right(), &vec![4, 5, 36, 40]);
}

#[test]
fn add_with_offset_fills_gap_with_silence() {
    let a = wave(vec![1], vec![2], 8000);
    let b = wave(vec![7], vec![8], 8000);
    let c = add_with_offset(a, b, 3);
    assert_eq!(c.left(), &vec![1, 0, 0, 7]);
    assert_eq!(c.right(), &vec![2, 0, 0, 8]);
}

#[test]
fn add_with_offset_inside_first() {
    let a = wave(vec![1, 1, 1, 1], vec![0, 0, 0, 0], 8000);
    let b = wave(vec![5], vec![5], 8000);
    let c = add_with_offset(a, b, 1);
    assert_eq!(c.left(), &vec![1, 6, 1, 1]);
    assert_eq!(c.len(), 4);
}

#[test]
fn compressor_passes_quiet_and_compresses_loud() {
    assert_eq!(compressor(vec![500], 1000, 10), vec![500]);
    assert_eq!(compressor(vec![2000], 1000, 10), vec![1100]);
    assert_eq!(compressor(vec![-2000, 1000, -999], 1000, 10), vec![-1100, 1000, -999]);
    assert_eq!(compressor(vec![i16::MIN, i16::MAX], 0, 1), vec![i16::MIN, i16::MAX]);
}

#[test]
fn delay_adds_echo() {
    assert_eq!(delay(vec![10, 20, 40, 80], 2, 1, 2), Ok(vec![10, 20, 45, 90]));
    assert_eq!(delay(vec![10, -21], 1, 1, 2), Ok(vec![10, -16]));
    assert_eq!(delay(vec![1, 2], 2, 1, 2), Ok(vec![1, 2]));
    assert_eq!(delay(vec![], 0, 1, 2), Ok(vec![]));
}

#[test]
fn delay_rounds_echo_toward_zero() {
    assert_eq!(delay(vec![0, -3, 0], 1, 1, 2), Ok(vec![0, -3, -1]));
    assert_eq!(delay(vec![30000, 30000], 1, 1, 1), Ok(vec![30000, i16::MAX]));
}

#[test]
fn delay_rejects_long_offset() {
    assert_eq!(delay(vec![1, 2, 3], 4, 1, 2), Err(WaveError::OutOfRange));
}

#[test]
fn apply_runs_effect_on_both_channels() {
    let w = wave(vec![2000, 10], vec![-2000, 500], 44100);
    let c = apply(w, &Effect::Compressor { cutoff: 1000, ratio: 10 }).unwrap();
    assert_eq!(c.left(), &vec![1100, 10]);
    assert_eq!(c.right(), &vec![-1100, 500]);
    assert_eq!(c.sample_rate(), 44100);
    let w = wave(vec![10, 20, 40, 80], vec![0, 0, 2, 2], 8000);
    let d = apply(w, &Effect::Delay { delay_by: 2, amount_num: 1, amount_den: 2 }).unwrap();
    assert_eq!(d.left(), &vec![10, 20, 45, 90]);
    assert_eq!(d.right(), &vec![0, 0, 2, 2]);
}

#[test]
fn apply_reports_effect_failure() {
    let w = wave(vec![1], vec![1], 8000);
    let r = apply(w, &Effect::Delay { delay_by: 3, amount_num: 1, amount_den: 2 });
    assert_eq!(r.err(), Some(WaveError::OutOfRange));
}

#[test]
fn effect_run_matches_functions() {
    let e = Effect::Compressor { cutoff: 100, ratio: 2 };
    assert_eq!(e.run(vec![300, 50]), Ok(vec![200, 50]));
}

#[test]
fn clone_keeps_samples() {
    let w = wave(vec![1, -2], vec![3, -4], 11025);
    let c = w.clone();
    assert_eq!(c.left(), w.left());
    assert_eq!(c.right(), w.right());
    assert_eq!(c.sample_rate(), 11025);
}

#[test]
fn effect_run_delay() {
    let e = Effect::Delay { delay_by: 1, amount_num: 1, amount_den: 5 };
    assert_eq!(e.run(vec![100, 0, 0]), Ok(vec![100, 20, 0]));
    assert_eq!(e.run(vec![]), Err(WaveError::OutOfRange));
}
