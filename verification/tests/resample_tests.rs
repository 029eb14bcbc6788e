use typefree::resample::resample;
use typefree::resample::resample_linear;
use typefree::resample::SincRates;

#[test]
fn test_linear_downsample() {
    let input: Vec<i16> = (0..4800).map(|i| (i % 1000) as i16).collect();
    let output = resample_linear(&input, 48000, 16000);
    assert_eq!(output.len(), 1600);
}

#[test]
fn resample_equal_rates_is_identity() {
    let input: Vec<i16> = vec![5, -7, 1000, -32768, 32767, 0];
    let output = resample(&input, 44100, 44100);
    assert_eq!(output, input);
}

#[test]
fn resample_equal_rates_identity_any_rate() {
    let input: Vec<i16> = vec![1, 2, 3];
    assert_eq!(resample(&input, 1, 1), input);
    assert_eq!(resample(&input, 96000, 96000), input);
}

#[test]
fn linear_upsample_interpolates() {
    let input: Vec<i16> = vec![0, 100];
    let output = resample_linear(&input, 16000, 32000);
    assert_eq!(output, vec![0, 50, 100, 100]);
}

#[test]
fn linear_downsample_picks_every_other() {
    let input: Vec<i16> = vec![0, 10, 20, 30, 40, 50];
    let output = resample_linear(&input, 32000, 16000);
    assert_eq!(output, vec![0, 20, 40]);
}

#[test]
fn linear_interpolation_truncates_toward_zero() {
    // Source position 0.5 between -1 and -2 interpolates to -1.5,
    // truncated to -1.
    let input: Vec<i16> = vec![-1, -2];
    let output = resample_linear(&input, 16000, 32000);
    assert_eq!(output, vec![-1, -1, -2, -2]);
}

#[test]
fn linear_single_sample_passes_through() {
    let input: Vec<i16> = vec![1234];
    assert_eq!(resample_linear(&input, 48000, 16000), vec![1234]);
}

#[test]
fn linear_empty_input_stays_empty() {
    let input: Vec<i16> = Vec::new();
    assert_eq!(resample_linear(&input, 48000, 16000), Vec::<i16>::new());
}

#[test]
fn linear_length_law_examples() {
    let a: Vec<i16> = vec![0; 441];
    assert_eq!(resample_linear(&a, 44100, 16000).len(), 441 * 16000 / 44100);
    let b: Vec<i16> = vec![0; 7];
    assert_eq!(resample_linear(&b, 3, 2).len(), 7 * 2 / 3);
}

#[test]
fn linear_repeated_calls_agree() {
    let input: Vec<i16> = (0..500).map(|i| (i * 13 % 4001 - 2000) as i16).collect();
    let once = resample_linear(&input, 44100, 16000);
    let twice = resample_linear(&input, 44100, 16000);
    assert_eq!(once, twice);
}

#[test]
fn sinc_rates_reset_on_pair_change() {
    let mut rates = SincRates::new();
    assert!(rates.needs_reset(48000, 16000));
    rates.reset(48000, 16000);
    assert!(!rates.needs_reset(48000, 16000));
    assert!(rates.needs_reset(44100, 16000));
    rates.reset(44100, 16000);
    assert!(!rates.needs_reset(44100, 16000));
    assert_eq!(rates.current(), Some((44100, 16000)));
}
