use audio_visualizer::audio::{AudioInput, AudioSource};
use audio_visualizer::spectrum::{pad_window, transform_size};
use rustfft::num_complex::Complex;
use rustfft::FftPlanner;

fn magnitudes(planner: &mut FftPlanner<f32>, samples: &[f32]) -> Vec<f32> {
    let padded = pad_window(samples, 0.0f32).expect("window fits in memory");
    if padded.is_empty() {
        return Vec::new();
    }
    let mut buffer: Vec<Complex<f32>> = padded.iter().map(|&s| Complex { re: s, im: 0.0 }).collect();
    let fft = planner.plan_fft_forward(buffer.len());
    fft.process(&mut buffer);
    buffer.iter().map(|c| c.norm()).collect()
}

fn sine(frequency: f32, rate: f32, len: usize) -> Vec<f32> {
    (0..len)
        .map(|i| (2.0 * std::f32::consts::PI * frequency * i as f32 / rate).sin())
        .collect()
}

fn peak_bin(spectrum: &[f32]) -> usize {
    let mut best: usize = 0;
    for (i, &m) in spectrum.iter().enumerate() {
        if m > spectrum[best] {
            best = i;
        }
    }
    best
}

#[test]
fn transform_size_of_small_lengths() {
    assert_eq!(transform_size(0), Some(0));
    assert_eq!(transform_size(1), Some(1));
    assert_eq!(transform_size(2), Some(2));
    assert_eq!(transform_size(3), Some(4));
    assert_eq!(transform_size(4), Some(4));
    assert_eq!(transform_size(5), Some(8));
    assert_eq!(transform_size(1000), Some(1024));
    assert_eq!(transform_size(1024), Some(1024));
    assert_eq!(transform_size(1025), Some(2048));
    assert_eq!(transform_size(44100), Some(65536));
}

#[test]
fn transform_size_at_the_machine_limit() {
    let top: usize = usize::MAX / 2 + 1;
    assert_eq!(transform_size(top), Some(top));
    assert_eq!(transform_size(top - 1), Some(top));
    assert_eq!(transform_size(top + 1), None);
    assert_eq!(transform_size(usize::MAX), None);
}

#[test]
fn transform_size_matches_std_for_every_small_length() {
    for len in 1usize..5000 {
        assert_eq!(transform_size(len), Some(len.next_power_of_two()));
    }
}

#[test]
fn pad_window_keeps_samples_and_appends_zeros() {
    let padded = pad_window(&[1.5f32, -2.0, 3.25], 0.0f32).unwrap();
    assert_eq!(padded, vec![1.5f32, -2.0, 3.25, 0.0]);
    let padded = pad_window(&[7i16, 8, 9, 10, 11], -1i16).unwrap();
    assert_eq!(padded, vec![7i16, 8, 9, 10, 11, -1, -1, -1]);
}

#[test]
fn pad_window_of_a_power_of_two_adds_nothing() {
    let window: Vec<i32> = (0..16).collect();
    assert_eq!(pad_window(&window, 0).unwrap(), window);
}

#[test]
fn pad_window_of_nothing_is_empty() {
    let empty: [f32; 0] = [];
    assert_eq!(pad_window(&empty, 0.0f32), Some(Vec::new()));
}

#[test]
fn spectrum_has_padded_length() {
    let mut planner = FftPlanner::<f32>::new();
    for len in [0usize, 1, 2, 3, 7, 8, 9, 100, 255, 256, 257] {
        let window = vec![0.25f32; len];
        let expected = if len == 0 { 0 } else { len.next_power_of_two() };
        assert_eq!(magnitudes(&mut planner, &window).len(), expected);
    }
}

#[test]
fn empty_window_gives_empty_spectrum() {
    let mut planner = FftPlanner::<f32>::new();
    assert!(magnitudes(&mut planner, &[]).is_empty());
}

#[test]
fn constant_window_puts_everything_in_bin_zero() {
    let mut planner = FftPlanner::<f32>::new();
    let spectrum = magnitudes(&mut planner, &[1.0f32; 8]);
    assert_eq!(spectrum.len(), 8);
    assert!((spectrum[0] - 8.0).abs() < 1e-4);
    for bin in 1..8 {
        assert!(spectrum[bin].abs() < 1e-4);
    }
}

#[test]
fn sinusoid_peaks_at_its_bin_and_mirror() {
    let mut planner = FftPlanner::<f32>::new();
    let n: usize = 1024;
    let rate = 1024.0f32;
    let frequency = 64.0f32;
    let spectrum = magnitudes(&mut planner, &sine(frequency, rate, n));
    let bin = (frequency * n as f32 / rate).round() as usize;
    assert_eq!(bin, 64);
    assert_eq!(peak_bin(&spectrum[..n / 2]), bin);
    assert_eq!(n / 2 + peak_bin(&spectrum[n / 2..]), n - bin);
    assert!(spectrum[bin] > 10.0 * spectrum[bin - 1]);
    assert!(spectrum[bin] > 10.0 * spectrum[bin + 1]);
    assert!(spectrum[n - bin] > 10.0 * spectrum[n - bin - 1]);
    assert!(spectrum[n - bin] > 10.0 * spectrum[n - bin + 1]);
}

#[test]
fn one_second_of_a_file_shows_its_tone() {
    let mut planner = FftPlanner::<f32>::new();
    let tone = sine(1000.0, 44100.0, 44100);
    let source = AudioSource::FileInput { samples: tone.clone(), sample_rate: 44100 };
    let mut input = AudioInput::new(source, 5_000);
    let first = input.get_samples(5_000);
    assert!(first.is_empty());
    assert!(magnitudes(&mut planner, &first).is_empty());
    let second = input.get_samples(1_000_005_000);
    assert_eq!(second.len(), 44100);
    assert_eq!(second, tone);
    assert_eq!(input.file_position(), 0);
    let spectrum = magnitudes(&mut planner, &second);
    assert_eq!(spectrum.len(), 65536);
    let peak = peak_bin(&spectrum[..32768]);
    let expected = (65536.0f64 * 1000.0 / 44100.0).round() as usize;
    assert_eq!(expected, 1486);
    assert!(peak.abs_diff(expected) <= 1);
}

#[test]
fn empty_file_gives_empty_windows_and_spectra() {
    let mut planner = FftPlanner::<f32>::new();
    let source = AudioSource::FileInput { samples: Vec::<f32>::new(), sample_rate: 44100 };
    let mut input = AudioInput::new(source, 0);
    for tick in 0u64..5 {
        let window = input.get_samples(tick * 1_000_000_000);
        assert!(window.is_empty());
        assert_eq!(input.file_position(), 0);
        assert!(input.is_well_formed());
        assert!(magnitudes(&mut planner, &window).is_empty());
    }
}
