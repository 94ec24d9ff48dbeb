use rubato::{Resampler, SincFixedIn, SincInterpolationParameters, SincInterpolationType,
    WindowFunction};
use space_lt::resampler::{create_resampler, ResampleKernel, RESAMPLE_CHUNK};

/// A kernel backed by the band-limited sinc interpolator, fed one frame
/// of mono samples at a time, as the library's carry logic hands them out.
struct SincKernel {
    inner: SincFixedIn<f64>,
}

impl SincKernel {
    fn new(source_rate: u32, target_rate: u32) -> SincKernel {
        let params = SincInterpolationParameters {
            sinc_len: 128,
            f_cutoff: 0.95,
            interpolation: SincInterpolationType::Quadratic,
            oversampling_factor: 256,
            window: WindowFunction::Blackman2,
        };
        let ratio = target_rate as f64 / source_rate as f64;
        let inner =
            SincFixedIn::<f64>::new(ratio, 1.1, params, RESAMPLE_CHUNK, 1).expect("sinc kernel");
        SincKernel { inner }
    }
}

impl ResampleKernel for SincKernel {
    fn process_chunk(&mut self, chunk: &Vec<i16>) -> Vec<i16> {
        let mono: Vec<f64> = chunk.iter().map(|&s| s as f64 / 32768.0).collect();
        let frames = vec![mono];
        match self.inner.process(&frames, None) {
            Ok(output) => output[0]
                .iter()
                .map(|&s| (s.clamp(-1.0, 1.0) * 32767.0) as i16)
                .collect(),
            Err(_) => Vec::new(),
        }
    }

    fn downmix(&mut self, frames: &Vec<i16>, channels: u16) -> Vec<i16> {
        let ch = channels as usize;
        frames
            .chunks(ch)
            .map(|frame| {
                let sum: f64 = frame.iter().map(|&s| s as f64).sum();
                (sum / ch as f64) as i16
            })
            .collect()
    }
}

/// A 440 Hz sine at the given rate.
fn sine_wave(sample_rate: u32, duration_secs: f64) -> Vec<i16> {
    let num_samples = (sample_rate as f64 * duration_secs) as usize;
    (0..num_samples)
        .map(|i| {
            let t = i as f64 / sample_rate as f64;
            (f64::sin(2.0 * std::f64::consts::PI * 440.0 * t) * 20000.0) as i16
        })
        .collect()
}

#[test]
fn resampler_noop_mono() {
    let mut resample = create_resampler(16000, 16000, 1, SincKernel::new(16000, 16000));
    let input: Vec<i16> = (0..1600).collect();
    let output = resample.process(&input);
    assert_eq!(output, input);
}

#[test]
fn resampler_noop_flush_is_empty() {
    let mut resample = create_resampler(16000, 16000, 1, SincKernel::new(16000, 16000));
    let input: Vec<i16> = (0..100).collect();
    let output = resample.process(&input);
    assert_eq!(output, input);
    // a flush on the passthrough converter returns nothing: no carry
    let flush = resample.process(&Vec::new());
    assert!(flush.is_empty() || flush == Vec::<i16>::new());
}

#[test]
fn resampler_48k_to_16k() {
    let mut resample = create_resampler(48000, 16000, 1, SincKernel::new(48000, 16000));
    // one hundred milliseconds at 48 kHz
    let input: Vec<i16> = vec![0; 4800];
    let output = resample.process(&input);
    let flush = resample.process(&Vec::new());
    let total = output.len() + flush.len();
    let expected = 1600;
    let margin = 200;
    assert!(
        (total as i32 - expected as i32).unsigned_abs() < margin,
        "Expected ~{expected} samples, got {total}",
    );
}

#[test]
fn resampler_carry_over_no_discontinuity() {
    let mut resample = create_resampler(16000, 48000, 1, SincKernel::new(16000, 48000));
    let signal = sine_wave(16000, 2.0);
    let chunk_size = 4000;

    let mut chunked_output: Vec<i16> = Vec::new();
    for chunk in signal.chunks(chunk_size) {
        chunked_output.extend_from_slice(&resample.process(&chunk.to_vec()));
    }
    chunked_output.extend_from_slice(&resample.process(&Vec::new()));

    let mut max_delta: i32 = 0;
    for w in chunked_output.windows(2) {
        let delta = (w[1] as i32 - w[0] as i32).abs();
        max_delta = max_delta.max(delta);
    }
    assert!(max_delta < 3000, "Discontinuity detected: max sample delta = {max_delta} (threshold 3000)");
}

#[test]
fn resampler_flush_produces_remaining_samples() {
    let mut resample = create_resampler(16000, 48000, 1, SincKernel::new(16000, 48000));
    // five hundred samples: fewer than one frame, all carried over
    let input = sine_wave(16000, 0.03125);
    let output = resample.process(&input);
    let flush = resample.process(&Vec::new());
    let total = output.len() + flush.len();
    assert!(total > 0, "Flush should produce output for carried-over samples");
    let expected = 1500;
    assert!(
        (total as i32 - expected as i32).unsigned_abs() < 100,
        "Expected ~{expected} samples, got {total}"
    );
}

#[test]
fn resampler_carry_over_matches_single_pass() {
    let mut chunked = create_resampler(16000, 48000, 1, SincKernel::new(16000, 48000));
    let signal = sine_wave(16000, 0.5);
    let mut chunked_out: Vec<i16> = Vec::new();
    chunked_out.extend_from_slice(&chunked.process(&signal[..4000].to_vec()));
    chunked_out.extend_from_slice(&chunked.process(&signal[4000..].to_vec()));
    chunked_out.extend_from_slice(&chunked.process(&Vec::new()));

    let mut single = create_resampler(16000, 48000, 1, SincKernel::new(16000, 48000));
    let mut single_out: Vec<i16> = Vec::new();
    single_out.extend_from_slice(&single.process(&signal));
    single_out.extend_from_slice(&single.process(&Vec::new()));

    let margin = 1024;
    let diff = (chunked_out.len() as i32 - single_out.len() as i32).unsigned_abs();
    assert!(
        diff < margin as u32,
        "Chunked ({}) vs single-pass ({}) differ by {diff} (max {margin})",
        chunked_out.len(),
        single_out.len()
    );
}
