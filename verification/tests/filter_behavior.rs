use biquad_filter::config::{
    ui_properties, FilterError, FilterParams, FilterType, PropertyControl, Settings,
    CUTOFF_FREQ_MAX_BITS, CUTOFF_FREQ_MIN_BITS, DEFAULT_CUTOFF_FREQ_BITS, DEFAULT_Q_BITS,
    F32_POSITIVE_INFINITY_BITS, Q_MAX_BITS, Q_MIN_BITS,
};
use biquad_filter::engine::{BiquadFilter, ChannelHistory, Coefficients, SILENCE_BITS};

/// Reference low-pass coefficient derivation (audio-EQ cookbook form).
fn calc_low_pass(sample_rate: u32, freq: f32, q: f32) -> Coefficients {
    let w0 = 2.0 * std::f32::consts::PI * freq / sample_rate as f32;
    let alpha = w0.sin() / (2.0 * q);
    let b1 = 1.0 - w0.cos();
    let b0 = b1 / 2.0;
    let b2 = b0;
    let a0 = 1.0 + alpha;
    let a1 = -2.0 * w0.cos();
    let a2 = 1.0 - alpha;
    Coefficients {
        b0: (b0 / a0).to_bits(),
        b1: (b1 / a0).to_bits(),
        b2: (b2 / a0).to_bits(),
        a1: (a1 / a0).to_bits(),
        a2: (a2 / a0).to_bits(),
    }
}

/// Reference high-pass coefficient derivation (audio-EQ cookbook form).
fn calc_high_pass(sample_rate: u32, freq: f32, q: f32) -> Coefficients {
    let w0 = 2.0 * std::f32::consts::PI * freq / sample_rate as f32;
    let cos_w0 = w0.cos();
    let alpha = w0.sin() / (2.0 * q);
    let b0 = (1.0 + cos_w0) / 2.0;
    let b1 = -1.0 - cos_w0;
    let b2 = b0;
    let a0 = 1.0 + alpha;
    let a1 = -2.0 * cos_w0;
    let a2 = 1.0 - alpha;
    Coefficients {
        b0: (b0 / a0).to_bits(),
        b1: (b1 / a0).to_bits(),
        b2: (b2 / a0).to_bits(),
        a1: (a1 / a0).to_bits(),
        a2: (a2 / a0).to_bits(),
    }
}

fn calc_coeffs(p: &FilterParams, sample_rate: u32) -> Coefficients {
    let freq = f32::from_bits(p.cutoff_freq);
    let q = f32::from_bits(p.q);
    match p.filter_type {
        FilterType::LowPass => calc_low_pass(sample_rate, freq, q),
        FilterType::HighPass => calc_high_pass(sample_rate, freq, q),
    }
}

/// The single recursion step the engine is driven with.
fn step(c: Coefficients, x: u32, h: ChannelHistory) -> u32 {
    let y = f32::from_bits(c.b0) * f32::from_bits(x)
        + f32::from_bits(c.b1) * f32::from_bits(h.x_n1)
        + f32::from_bits(c.b2) * f32::from_bits(h.x_n2)
        - f32::from_bits(c.a1) * f32::from_bits(h.y_n1)
        - f32::from_bits(c.a2) * f32::from_bits(h.y_n2);
    y.to_bits()
}

fn make_filter(sample_rate: u32, channels: usize, p: FilterParams) -> BiquadFilter {
    let coeffs = calc_coeffs(&p, sample_rate);
    BiquadFilter::new(sample_rate, channels, p, coeffs)
}

fn default_low_pass(sample_rate: u32, channels: usize) -> BiquadFilter {
    let settings = Settings { filter_type: None, cutoff_freq: None, q: None };
    let p = FilterParams::from_settings(&settings).unwrap();
    make_filter(sample_rate, channels, p)
}

fn run_buffer(filter: &mut BiquadFilter, channel: usize, samples: &[f32]) -> Vec<f32> {
    let mut buffer: Vec<u32> = samples.iter().map(|s| s.to_bits()).collect();
    filter.process_channel(channel, &mut buffer, step).unwrap();
    buffer.into_iter().map(f32::from_bits).collect()
}

#[test]
fn convert_recognizes_both_identifiers() {
    assert_eq!(
        FilterType::convert(&"low_pass".to_string()),
        Ok(FilterType::LowPass)
    );
    assert_eq!(
        FilterType::convert(&"high_pass".to_string()),
        Ok(FilterType::HighPass)
    );
}

#[test]
fn convert_rejects_unknown_identifier() {
    assert_eq!(
        FilterType::convert(&"band_pass".to_string()),
        Err(FilterError::InvalidConfiguration)
    );
    assert_eq!(
        FilterType::convert(&"".to_string()),
        Err(FilterError::InvalidConfiguration)
    );
    assert_eq!(
        FilterType::convert(&"Low pass".to_string()),
        Err(FilterError::InvalidConfiguration)
    );
}

#[test]
fn absent_keys_take_documented_defaults() {
    let settings = Settings { filter_type: None, cutoff_freq: None, q: None };
    let p = FilterParams::from_settings(&settings).unwrap();
    assert_eq!(p.filter_type, FilterType::LowPass);
    assert_eq!(f32::from_bits(p.cutoff_freq), 200.0);
    assert_eq!(f32::from_bits(p.q), 0.7);
}

#[test]
fn bit_pattern_constants_encode_documented_values() {
    assert_eq!(DEFAULT_CUTOFF_FREQ_BITS, 200.0f32.to_bits());
    assert_eq!(DEFAULT_Q_BITS, 0.7f32.to_bits());
    assert_eq!(F32_POSITIVE_INFINITY_BITS, f32::INFINITY.to_bits());
    assert_eq!(CUTOFF_FREQ_MIN_BITS, 1.0f32.to_bits());
    assert_eq!(CUTOFF_FREQ_MAX_BITS, 10000.0f32.to_bits());
    assert_eq!(Q_MIN_BITS, 0.01f32.to_bits());
    assert_eq!(Q_MAX_BITS, 1.0f32.to_bits());
    assert_eq!(SILENCE_BITS, 0.0f32.to_bits());
}

#[test]
fn invalid_q_is_rejected_at_creation() {
    for bad in [0.0f32, -0.5, f32::NAN, f32::INFINITY, -f32::INFINITY] {
        let settings = Settings {
            filter_type: None,
            cutoff_freq: None,
            q: Some(bad.to_bits()),
        };
        assert_eq!(
            FilterParams::from_settings(&settings),
            Err(FilterError::InvalidConfiguration),
            "q = {bad} must be rejected"
        );
    }
}

#[test]
fn present_keys_override_and_absent_keys_are_kept() {
    let filter = default_low_pass(48000, 2);
    let settings = Settings {
        filter_type: None,
        cutoff_freq: Some(1500.0f32.to_bits()),
        q: None,
    };
    let p = filter.update_params(&settings).unwrap();
    assert_eq!(p.filter_type, FilterType::LowPass);
    assert_eq!(f32::from_bits(p.cutoff_freq), 1500.0);
    assert_eq!(f32::from_bits(p.q), 0.7);

    let settings = Settings {
        filter_type: Some("high_pass".to_string()),
        cutoff_freq: None,
        q: Some(0.5f32.to_bits()),
    };
    let p2 = filter.update_params(&settings).unwrap();
    assert_eq!(p2.filter_type, FilterType::HighPass);
    assert_eq!(f32::from_bits(p2.cutoff_freq), 200.0);
    assert_eq!(f32::from_bits(p2.q), 0.5);
}

#[test]
fn unknown_filter_type_update_keeps_previous_state() {
    let mut filter = default_low_pass(48000, 2);
    let _ = run_buffer(&mut filter, 0, &[1.0, 0.5, -0.25]);
    let coeffs_before = filter.coeffs;
    let params_before = filter.params;
    let history_before = filter.history.clone();

    let settings = Settings {
        filter_type: Some("band_pass".to_string()),
        cutoff_freq: Some(500.0f32.to_bits()),
        q: None,
    };
    assert_eq!(
        filter.update_params(&settings),
        Err(FilterError::InvalidConfiguration)
    );
    assert_eq!(filter.coeffs, coeffs_before);
    assert_eq!(filter.params, params_before);
    assert_eq!(filter.history, history_before);
}

#[test]
fn update_replaces_coefficients_but_not_history() {
    let mut filter = default_low_pass(48000, 2);
    let _ = run_buffer(&mut filter, 0, &[1.0, -1.0, 0.75, 0.1]);
    let history_before = filter.history.clone();
    let old_coeffs = filter.coeffs;

    let settings = Settings {
        filter_type: None,
        cutoff_freq: Some(2000.0f32.to_bits()),
        q: None,
    };
    let p = filter.update_params(&settings).unwrap();
    let new_coeffs = calc_coeffs(&p, filter.sample_rate);
    filter.commit_update(p, new_coeffs);

    assert_eq!(filter.history, history_before, "history must be bit-identical");
    assert_eq!(filter.coeffs, new_coeffs);
    assert_ne!(filter.coeffs, old_coeffs);

    // The very next sample is filtered with the new coefficients.
    let h = filter.history_of(0).unwrap();
    let x = 0.3f32.to_bits();
    let expected = step(new_coeffs, x, h);
    let out = run_buffer(&mut filter, 0, &[0.3]);
    assert_eq!(out[0].to_bits(), expected);
}

#[test]
fn round_trip_matches_reference_recursion() {
    let mut filter = default_low_pass(48000, 1);
    let input = [1.0f32, 0.0, 0.0, 0.0, 0.0];
    let out = run_buffer(&mut filter, 0, &input);

    // Independent sample-by-sample recursion over the same coefficients.
    let c = calc_low_pass(48000, 200.0, 0.7);
    let (b0, b1, b2) = (
        f32::from_bits(c.b0),
        f32::from_bits(c.b1),
        f32::from_bits(c.b2),
    );
    let (a1, a2) = (f32::from_bits(c.a1), f32::from_bits(c.a2));
    let (mut x1, mut x2, mut y1, mut y2) = (0.0f32, 0.0f32, 0.0f32, 0.0f32);
    let mut expected = Vec::new();
    for &x in input.iter() {
        let y = b0 * x + b1 * x1 + b2 * x2 - a1 * y1 - a2 * y2;
        expected.push(y);
        y2 = y1;
        x2 = x1;
        y1 = y;
        x1 = x;
    }
    for (o, e) in out.iter().zip(expected.iter()) {
        assert_eq!(o.to_bits(), e.to_bits());
    }

    // First samples also match the closed-form expansion of the recursion.
    assert!((out[0] - b0).abs() < 1e-7);
    assert!((out[1] - (b1 - a1 * b0)).abs() < 1e-7);
    assert!((out[2] - (b2 - a1 * (b1 - a1 * b0) - a2 * b0)).abs() < 1e-7);
}

#[test]
fn low_pass_coefficients_are_finite() {
    for &(sr, f, q) in [
        (48000u32, 200.0f32, 0.7f32),
        (44100, 20.0, 0.01),
        (48000, 23999.0, 1.0),
        (8000, 1.0, 0.05),
    ]
    .iter()
    {
        for c in [calc_low_pass(sr, f, q), calc_high_pass(sr, f, q)] {
            for bits in [c.b0, c.b1, c.b2, c.a1, c.a2] {
                let v = f32::from_bits(bits);
                assert!(v.is_finite(), "coefficient {v} for ({sr}, {f}, {q})");
            }
        }
    }
}

#[test]
fn zero_input_yields_zero_output_and_resting_history() {
    let mut filter = default_low_pass(48000, 1);
    let out = run_buffer(&mut filter, 0, &[0.0; 64]);
    assert!(out.iter().all(|&y| y == 0.0));
    let h = filter.history_of(0).unwrap();
    assert_eq!(h, ChannelHistory::at_rest());
}

#[test]
fn dc_input_through_low_pass_converges_to_input_level() {
    let mut filter = default_low_pass(48000, 1);
    let out = run_buffer(&mut filter, 0, &[0.5f32; 4000]);
    let settled = out[out.len() - 1];
    assert!(
        (settled - 0.5).abs() < 1e-3,
        "low-pass DC gain should be 1, settled at {settled}"
    );
}

#[test]
fn dc_input_through_high_pass_converges_to_zero() {
    let settings = Settings {
        filter_type: Some("high_pass".to_string()),
        cutoff_freq: None,
        q: None,
    };
    let p = FilterParams::from_settings(&settings).unwrap();
    let mut filter = make_filter(48000, 1, p);
    let out = run_buffer(&mut filter, 0, &[0.5f32; 4000]);
    let settled = out[out.len() - 1];
    assert!(
        settled.abs() < 1e-3,
        "high-pass DC gain should be 0, settled at {settled}"
    );
}

#[test]
fn channels_are_filtered_independently() {
    let mut filter = default_low_pass(48000, 2);
    let mut buffers: Vec<Vec<u32>> = vec![
        [1.0f32, -0.5, 0.25, 0.8].iter().map(|s| s.to_bits()).collect(),
        vec![0.0f32.to_bits(); 4],
    ];
    filter.process_tick(&mut buffers, step).unwrap();
    assert!(buffers[1].iter().all(|&y| f32::from_bits(y) == 0.0));
    assert_eq!(filter.history_of(1).unwrap(), ChannelHistory::at_rest());
    assert_ne!(filter.history_of(0).unwrap(), ChannelHistory::at_rest());
    assert!(buffers[0].iter().any(|&y| f32::from_bits(y) != 0.0));
}

#[test]
fn missing_channel_is_skipped_and_reported() {
    let mut filter = default_low_pass(48000, 2);
    // Only one buffer arrives for a two-channel instance.
    let mut buffers: Vec<Vec<u32>> = vec![vec![1.0f32.to_bits(); 3]];
    assert_eq!(
        filter.process_tick(&mut buffers, step),
        Err(FilterError::ChannelUnavailable)
    );
    // The delivered channel was still processed...
    assert_ne!(filter.history_of(0).unwrap(), ChannelHistory::at_rest());
    // ...and the absent one stands untouched.
    assert_eq!(filter.history_of(1).unwrap(), ChannelHistory::at_rest());
}

#[test]
fn naming_an_unavailable_channel_is_an_error() {
    let mut filter = default_low_pass(48000, 2);
    assert_eq!(
        filter.history_of(2),
        Err(FilterError::ChannelUnavailable)
    );
    assert_eq!(
        filter.commit_sample(2, 0, 0),
        Err(FilterError::ChannelUnavailable)
    );
    let mut buffer = vec![1.0f32.to_bits()];
    assert_eq!(
        filter.process_channel(2, &mut buffer, step),
        Err(FilterError::ChannelUnavailable)
    );
    assert_eq!(buffer, vec![1.0f32.to_bits()]);
}

#[test]
fn creation_zeroes_every_channel_history() {
    let filter = default_low_pass(44100, 6);
    assert_eq!(filter.history.len(), 6);
    for ch in 0..6 {
        assert_eq!(filter.history_of(ch).unwrap(), ChannelHistory::at_rest());
    }
    assert_eq!(filter.sample_rate, 44100);
    assert_eq!(filter.channels, 6);
}

#[test]
fn history_records_raw_input_not_output() {
    let mut filter = default_low_pass(48000, 1);
    filter.commit_sample(0, 11, 22).unwrap();
    filter.commit_sample(0, 33, 44).unwrap();
    let h = filter.history_of(0).unwrap();
    assert_eq!(h.x_n1, 33);
    assert_eq!(h.x_n2, 11);
    assert_eq!(h.y_n1, 44);
    assert_eq!(h.y_n2, 22);
}

#[test]
fn ui_description_matches_documented_controls() {
    let props = ui_properties();
    assert_eq!(props.len(), 3);
    assert_eq!(props[0].key, "filter_type");
    assert_eq!(props[0].label, "Filter type");
    match &props[0].control {
        PropertyControl::Choice(opts) => {
            assert_eq!(opts.len(), 2);
            assert_eq!(opts[0], ("Low pass".to_string(), "low_pass".to_string()));
            assert_eq!(opts[1], ("High pass".to_string(), "high_pass".to_string()));
            // Every identifier the UI can send back is accepted by the parser.
            for (_, id) in opts {
                assert!(FilterType::convert(id).is_ok());
            }
        }
        _ => panic!("filter_type must be a choice control"),
    }
    assert_eq!(props[1].key, "cutoff_freq");
    assert_eq!(props[1].label, "Cutoff frequency");
    match props[1].control {
        PropertyControl::Slider(lo, hi) => {
            assert_eq!(f32::from_bits(lo), 1.0);
            assert_eq!(f32::from_bits(hi), 10000.0);
        }
        _ => panic!("cutoff_freq must be a slider"),
    }
    assert_eq!(props[2].key, "q");
    assert_eq!(props[2].label, "Q");
    match props[2].control {
        PropertyControl::Slider(lo, hi) => {
            assert_eq!(f32::from_bits(lo), 0.01);
            assert_eq!(f32::from_bits(hi), 1.0);
        }
        _ => panic!("q must be a slider"),
    }
}

#[test]
fn processing_preserves_buffer_length_and_overwrites_in_place() {
    let mut filter = default_low_pass(48000, 1);
    let input = [0.9f32, -0.9, 0.3];
    let out = run_buffer(&mut filter, 0, &input);
    assert_eq!(out.len(), input.len());
    assert_ne!(out[0].to_bits(), input[0].to_bits());
}
