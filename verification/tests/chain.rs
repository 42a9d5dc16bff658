use equalizer::chain::{Equalizer, SectionInit};
use equalizer::filter::{FilterCoefficients, FilterType, LinearFilter};
use std::f32::consts::PI;

fn bits(x: f32) -> u32 {
    x.to_bits()
}

/// Derive the RBJ-style coefficient words for one section, with the angular
/// frequency taken as `2*pi*f0` (the engine host's convention).
fn coeffs(filter_type: FilterType, f0: f32, q: f32) -> FilterCoefficients {
    let w0 = 2.0 * PI * f0;
    let cosw0 = w0.cos();
    let alpha = w0.sin() / (2.0 / q);
    let (b0, b1, b2) = match filter_type {
        FilterType::LowPass => ((1.0 - cosw0) / 2.0, 1.0 - cosw0, (1.0 - cosw0) / 2.0),
        FilterType::HighPass => ((1.0 + cosw0) / 2.0, -(1.0 + cosw0), (1.0 + cosw0) / 2.0),
        FilterType::BandPass => (q * alpha, 0.0, -(q * alpha)),
    };
    FilterCoefficients {
        b0: bits(b0),
        b1: bits(b1),
        b2: bits(b2),
        a0: bits(1.0 + alpha),
        a1: bits(-2.0 * cosw0),
        a2: bits(1.0 - alpha),
    }
}

/// The per-position inputs a host hands to `Equalizer::new`: center
/// frequencies evenly spaced as `fs * i / (bands + 2)` for `i = 1..=bands+2`,
/// unit q, and the coefficients derived for the type the position dictates.
fn build_inits(bands: usize, fs: f32) -> Vec<SectionInit> {
    let n = bands + 2;
    (1..=n)
        .map(|i| {
            let f0 = fs * (i as f32 / n as f32);
            let filter_type = if i == 1 {
                FilterType::LowPass
            } else if i == n {
                FilterType::HighPass
            } else {
                FilterType::BandPass
            };
            SectionInit { f0: bits(f0), gain_or_q: bits(1.0), coeffs: coeffs(filter_type, f0, 1.0) }
        })
        .collect()
}

#[test]
fn zero_bands_builds_exactly_the_two_bookends() {
    let inits = build_inits(0, 48000.0);
    let eq = Equalizer::new(0, bits(48000.0), &inits);
    assert_eq!(eq.len(), 2);
    assert_eq!(eq.filters[0].ftype(), FilterType::LowPass);
    assert_eq!(eq.filters[1].ftype(), FilterType::HighPass);
}

#[test]
fn three_bands_builds_bookends_around_bandpass_sections() {
    let fs = 48000.0;
    let inits = build_inits(3, fs);
    let eq = Equalizer::new(3, bits(fs), &inits);
    assert_eq!(eq.len(), 5);
    let types: Vec<FilterType> = eq.filters.iter().map(|f| f.ftype()).collect();
    assert_eq!(
        types,
        vec![
            FilterType::LowPass,
            FilterType::BandPass,
            FilterType::BandPass,
            FilterType::BandPass,
            FilterType::HighPass,
        ]
    );
    for (i, sec) in eq.filters.iter().enumerate() {
        assert!(sec.enabled);
        assert_eq!(sec.center_freq(), bits(fs * ((i + 1) as f32 / 5.0)));
        assert_eq!(sec.gain_or_q(), bits(1.0));
        assert_eq!(sec.fs, bits(fs));
    }
}

#[test]
fn add_filter_appends_one_section() {
    let mut eq = Equalizer::new(0, bits(48000.0), &build_inits(0, 48000.0));
    let c = coeffs(FilterType::BandPass, 1000.0, 2.0);
    eq.add_filter(bits(48000.0), bits(1000.0), bits(2.0), FilterType::BandPass, c);
    assert_eq!(eq.len(), 3);
    let added = &eq.filters[2];
    assert_eq!(added.ftype(), FilterType::BandPass);
    assert_eq!(added.center_freq(), bits(1000.0));
    assert_eq!(added.gain_or_q(), bits(2.0));
    assert_eq!(added.coeffs, c);
    assert!(added.enabled);
}

#[test]
fn chain_with_one_bypassed_section_returns_input_unchanged() {
    let c = coeffs(FilterType::LowPass, 400.0, 5.0);
    let mut eq = Equalizer { filters: Vec::new() };
    eq.add_filter(bits(48000.0), bits(400.0), bits(5.0), FilterType::LowPass, c);

    // Give the section some prior history, then bypass it.
    let yn = bits(0.123);
    eq.filter(bits(1.0), &vec![yn]);
    eq.filters[0].set_enabled(false);
    let before = eq.filters[0];

    // Whatever recursion word the host supplies, the input passes through
    // unchanged, sample for sample, and no state moves.
    for x in [0.5f32, -0.25, 0.0, 1.0e-3, 42.0] {
        let garbage = bits(99.0);
        let out = eq.filter(bits(x), &vec![garbage]);
        assert_eq!(out, bits(x));
    }
    assert_eq!(eq.filters[0], before);
}

#[test]
fn chain_feeds_each_section_the_previous_output() {
    let c = coeffs(FilterType::LowPass, 400.0, 1.0);
    let mut eq = Equalizer { filters: Vec::new() };
    eq.add_filter(bits(48000.0), bits(400.0), bits(1.0), FilterType::LowPass, c);
    eq.add_filter(bits(48000.0), bits(800.0), bits(1.0), FilterType::BandPass, c);

    let (xn, y0, y1) = (bits(1.0), bits(0.25), bits(-0.5));
    let out = eq.filter(xn, &vec![y0, y1]);
    assert_eq!(out, y1);
    // The first section saw the chain input; the second saw the first's
    // output.
    assert_eq!(eq.filters[0].hist.x0, xn);
    assert_eq!(eq.filters[0].hist.y0, y0);
    assert_eq!(eq.filters[1].hist.x0, y0);
    assert_eq!(eq.filters[1].hist.y0, y1);
}

#[test]
fn empty_chain_is_the_identity() {
    let mut eq = Equalizer { filters: Vec::new() };
    let out = eq.filter(bits(0.75), &Vec::new());
    assert_eq!(out, bits(0.75));
}

#[test]
fn bypassed_sections_pass_the_sample_down_the_chain() {
    let fs = 48000.0;
    let mut eq = Equalizer::new(1, bits(fs), &build_inits(1, fs));
    for sec in eq.filters.iter_mut() {
        sec.set_enabled(false);
    }
    let before: Vec<LinearFilter> = eq.filters.clone();
    let out = eq.filter(bits(0.5), &vec![bits(1.0), bits(2.0), bits(3.0)]);
    assert_eq!(out, bits(0.5));
    assert_eq!(eq.filters, before);
}
