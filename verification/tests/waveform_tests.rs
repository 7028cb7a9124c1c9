use pulse_compression::waveform::ComplexType;
use pulse_compression::waveform::SampleBits;
use pulse_compression::waveform::TaperPoint;
use pulse_compression::waveform::WaveformPlan;
use pulse_compression::waveform::WindowingType;

#[test]
fn new_keeps_fields() {
    let plan = WaveformPlan::new(2000, 200, ComplexType::Complex, WindowingType::Hanning);
    assert_eq!(plan.total_samples, 2000);
    assert_eq!(plan.windowed_edge_samples, 200);
    assert_eq!(plan.ctype, ComplexType::Complex);
    assert_eq!(plan.windowing, WindowingType::Hanning);
}

#[test]
fn no_window_unit_everywhere() {
    // Windowing disabled: unit scale at every index, even inside the edges.
    let plan = WaveformPlan::new(100, 10, ComplexType::Real, WindowingType::NoWindow);
    for i in [0, 5, 9, 10, 50, 91, 99] {
        assert_eq!(plan.taper_point(i), None);
    }
}

#[test]
fn fully_unwindowed_unit_everywhere() {
    // A fraction of 1.0 derives zero edge samples: no index is tapered,
    // the boundary index at the buffer's end included, whatever window
    // formula is selected.
    let plan = WaveformPlan::new(100, 0, ComplexType::Real, WindowingType::Hanning);
    for i in [0, 1, 50, 98, 99, 100] {
        assert_eq!(plan.taper_point(i), None);
    }
}

#[test]
fn hanning_chirp_edges() {
    // The derived shape of the 200 MHz, 10 us, 0.80-unwindowed sweep:
    // 2000 samples with 200 tapered at each end.
    let plan = WaveformPlan::new(2000, 200, ComplexType::Complex, WindowingType::Hanning);
    assert_eq!(
        plan.taper_point(0),
        Some(TaperPoint { kind: WindowingType::Hanning, n: 1, width: 400 })
    );
    assert_eq!(
        plan.taper_point(199),
        Some(TaperPoint { kind: WindowingType::Hanning, n: 200, width: 400 })
    );
    assert_eq!(plan.taper_point(200), None);
    assert_eq!(plan.taper_point(1000), None);
    assert_eq!(plan.taper_point(1799), None);
    assert_eq!(
        plan.taper_point(1800),
        Some(TaperPoint { kind: WindowingType::Hanning, n: 1801, width: 400 })
    );
    assert_eq!(
        plan.taper_point(1999),
        Some(TaperPoint { kind: WindowingType::Hanning, n: 2000, width: 400 })
    );
}

#[test]
fn taper_point_carries_selected_formula() {
    for kind in [WindowingType::Hanning, WindowingType::Hamming, WindowingType::Blackman] {
        let plan = WaveformPlan::new(50, 5, ComplexType::Real, kind);
        let tp = plan.taper_point(0).expect("index 0 lies in the leading edge");
        assert_eq!(tp.kind, kind);
        assert_eq!(tp.n, 1);
        assert_eq!(tp.width, 10);
    }
}

#[test]
fn real_sample_imag_is_exactly_zero() {
    let plan = WaveformPlan::new(100, 0, ComplexType::Real, WindowingType::NoWindow);
    let s = plan.assemble_sample(1.0f32.to_bits(), 0.7f32.to_bits());
    assert_eq!(f32::from_bits(s.re_bits), 1.0f32);
    assert_eq!(s.im_bits, 0u32);
    assert_eq!(f32::from_bits(s.im_bits), 0.0f32);
}

#[test]
fn complex_sample_keeps_imag() {
    let plan = WaveformPlan::new(100, 0, ComplexType::Complex, WindowingType::NoWindow);
    let s = plan.assemble_sample(1.0f32.to_bits(), 0.7f32.to_bits());
    assert_eq!(f32::from_bits(s.re_bits), 1.0f32);
    assert_eq!(f32::from_bits(s.im_bits), 0.7f32);
}

#[test]
fn real_buffer_imag_all_zero() {
    let plan = WaveformPlan::new(4, 1, ComplexType::Real, WindowingType::Hamming);
    let raw: Vec<(u32, u32)> = vec![
        (1.0f32.to_bits(), 0.25f32.to_bits()),
        (0.5f32.to_bits(), (-0.5f32).to_bits()),
        ((-1.0f32).to_bits(), 0.125f32.to_bits()),
        (0.0f32.to_bits(), 1.0f32.to_bits()),
    ];
    let out = plan.assemble(&raw);
    assert_eq!(out.len(), 4);
    for (k, s) in out.iter().enumerate() {
        assert_eq!(s.re_bits, raw[k].0);
        assert_eq!(s.im_bits, 0u32);
        assert_eq!(f32::from_bits(s.im_bits), 0.0f32);
    }
}

#[test]
fn complex_buffer_keeps_both() {
    let plan = WaveformPlan::new(2, 0, ComplexType::Complex, WindowingType::NoWindow);
    let raw: Vec<(u32, u32)> = vec![
        (1.0f32.to_bits(), 0.25f32.to_bits()),
        (0.5f32.to_bits(), (-0.5f32).to_bits()),
    ];
    let out = plan.assemble(&raw);
    assert_eq!(
        out,
        vec![
            SampleBits { re_bits: 1.0f32.to_bits(), im_bits: 0.25f32.to_bits() },
            SampleBits { re_bits: 0.5f32.to_bits(), im_bits: (-0.5f32).to_bits() },
        ]
    );
}

#[test]
fn regeneration_replaces_buffer() {
    // Assembling twice from the same oscillator output yields the same
    // buffer of the same length: generation replaces, it never appends.
    let plan = WaveformPlan::new(3, 0, ComplexType::Complex, WindowingType::NoWindow);
    let raw: Vec<(u32, u32)> = vec![
        (1.0f32.to_bits(), 0.0f32.to_bits()),
        (0.5f32.to_bits(), 0.5f32.to_bits()),
        (0.25f32.to_bits(), 0.75f32.to_bits()),
    ];
    let first = plan.assemble(&raw);
    let second = plan.assemble(&raw);
    assert_eq!(first.len(), raw.len());
    assert_eq!(second.len(), raw.len());
    assert_eq!(first, second);
}

#[test]
fn empty_buffer_assembles_empty() {
    let plan = WaveformPlan::new(0, 0, ComplexType::Real, WindowingType::NoWindow);
    let raw: Vec<(u32, u32)> = Vec::new();
    assert_eq!(plan.assemble(&raw), Vec::<SampleBits>::new());
}
