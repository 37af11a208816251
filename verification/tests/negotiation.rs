use wavrec::config::{
    candidate_buffer_sizes, candidate_sample_rates, choose_candidate, BufferCapability,
    StreamConfiguration, SupportedRange,
};

fn range(min_rate: u32, max_rate: u32, buf: BufferCapability) -> SupportedRange {
    SupportedRange { min_sample_rate: min_rate, max_sample_rate: max_rate, buffer_sizes: buf }
}

#[test]
fn sample_rates_sorted_and_deduplicated() {
    let ranges = vec![
        range(44100, 48000, BufferCapability::Unknown),
        range(8000, 44100, BufferCapability::Unknown),
        range(8000, 96000, BufferCapability::Unknown),
    ];
    let rates = candidate_sample_rates(&ranges);
    assert_eq!(rates, vec![8000, 44100, 48000, 96000]);
    for w in rates.windows(2) {
        assert!(w[0] < w[1]);
    }
}

#[test]
fn sample_rates_empty_catalog() {
    let ranges: Vec<SupportedRange> = Vec::new();
    assert_eq!(candidate_sample_rates(&ranges), Vec::<u32>::new());
}

#[test]
fn sample_rates_single_point_range() {
    let ranges = vec![range(22050, 22050, BufferCapability::Unknown)];
    assert_eq!(candidate_sample_rates(&ranges), vec![22050]);
}

#[test]
fn buffer_sizes_stride_from_minimum() {
    let ranges = vec![range(44100, 44100, BufferCapability::Range { min: 200, max: 800 })];
    let sizes = candidate_buffer_sizes(&ranges);
    assert_eq!(sizes, vec![200, 456, 712]);
    for w in sizes.windows(2) {
        assert!(w[0] < w[1]);
    }
}

#[test]
fn buffer_sizes_exact_multiple_range() {
    let ranges = vec![range(44100, 44100, BufferCapability::Range { min: 256, max: 1024 })];
    assert_eq!(candidate_buffer_sizes(&ranges), vec![256, 512, 768, 1024]);
}

#[test]
fn buffer_sizes_unknown_contributes_nothing() {
    let ranges = vec![
        range(44100, 44100, BufferCapability::Unknown),
        range(48000, 48000, BufferCapability::Range { min: 512, max: 512 }),
    ];
    assert_eq!(candidate_buffer_sizes(&ranges), vec![512]);
}

#[test]
fn buffer_sizes_empty_when_min_exceeds_max() {
    let ranges = vec![range(44100, 44100, BufferCapability::Range { min: 900, max: 800 })];
    assert_eq!(candidate_buffer_sizes(&ranges), Vec::<u32>::new());
}

#[test]
fn buffer_sizes_overlapping_ranges_deduplicated() {
    let ranges = vec![
        range(8000, 8000, BufferCapability::Range { min: 256, max: 768 }),
        range(8000, 8000, BufferCapability::Range { min: 256, max: 1024 }),
    ];
    assert_eq!(candidate_buffer_sizes(&ranges), vec![256, 512, 768, 1024]);
}

#[test]
fn selected_candidates_become_configuration() {
    let rates = vec![44100];
    let sizes = vec![256, 512, 768];
    let rate = choose_candidate(&rates, 0);
    let size = choose_candidate(&sizes, 1);
    assert_eq!(rate, 44100);
    assert_eq!(size, 512);
    let config = StreamConfiguration::new(rate, size);
    assert_eq!(config.channels, 1);
    assert_eq!(config.sample_rate, 44100);
    assert_eq!(config.buffer_size, 512);
}
