use w4113::stream::{
    describe_stream, describe_streams, filter_config, get_input_config, get_output_config, parse_stream,
    stream_text_accepted, BufferSize, ConfigProperty, Preference, PreferenceAlt, StreamConfig,
    StreamConfigRange, StreamRequest, SupportedBufferSize,
};

fn range(channels: u16, min: u32, max: u32, buf: Option<(u32, u32)>) -> StreamConfigRange {
    StreamConfigRange {
        channels,
        min_sample_rate: min,
        max_sample_rate: max,
        buffer_size: match buf {
            Some((lo, hi)) => SupportedBufferSize::Range { min: lo, max: hi },
            None => SupportedBufferSize::Unknown,
        },
    }
}

fn sample() -> Vec<StreamConfigRange> {
    vec![
        range(1, 8000, 48000, Some((64, 1024))),
        range(2, 44100, 44100, Some((32, 4096))),
        range(2, 8000, 96000, None),
        range(6, 48000, 48000, Some((256, 512))),
    ]
}

#[test]
fn max_keeps_every_config_reaching_the_greatest_value() {
    let r = filter_config(sample(), ConfigProperty::Channels(Preference::Max), false);
    assert_eq!(r, vec![sample()[3]]);
    let r = filter_config(sample(), ConfigProperty::SampleRate(Preference::Max), false);
    assert_eq!(r, vec![sample()[2]]);
}

#[test]
fn min_keeps_every_config_reaching_the_smallest_value() {
    let r = filter_config(sample(), ConfigProperty::SampleRate(Preference::Min), false);
    assert_eq!(r, vec![sample()[0], sample()[2]]);
    let r = filter_config(sample(), ConfigProperty::BufferSize(Preference::Min), false);
    assert_eq!(r, vec![sample()[2]]);
}

#[test]
fn exact_keeps_the_configs_holding_the_value_in_order() {
    let r = filter_config(sample(), ConfigProperty::Channels(Preference::Exact(2, PreferenceAlt::Higher)), false);
    assert_eq!(r, vec![sample()[1], sample()[2]]);
    let r = filter_config(sample(), ConfigProperty::SampleRate(Preference::Exact(44100, PreferenceAlt::Lower)), false);
    assert_eq!(r, vec![sample()[0], sample()[1], sample()[2]]);
}

#[test]
fn an_unavailable_exact_value_falls_back_to_the_closest_higher() {
    let r = filter_config(sample(), ConfigProperty::Channels(Preference::Exact(3, PreferenceAlt::Higher)), false);
    assert_eq!(r, vec![sample()[3]]);
    let r = filter_config(sample(), ConfigProperty::BufferSize(Preference::Exact(5000, PreferenceAlt::Higher)), false);
    assert!(r.is_empty());
}

#[test]
fn an_unavailable_exact_value_falls_back_to_the_closest_lower() {
    let r = filter_config(sample(), ConfigProperty::Channels(Preference::Exact(5, PreferenceAlt::Lower)), false);
    assert_eq!(r, vec![sample()[1], sample()[2]]);
    let r = filter_config(sample(), ConfigProperty::SampleRate(Preference::Exact(4000, PreferenceAlt::Lower)), false);
    assert!(r.is_empty());
}

#[test]
fn filtering_nothing_gives_nothing() {
    for p in [Preference::Min, Preference::Max, Preference::Exact(2, PreferenceAlt::Higher)] {
        assert!(filter_config(Vec::new(), ConfigProperty::Channels(p), false).is_empty());
    }
}

#[test]
fn output_config_takes_the_first_survivor_and_clamps_the_rate() {
    let default = Some(StreamConfig { channels: 2, sample_rate: 48000, buffer_size: BufferSize::Default });
    let r = get_output_config(
        Some(sample()),
        default,
        Preference::Exact(2, PreferenceAlt::Higher),
        Preference::Exact(192000, PreferenceAlt::Higher),
        Preference::Exact(512, PreferenceAlt::Higher),
    );
    // No configuration reaches 192000 and none starts above it, so the default is used.
    assert_eq!(r, default);
    let r = get_output_config(
        Some(sample()),
        default,
        Preference::Exact(2, PreferenceAlt::Higher),
        Preference::Exact(50000, PreferenceAlt::Higher),
        Preference::Max,
    );
    assert_eq!(r, Some(StreamConfig { channels: 2, sample_rate: 50000, buffer_size: BufferSize::Default }));
    let r = get_input_config(
        Some(sample()),
        None,
        Preference::Min,
        Preference::Max,
        Preference::Exact(128, PreferenceAlt::Lower),
    );
    assert_eq!(r, Some(StreamConfig { channels: 1, sample_rate: 48000, buffer_size: BufferSize::Fixed(128) }));
}

#[test]
fn output_config_clamps_an_exact_rate_into_the_range() {
    let configs = vec![range(2, 22050, 44100, Some((64, 64)))];
    let below = get_output_config(Some(configs.clone()), None, Preference::Max, Preference::Exact(8000, PreferenceAlt::Lower), Preference::Min);
    assert_eq!(below, None);
    let up = get_output_config(Some(configs.clone()), None, Preference::Max, Preference::Exact(8000, PreferenceAlt::Higher), Preference::Min);
    assert_eq!(up, Some(StreamConfig { channels: 2, sample_rate: 22050, buffer_size: BufferSize::Default }));
    let down = get_output_config(Some(configs.clone()), None, Preference::Max, Preference::Exact(96000, PreferenceAlt::Lower), Preference::Exact(64, PreferenceAlt::Lower));
    assert_eq!(down, Some(StreamConfig { channels: 2, sample_rate: 44100, buffer_size: BufferSize::Fixed(64) }));
    let r = get_output_config(Some(configs), None, Preference::Max, Preference::Min, Preference::Min);
    assert_eq!(r, Some(StreamConfig { channels: 2, sample_rate: 22050, buffer_size: BufferSize::Default }));
}

#[test]
fn unlisted_configs_give_the_default() {
    let default = Some(StreamConfig { channels: 1, sample_rate: 8000, buffer_size: BufferSize::Default });
    assert_eq!(get_output_config(None, default, Preference::Max, Preference::Max, Preference::Max), default);
    assert_eq!(get_input_config(None, None, Preference::Max, Preference::Max, Preference::Max), None);
}

#[test]
fn streams_are_listed_as_channels_rate_and_buffer_range() {
    assert_eq!(describe_stream(&sample()[0]), "1 8000 64-1024");
    assert_eq!(describe_stream(&sample()[2]), "2 8000 0-0");
    assert_eq!(describe_streams(&sample()), vec!["1 8000 64-1024", "2 44100 32-4096", "2 8000 0-0", "6 48000 256-512"]);
}

#[test]
fn a_listing_parses_back_to_its_values() {
    for c in sample() {
        let text = describe_stream(&c);
        assert!(stream_text_accepted(&text));
        let (lo, hi) = match c.buffer_size {
            SupportedBufferSize::Range { min, max } => (min, max),
            SupportedBufferSize::Unknown => (0, 0),
        };
        assert_eq!(
            parse_stream(&text),
            Ok(StreamRequest { channels: c.channels as u32, sample_rate: c.min_sample_rate, buffer_size_min: lo, buffer_size_max: hi })
        );
    }
}

#[test]
fn stream_requests_tolerate_extra_spaces_and_fields() {
    assert_eq!(
        parse_stream("  2  48000   256-512-9 extra"),
        Ok(StreamRequest { channels: 2, sample_rate: 48000, buffer_size_min: 256, buffer_size_max: 512 })
    );
}

#[test]
fn short_stream_requests_are_refused() {
    assert_eq!(parse_stream("2 48000"), Err("Invalid stream format: 2 48000".to_string()));
    assert_eq!(parse_stream(""), Err("Invalid stream format: ".to_string()));
}

#[test]
fn malformed_stream_requests_are_not_accepted() {
    assert!(!stream_text_accepted("two 48000 256-512"));
    assert!(!stream_text_accepted("2 48000 256"));
    assert!(!stream_text_accepted("2 48000 256-x"));
    assert!(stream_text_accepted("2 48000"));
}
