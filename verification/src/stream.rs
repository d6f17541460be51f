//! Choosing an audio stream configuration from what a device supports, and
//! the textual form in which stream configurations are listed and requested.

use vstd::prelude::*;

use crate::text::{
    append_decimal, chars_of, decimal, drop_empty, lemma_decimal,
    lemma_digits_no, lemma_parse_decimal, lemma_split_append_plain, lemma_split_append_sep,
    parse_u32, parse_u32_spec, push_char, split_chars, split_on, split_tokens, tokens,
};

verus! {

/// If the value asked for by a [`Preference`] is unavailable, says whether
/// the closest higher or the closest lower value should be used instead.
#[derive(Clone, Copy, Debug, PartialEq, Eq)]
pub enum PreferenceAlt {
    Higher,
    Lower,
}

/// A preference for a value: the smallest, the largest, or an exact value
/// (with a fallback direction when that value is unavailable).
#[derive(Clone, Copy, Debug, PartialEq, Eq)]
pub enum Preference {
    Min,
    Max,
    Exact(u32, PreferenceAlt),
}

/// The property of a stream configuration that a filtering pass looks at.
#[derive(Clone, Copy, Debug, PartialEq, Eq)]
pub enum ConfigProperty {
    Channels(Preference),
    SampleRate(Preference),
    BufferSize(Preference),
}

/// The buffer sizes a device supports for a configuration.
#[derive(Clone, Copy, Debug, PartialEq, Eq)]
pub enum SupportedBufferSize {
    Range { min: u32, max: u32 },
    Unknown,
}

/// A family of stream configurations that a device supports: a channel
/// count, an inclusive range of sample rates and a range of buffer sizes.
#[derive(Clone, Copy, Debug, PartialEq, Eq)]
pub struct StreamConfigRange {
    pub channels: u16,
    pub min_sample_rate: u32,
    pub max_sample_rate: u32,
    pub buffer_size: SupportedBufferSize,
}

/// The buffer size requested when a stream is opened.
#[derive(Clone, Copy, Debug, PartialEq, Eq)]
pub enum BufferSize {
    Default,
    Fixed(u32),
}

/// A concrete stream configuration.
#[derive(Clone, Copy, Debug, PartialEq, Eq)]
pub struct StreamConfig {
    pub channels: u16,
    pub sample_rate: u32,
    pub buffer_size: BufferSize,
}

pub open spec fn preference_of(p: ConfigProperty) -> Preference {
    match p {
        ConfigProperty::Channels(q) => q,
        ConfigProperty::SampleRate(q) => q,
        ConfigProperty::BufferSize(q) => q,
    }
}

/// The smallest value of the property that `c` offers
/// (an unknown buffer size counts as 0).
pub open spec fn lower(c: StreamConfigRange, p: ConfigProperty) -> u32 {
    match p {
        ConfigProperty::Channels(_) => c.channels as u32,
        ConfigProperty::SampleRate(_) => c.min_sample_rate,
        ConfigProperty::BufferSize(_) => match c.buffer_size {
            SupportedBufferSize::Range { min, max } => min,
            SupportedBufferSize::Unknown => 0,
        },
    }
}

/// The largest value of the property that `c` offers
/// (an unknown buffer size counts as 0).
pub open spec fn upper(c: StreamConfigRange, p: ConfigProperty) -> u32 {
    match p {
        ConfigProperty::Channels(_) => c.channels as u32,
        ConfigProperty::SampleRate(_) => c.max_sample_rate,
        ConfigProperty::BufferSize(_) => match c.buffer_size {
            SupportedBufferSize::Range { min, max } => max,
            SupportedBufferSize::Unknown => 0,
        },
    }
}

/// The greatest upper bound among `s` (0 when `s` is empty).
pub open spec fn max_upper(s: Seq<StreamConfigRange>, p: ConfigProperty) -> u32
    decreases s.len(),
{
    if s.len() == 0 {
        0
    } else {
        let r = max_upper(s.drop_last(), p);
        let x = upper(s.last(), p);
        if x > r { x } else { r }
    }
}

/// The least lower bound among `s` (`u32::MAX` when `s` is empty).
pub open spec fn min_lower(s: Seq<StreamConfigRange>, p: ConfigProperty) -> u32
    decreases s.len(),
{
    if s.len() == 0 {
        u32::MAX
    } else {
        let r = min_lower(s.drop_last(), p);
        let x = lower(s.last(), p);
        if x < r { x } else { r }
    }
}

/// The smallest lower bound among `s` that lies above `v`, if any.
pub open spec fn closest_above(s: Seq<StreamConfigRange>, p: ConfigProperty, v: u32) -> Option<u32>
    decreases s.len(),
{
    if s.len() == 0 {
        None
    } else {
        let r = closest_above(s.drop_last(), p, v);
        let x = lower(s.last(), p);
        if x > v && (r is None || x < r->0) { Some(x) } else { r }
    }
}

/// The largest upper bound among `s` that lies below `v`, if any.
pub open spec fn closest_below(s: Seq<StreamConfigRange>, p: ConfigProperty, v: u32) -> Option<u32>
    decreases s.len(),
{
    if s.len() == 0 {
        None
    } else {
        let r = closest_below(s.drop_last(), p, v);
        let x = upper(s.last(), p);
        if x < v && (r is None || x > r->0) { Some(x) } else { r }
    }
}

/// Whether one pass of filtering over `all` keeps `c`.
///
/// `Max` keeps the configurations reaching the greatest value, `Min` those
/// reaching the smallest; `Exact(v, _)` keeps those whose range holds `v`.
/// In the fallback pass (`alt`), `Exact(v, Higher)` keeps the configurations
/// whose range starts at the closest value above `v`, and `Exact(v, Lower)`
/// those whose range ends at the closest value below `v`.
pub open spec fn keeps(c: StreamConfigRange, p: ConfigProperty, all: Seq<StreamConfigRange>, alt: bool) -> bool {
    match preference_of(p) {
        Preference::Max => upper(c, p) == max_upper(all, p),
        Preference::Min => lower(c, p) == min_lower(all, p),
        Preference::Exact(v, a) => if !alt {
            lower(c, p) <= v && v <= upper(c, p)
        } else {
            match a {
                PreferenceAlt::Higher => closest_above(all, p, v) == Some(lower(c, p)),
                PreferenceAlt::Lower => closest_below(all, p, v) == Some(upper(c, p)),
            }
        },
    }
}

/// The members of `s` that one pass over `all` keeps, in their order.
pub open spec fn kept(s: Seq<StreamConfigRange>, p: ConfigProperty, all: Seq<StreamConfigRange>, alt: bool) -> Seq<StreamConfigRange>
    decreases s.len(),
{
    if s.len() == 0 {
        Seq::empty()
    } else if keeps(s.last(), p, all, alt) {
        kept(s.drop_last(), p, all, alt).push(s.last())
    } else {
        kept(s.drop_last(), p, all, alt)
    }
}

/// The result of filtering: the pass asked for, and when that keeps nothing
/// and was not already the fallback pass, the fallback pass.
pub open spec fn filtered(s: Seq<StreamConfigRange>, p: ConfigProperty, alt: bool) -> Seq<StreamConfigRange> {
    let r = kept(s, p, s, alt);
    if r.len() == 0 && !alt { kept(s, p, s, true) } else { r }
}

fn lower_of(c: &StreamConfigRange, p: &ConfigProperty) -> (r: u32)
    ensures
        r == lower(*c, *p),
{
    match p {
        ConfigProperty::Channels(_) => c.channels as u32,
        ConfigProperty::SampleRate(_) => c.min_sample_rate,
        ConfigProperty::BufferSize(_) => match c.buffer_size {
            SupportedBufferSize::Range { min, max } => min,
            SupportedBufferSize::Unknown => 0,
        },
    }
}

fn upper_of(c: &StreamConfigRange, p: &ConfigProperty) -> (r: u32)
    ensures
        r == upper(*c, *p),
{
    match p {
        ConfigProperty::Channels(_) => c.channels as u32,
        ConfigProperty::SampleRate(_) => c.max_sample_rate,
        ConfigProperty::BufferSize(_) => match c.buffer_size {
            SupportedBufferSize::Range { min, max } => max,
            SupportedBufferSize::Unknown => 0,
        },
    }
}

/// The value every kept configuration must reach in one pass:
/// `(kind, target)` where `target` is `None` when nothing can be kept.
fn pass_target(configs: &Vec<StreamConfigRange>, p: &ConfigProperty, alt: bool) -> (r: Option<u32>)
    ensures
        match preference_of(*p) {
            Preference::Max => r == Some(max_upper(configs@, *p)),
            Preference::Min => r == Some(min_lower(configs@, *p)),
            Preference::Exact(v, a) => if !alt {
                r == Some(v)
            } else {
                match a {
                    PreferenceAlt::Higher => r == closest_above(configs@, *p, v),
                    PreferenceAlt::Lower => r == closest_below(configs@, *p, v),
                }
            },
        },
{
    let pref = match p {
        ConfigProperty::Channels(q) => *q,
        ConfigProperty::SampleRate(q) => *q,
        ConfigProperty::BufferSize(q) => *q,
    };
    let n = configs.len();
    let mut i: usize = 0;
    match pref {
        Preference::Max => {
            let mut m: u32 = 0;
            while i < n
                invariant
                    n == configs@.len(),
                    i <= n,
                    m == max_upper(configs@.take(i as int), *p),
                decreases n - i,
            {
                assert(configs@.take(i + 1).drop_last() =~= configs@.take(i as int));
                let x = upper_of(&configs[i], p);
                if x > m {
                    m = x;
                }
                i = i + 1;
            }
            assert(configs@.take(n as int) =~= configs@);
            Some(m)
        },
        Preference::Min => {
            let mut m: u32 = u32::MAX;
            while i < n
                invariant
                    n == configs@.len(),
                    i <= n,
                    m == min_lower(configs@.take(i as int), *p),
                decreases n - i,
            {
                assert(configs@.take(i + 1).drop_last() =~= configs@.take(i as int));
                let x = lower_of(&configs[i], p);
                if x < m {
                    m = x;
                }
                i = i + 1;
            }
            assert(configs@.take(n as int) =~= configs@);
            Some(m)
        },
        Preference::Exact(v, a) => {
            if !alt {
                Some(v)
            } else {
                let mut best: Option<u32> = None;
                match a {
                    PreferenceAlt::Higher => {
                        while i < n
                            invariant
                                n == configs@.len(),
                                i <= n,
                                best == closest_above(configs@.take(i as int), *p, v),
                            decreases n - i,
                        {
                            assert(configs@.take(i + 1).drop_last() =~= configs@.take(i as int));
                            let x = lower_of(&configs[i], p);
                            if x > v {
                                match best {
                                    None => { best = Some(x); },
                                    Some(b) => { if x < b { best = Some(x); } },
                                }
                            }
                            i = i + 1;
                        }
                    },
                    PreferenceAlt::Lower => {
                        while i < n
                            invariant
                                n == configs@.len(),
                                i <= n,
                                best == closest_below(configs@.take(i as int), *p, v),
                            decreases n - i,
                        {
                            assert(configs@.take(i + 1).drop_last() =~= configs@.take(i as int));
                            let x = upper_of(&configs[i], p);
                            if x < v {
                                match best {
                                    None => { best = Some(x); },
                                    Some(b) => { if x > b { best = Some(x); } },
                                }
                            }
                            i = i + 1;
                        }
                    },
                }
                assert(configs@.take(n as int) =~= configs@);
                best
            }
        },
    }
}

/// Filters a list of supported configurations by one property.
///
/// `Max` keeps the configurations whose range reaches the greatest value of
/// the property, `Min` those reaching the smallest, and `Exact(v, alt)` those
/// whose range holds `v`. When an exact value is held by none, the closest
/// higher value (`Higher`: the configurations whose range starts at the
/// smallest value above `v`) or the closest lower value (`Lower`: those whose
/// range ends at the largest value below `v`) is used instead. Order is kept.
/// `alt` selects the fallback pass directly; callers pass `false`.
pub fn filter_config(configs_ref: Vec<StreamConfigRange>, property: ConfigProperty, alt: bool) -> (r: Vec<StreamConfigRange>)
    ensures
        r@ == filtered(configs_ref@, property, alt),
        r@ == (if configs_ref@.filter(|c: StreamConfigRange| keeps(c, property, configs_ref@, alt)).len() == 0 && !alt {
            configs_ref@.filter(|c: StreamConfigRange| keeps(c, property, configs_ref@, true))
        } else {
            configs_ref@.filter(|c: StreamConfigRange| keeps(c, property, configs_ref@, alt))
        }),
    decreases (if alt { 0int } else { 1int }),
{
    let target = pass_target(&configs_ref, &property, alt);
    let mut configs: Vec<StreamConfigRange> = Vec::new();
    let n = configs_ref.len();
    let mut i: usize = 0;
    let ghost all = configs_ref@;
    let is_max = match property {
        ConfigProperty::Channels(Preference::Max) | ConfigProperty::SampleRate(Preference::Max)
        | ConfigProperty::BufferSize(Preference::Max) => true,
        _ => false,
    };
    let use_upper = is_max || (alt && match property {
        ConfigProperty::Channels(Preference::Exact(_, PreferenceAlt::Lower))
        | ConfigProperty::SampleRate(Preference::Exact(_, PreferenceAlt::Lower))
        | ConfigProperty::BufferSize(Preference::Exact(_, PreferenceAlt::Lower)) => true,
        _ => false,
    });
    let in_range = !alt && match property {
        ConfigProperty::Channels(Preference::Exact(_, _))
        | ConfigProperty::SampleRate(Preference::Exact(_, _))
        | ConfigProperty::BufferSize(Preference::Exact(_, _)) => true,
        _ => false,
    };
    while i < n
        invariant
            n == all.len(),
            all == configs_ref@,
            i <= n,
            configs@ == kept(all.take(i as int), property, all, alt),
            in_range == (!alt && preference_of(property) is Exact),
            use_upper == (preference_of(property) is Max
                || (alt && preference_of(property) matches Preference::Exact(_, PreferenceAlt::Lower))),
            match preference_of(property) {
                Preference::Max => target == Some(max_upper(all, property)),
                Preference::Min => target == Some(min_lower(all, property)),
                Preference::Exact(v, a) => if !alt {
                    target == Some(v)
                } else {
                    match a {
                        PreferenceAlt::Higher => target == closest_above(all, property, v),
                        PreferenceAlt::Lower => target == closest_below(all, property, v),
                    }
                },
            },
        decreases n - i,
    {
        assert(all.take(i + 1).drop_last() =~= all.take(i as int));
        let c = configs_ref[i];
        let lo = lower_of(&c, &property);
        let hi = upper_of(&c, &property);
        let keep = match target {
            None => false,
            Some(t) => if in_range {
                lo <= t && t <= hi
            } else if use_upper {
                hi == t
            } else {
                lo == t
            },
        };
        if keep {
            configs.push(c);
        }
        i = i + 1;
    }
    assert(all.take(n as int) =~= all);
    proof {
        lemma_kept_is_filter(all, property, all, alt);
        lemma_kept_is_filter(all, property, all, true);
    }
    if configs.len() < 1 && !alt {
        return filter_config(configs_ref, property, true);
    }
    configs
}


/// The three filtering passes, in precedence order: channels, then sample
/// rate, then buffer size.
pub open spec fn narrowed(
    s: Seq<StreamConfigRange>,
    channels: Preference,
    sample_rate: Preference,
    buffer_size: Preference,
) -> Seq<StreamConfigRange> {
    filtered(
        filtered(filtered(s, ConfigProperty::Channels(channels), false), ConfigProperty::SampleRate(sample_rate), false),
        ConfigProperty::BufferSize(buffer_size),
        false,
    )
}

/// The sample rate taken from the chosen configuration: an exact request
/// clamped into its range, or its maximum or minimum.
pub open spec fn chosen_rate(first: StreamConfigRange, sample_rate: Preference) -> u32 {
    match sample_rate {
        Preference::Exact(v, _) => if v > first.max_sample_rate {
            first.max_sample_rate
        } else if v < first.min_sample_rate {
            first.min_sample_rate
        } else {
            v
        },
        Preference::Max => first.max_sample_rate,
        Preference::Min => first.min_sample_rate,
    }
}

/// The buffer size requested: fixed for an exact request, the device's
/// default otherwise.
pub open spec fn chosen_buffer(buffer_size: Preference) -> BufferSize {
    match buffer_size {
        Preference::Exact(v, _) => BufferSize::Fixed(v),
        _ => BufferSize::Default,
    }
}

/// The configuration chosen from what a device reports: its default when the
/// supported configurations could not be listed or none survives filtering,
/// else the first survivor with the sample rate and buffer size asked for.
pub open spec fn chosen_config(
    supported: Option<Seq<StreamConfigRange>>,
    default: Option<StreamConfig>,
    channels: Preference,
    sample_rate: Preference,
    buffer_size: Preference,
) -> Option<StreamConfig> {
    match supported {
        None => default,
        Some(s) => {
            let n = narrowed(s, channels, sample_rate, buffer_size);
            if n.len() == 0 {
                default
            } else {
                Some(StreamConfig {
                    channels: n[0].channels,
                    sample_rate: chosen_rate(n[0], sample_rate),
                    buffer_size: chosen_buffer(buffer_size),
                })
            }
        },
    }
}

fn choose_config(
    supported: Option<Vec<StreamConfigRange>>,
    default: Option<StreamConfig>,
    channels: Preference,
    sample_rate: Preference,
    buffer_size: Preference,
) -> (r: Option<StreamConfig>)
    ensures
        r == chosen_config(
            match supported { Some(v) => Some(v@), None => None },
            default, channels, sample_rate, buffer_size),
{
    let supported_configs = match supported {
        Some(v) => v,
        None => { return default; },
    };
    let supported_configs = filter_config(supported_configs, ConfigProperty::Channels(channels), false);
    let supported_configs = filter_config(supported_configs, ConfigProperty::SampleRate(sample_rate), false);
    let supported_configs = filter_config(supported_configs, ConfigProperty::BufferSize(buffer_size), false);
    if supported_configs.len() == 0 {
        return default;
    }
    let first = supported_configs[0];
    let max = first.max_sample_rate;
    let min = first.min_sample_rate;
    let rate = match sample_rate {
        Preference::Exact(value, _) => if value > max {
            max
        } else if value < min {
            min
        } else {
            value
        },
        Preference::Max => max,
        Preference::Min => min,
    };
    let buffer = match buffer_size {
        Preference::Exact(value, _) => BufferSize::Fixed(value),
        Preference::Max => BufferSize::Default,
        Preference::Min => BufferSize::Default,
    };
    Some(StreamConfig { channels: first.channels, sample_rate: rate, buffer_size: buffer })
}

/// Chooses an output stream configuration. `supported` is what the device
/// reports (`None` when it could not be listed) and `default` its default
/// output configuration, if any. Channels take precedence over sample rate,
/// which takes precedence over buffer size.
pub fn get_output_config(
    supported: Option<Vec<StreamConfigRange>>,
    default: Option<StreamConfig>,
    channels: Preference,
    sample_rate: Preference,
    buffer_size: Preference,
) -> (r: Option<StreamConfig>)
    ensures
        r == chosen_config(
            match supported { Some(v) => Some(v@), None => None },
            default, channels, sample_rate, buffer_size),
{
    choose_config(supported, default, channels, sample_rate, buffer_size)
}

/// Chooses an input stream configuration; see [`get_output_config`].
pub fn get_input_config(
    supported: Option<Vec<StreamConfigRange>>,
    default: Option<StreamConfig>,
    channels: Preference,
    sample_rate: Preference,
    buffer_size: Preference,
) -> (r: Option<StreamConfig>)
    ensures
        r == chosen_config(
            match supported { Some(v) => Some(v@), None => None },
            default, channels, sample_rate, buffer_size),
{
    choose_config(supported, default, channels, sample_rate, buffer_size)
}

/// The buffer-size bounds as listed: an unknown buffer size reads `0-0`.
pub open spec fn buffer_bounds(b: SupportedBufferSize) -> (u32, u32) {
    match b {
        SupportedBufferSize::Range { min, max } => (min, max),
        SupportedBufferSize::Unknown => (0, 0),
    }
}

/// The listing of a supported configuration:
/// `"<channels> <min sample rate> <min buffer>-<max buffer>"`.
pub open spec fn stream_text(c: StreamConfigRange) -> Seq<char> {
    decimal(c.channels as nat) + seq![' '] + decimal(c.min_sample_rate as nat) + seq![' ']
        + decimal(buffer_bounds(c.buffer_size).0 as nat) + seq!['-']
        + decimal(buffer_bounds(c.buffer_size).1 as nat)
}

/// The listing of a supported configuration, as offered to the user.
pub fn describe_stream(c: &StreamConfigRange) -> (r: String)
    ensures
        r@ == stream_text(*c),
{
    let mut s = String::new();
    append_decimal(&mut s, c.channels as u64);
    push_char(&mut s, ' ');
    append_decimal(&mut s, c.min_sample_rate as u64);
    push_char(&mut s, ' ');
    let (lo, hi) = match c.buffer_size {
        SupportedBufferSize::Range { min, max } => (min, max),
        SupportedBufferSize::Unknown => (0, 0),
    };
    append_decimal(&mut s, lo as u64);
    push_char(&mut s, '-');
    append_decimal(&mut s, hi as u64);
    assert(s@ =~= stream_text(*c));
    s
}

/// The listings of all supported configurations, in order.
pub fn describe_streams(configs: &Vec<StreamConfigRange>) -> (r: Vec<String>)
    ensures
        r@.len() == configs@.len(),
        forall|i: int| 0 <= i < r@.len() ==> #[trigger] r@[i]@ == stream_text(configs@[i]),
{
    let mut out: Vec<String> = Vec::new();
    let mut i: usize = 0;
    while i < configs.len()
        invariant
            i <= configs@.len(),
            out@.len() == i,
            forall|k: int| 0 <= k < i ==> #[trigger] out@[k]@ == stream_text(configs@[k]),
        decreases configs@.len() - i,
    {
        let d = describe_stream(&configs[i]);
        out.push(d);
        i = i + 1;
    }
    out
}

/// A stream configuration asked for by the user, in the listing format.
#[derive(Clone, Copy, Debug, PartialEq, Eq)]
pub struct StreamRequest {
    pub channels: u32,
    pub sample_rate: u32,
    pub buffer_size_min: u32,
    pub buffer_size_max: u32,
}

/// Whether a request text is one that parsing handles without failing: it
/// has fewer than three space-separated fields (and is refused), or its first
/// two fields are `u32` numbers and its third holds two `u32` numbers joined
/// by `-` (anything after a second `-` is ignored).
pub open spec fn stream_text_accepted_spec(s: Seq<char>) -> bool {
    let t = tokens(s, ' ');
    t.len() < 3 || {
        let b = split_on(t[2], '-');
        &&& parse_u32_spec(t[0]) is Some
        &&& parse_u32_spec(t[1]) is Some
        &&& b.len() >= 2
        &&& parse_u32_spec(b[0]) is Some
        &&& parse_u32_spec(b[1]) is Some
    }
}

/// The outcome of parsing a request text: `None` for a text with fewer than
/// three space-separated fields.
pub open spec fn stream_request_spec(s: Seq<char>) -> Option<StreamRequest> {
    let t = tokens(s, ' ');
    if t.len() < 3 {
        None
    } else {
        let b = split_on(t[2], '-');
        Some(StreamRequest {
            channels: parse_u32_spec(t[0])->0,
            sample_rate: parse_u32_spec(t[1])->0,
            buffer_size_min: parse_u32_spec(b[0])->0,
            buffer_size_max: parse_u32_spec(b[1])->0,
        })
    }
}

/// Whether [`parse_stream`] can be called on `stream`.
pub fn stream_text_accepted(stream: &str) -> (r: bool)
    ensures
        r == stream_text_accepted_spec(stream@),
{
    let chars = chars_of(stream);
    let fields = split_tokens(chars.as_slice(), ' ');
    if fields.len() < 3 {
        return true;
    }
    let b = split_chars(fields[2].as_slice(), '-');
    parse_u32(fields[0].as_slice()).is_some() && parse_u32(fields[1].as_slice()).is_some()
        && b.len() >= 2 && parse_u32(b[0].as_slice()).is_some() && parse_u32(b[1].as_slice()).is_some()
}

/// Parses a stream request written as
/// `"<channels> <sample rate> <min buffer>-<max buffer>"` (fields separated by
/// one or more spaces). A text with fewer than three fields is refused with
/// `"Invalid stream format: <text>"`.
pub fn parse_stream(stream: &str) -> (r: Result<StreamRequest, String>)
    requires
        stream_text_accepted_spec(stream@),
    ensures
        match r {
            Ok(q) => stream_request_spec(stream@) == Some(q),
            Err(e) => stream_request_spec(stream@) is None
                && e@ == "Invalid stream format: "@ + stream@,
        },
{
    let chars = chars_of(stream);
    let fields = split_tokens(chars.as_slice(), ' ');
    if fields.len() < 3 {
        let mut e = "Invalid stream format: ".to_owned();
        let mut i: usize = 0;
        let ghost prefix = e@;
        while i < chars.len()
            invariant
                i <= chars@.len(),
                chars@ == stream@,
                e@ == prefix + chars@.take(i as int),
            decreases chars@.len() - i,
        {
            push_char(&mut e, chars[i]);
            i = i + 1;
            assert(e@ =~= prefix + chars@.take(i as int));
        }
        assert(chars@.take(chars@.len() as int) =~= chars@);
        return Err(e);
    }
    let channels = parse_u32(fields[0].as_slice());
    let sample_rate = parse_u32(fields[1].as_slice());
    let b = split_chars(fields[2].as_slice(), '-');
    let lo = parse_u32(b[0].as_slice());
    let hi = parse_u32(b[1].as_slice());
    Ok(StreamRequest {
        channels: channels.unwrap(),
        sample_rate: sample_rate.unwrap(),
        buffer_size_min: lo.unwrap(),
        buffer_size_max: hi.unwrap(),
    })
}


proof fn lemma_split_of_plain(a: Seq<char>, sep: char)
    requires
        !a.contains(sep),
    ensures
        split_on(a, sep) == seq![a],
{
    lemma_split_append_plain(Seq::empty(), a, sep);
    assert(Seq::<char>::empty() + a =~= a);
    assert(Seq::<char>::empty() + a =~= a);
    assert(seq![Seq::<char>::empty()].update(0, Seq::<char>::empty() + a) =~= seq![a]);
}

/// Law: selecting a stream by its listing asks for exactly that stream's
/// channel count, minimum sample rate and buffer-size bounds.
pub proof fn lemma_listing_parses_back(c: StreamConfigRange)
    ensures
        stream_text_accepted_spec(stream_text(c)),
        stream_request_spec(stream_text(c)) == Some(StreamRequest {
            channels: c.channels as u32,
            sample_rate: c.min_sample_rate,
            buffer_size_min: buffer_bounds(c.buffer_size).0,
            buffer_size_max: buffer_bounds(c.buffer_size).1,
        }),
{
    let a = decimal(c.channels as nat);
    let b = decimal(c.min_sample_rate as nat);
    let lo = decimal(buffer_bounds(c.buffer_size).0 as nat);
    let hi = decimal(buffer_bounds(c.buffer_size).1 as nat);
    lemma_decimal(c.channels as nat);
    lemma_decimal(c.min_sample_rate as nat);
    lemma_decimal(buffer_bounds(c.buffer_size).0 as nat);
    lemma_decimal(buffer_bounds(c.buffer_size).1 as nat);
    lemma_digits_no(a, ' ');
    lemma_digits_no(b, ' ');
    lemma_digits_no(lo, ' ');
    lemma_digits_no(hi, ' ');
    lemma_digits_no(lo, '-');
    lemma_digits_no(hi, '-');
    // the third field
    let third = lo.push('-') + hi;
    assert(!third.contains(' ')) by {
        if third.contains(' ') {
            let k = choose|k: int| 0 <= k < third.len() && third[k] == ' ';
            if k < lo.len() {
                assert(lo[k] == ' ');
            } else if k > lo.len() {
                assert(hi[k - lo.len() - 1] == ' ');
            }
        }
    }
    // splitting the whole text on spaces
    lemma_split_of_plain(a, ' ');
    lemma_split_append_sep(a, ' ');
    lemma_split_append_plain(a.push(' '), b, ' ');
    let s3 = a.push(' ') + b;
    assert(split_on(s3, ' ') =~= seq![a, b]);
    lemma_split_append_sep(s3, ' ');
    lemma_split_append_plain(s3.push(' '), third, ' ');
    let whole = s3.push(' ') + third;
    assert(split_on(whole, ' ') =~= seq![a, b, third]);
    assert(whole =~= stream_text(c));
    let f = seq![a, b, third];
    assert(third.len() > 0);
    let f1 = seq![a];
    let f2 = seq![a, b];
    assert(f.drop_last() =~= f2);
    assert(f2.drop_last() =~= f1);
    assert(f1.drop_last() =~= Seq::<Seq<char>>::empty());
    assert(drop_empty(Seq::<Seq<char>>::empty()) =~= Seq::<Seq<char>>::empty());
    assert(drop_empty(f1) =~= seq![a]);
    assert(drop_empty(f2) =~= seq![a, b]);
    assert(drop_empty(f) =~= f);
    // splitting the third field on '-'
    lemma_split_of_plain(lo, '-');
    lemma_split_append_sep(lo, '-');
    lemma_split_append_plain(lo.push('-'), hi, '-');
    assert(split_on(third, '-') =~= seq![lo, hi]);
    lemma_parse_decimal(c.channels as u32);
    lemma_parse_decimal(c.min_sample_rate);
    lemma_parse_decimal(buffer_bounds(c.buffer_size).0);
    lemma_parse_decimal(buffer_bounds(c.buffer_size).1);
}

proof fn lemma_kept_has(
    s: Seq<StreamConfigRange>,
    p: ConfigProperty,
    all: Seq<StreamConfigRange>,
    alt: bool,
    c: StreamConfigRange,
)
    ensures
        kept(s, p, all, alt).contains(c) <==> (s.contains(c) && keeps(c, p, all, alt)),
    decreases s.len(),
{
    if s.len() > 0 {
        let init = s.drop_last();
        let y = s.last();
        lemma_kept_has(init, p, all, alt, c);
        let k0 = kept(init, p, all, alt);
        if s.contains(c) && !init.contains(c) {
            let k = choose|k: int| 0 <= k < s.len() && #[trigger] s[k] == c;
            if k < init.len() {
                assert(init[k] == c);
            }
        }
        if init.contains(c) {
            let k = choose|k: int| 0 <= k < init.len() && #[trigger] init[k] == c;
            assert(s[k] == c);
        }
        if keeps(y, p, all, alt) {
            assert(k0.push(y)[k0.len() as int] == y);
            if k0.push(y).contains(c) && c != y {
                let k = choose|k: int| 0 <= k < k0.len() + 1 && #[trigger] k0.push(y)[k] == c;
                assert(k0[k] == c);
            }
            if k0.contains(c) {
                let k = choose|k: int| 0 <= k < k0.len() && #[trigger] k0[k] == c;
                assert(k0.push(y)[k] == c);
            }
        }
    }
}

proof fn lemma_max_upper(s: Seq<StreamConfigRange>, p: ConfigProperty) -> (w: int)
    ensures
        s.len() > 0 ==> 0 <= w < s.len() && upper(s[w], p) == max_upper(s, p),
        forall|i: int| 0 <= i < s.len() ==> upper(#[trigger] s[i], p) <= max_upper(s, p),
    decreases s.len(),
{
    if s.len() == 0 {
        0
    } else {
        let init = s.drop_last();
        let w0 = lemma_max_upper(init, p);
        assert forall|i: int| 0 <= i < s.len() implies upper(#[trigger] s[i], p) <= max_upper(s, p) by {
            if i < init.len() {
                assert(init[i] == s[i]);
            }
        }
        if init.len() == 0 || upper(s.last(), p) > max_upper(init, p) {
            s.len() - 1
        } else {
            assert(init[w0] == s[w0]);
            w0
        }
    }
}

proof fn lemma_min_lower(s: Seq<StreamConfigRange>, p: ConfigProperty) -> (w: int)
    ensures
        s.len() > 0 ==> 0 <= w < s.len() && lower(s[w], p) == min_lower(s, p),
        forall|i: int| 0 <= i < s.len() ==> min_lower(s, p) <= lower(#[trigger] s[i], p),
    decreases s.len(),
{
    if s.len() == 0 {
        0
    } else {
        let init = s.drop_last();
        let w0 = lemma_min_lower(init, p);
        assert forall|i: int| 0 <= i < s.len() implies min_lower(s, p) <= lower(#[trigger] s[i], p) by {
            if i < init.len() {
                assert(init[i] == s[i]);
            }
        }
        if init.len() == 0 || lower(s.last(), p) < min_lower(init, p) {
            s.len() - 1
        } else {
            assert(init[w0] == s[w0]);
            w0
        }
    }
}

proof fn lemma_closest_above(s: Seq<StreamConfigRange>, p: ConfigProperty, v: u32) -> (w: int)
    ensures
        match closest_above(s, p, v) {
            Some(t) => 0 <= w < s.len() && lower(s[w], p) == t && t > v
                && forall|i: int| 0 <= i < s.len() && lower(#[trigger] s[i], p) > v ==> t <= lower(s[i], p),
            None => forall|i: int| 0 <= i < s.len() ==> lower(#[trigger] s[i], p) <= v,
        },
    decreases s.len(),
{
    if s.len() == 0 {
        0
    } else {
        let init = s.drop_last();
        let w0 = lemma_closest_above(init, p, v);
        assert forall|i: int| 0 <= i < init.len() implies #[trigger] s[i] == init[i] by {}
        let x = lower(s.last(), p);
        let r = closest_above(init, p, v);
        if x > v && (r is None || x < r->0) {
            s.len() - 1
        } else {
            if r is Some {
                assert(init[w0] == s[w0]);
            }
            w0
        }
    }
}

proof fn lemma_closest_below(s: Seq<StreamConfigRange>, p: ConfigProperty, v: u32) -> (w: int)
    ensures
        match closest_below(s, p, v) {
            Some(t) => 0 <= w < s.len() && upper(s[w], p) == t && t < v
                && forall|i: int| 0 <= i < s.len() && upper(#[trigger] s[i], p) < v ==> upper(s[i], p) <= t,
            None => forall|i: int| 0 <= i < s.len() ==> upper(#[trigger] s[i], p) >= v,
        },
    decreases s.len(),
{
    if s.len() == 0 {
        0
    } else {
        let init = s.drop_last();
        let w0 = lemma_closest_below(init, p, v);
        assert forall|i: int| 0 <= i < init.len() implies #[trigger] s[i] == init[i] by {}
        let x = upper(s.last(), p);
        let r = closest_below(init, p, v);
        if x < v && (r is None || x > r->0) {
            s.len() - 1
        } else {
            if r is Some {
                assert(init[w0] == s[w0]);
            }
            w0
        }
    }
}

/// Law: a `Max` (`Min`) filter over a non-empty list keeps something, and
/// what it keeps is taken from the list and reaches the greatest (smallest)
/// value that any configuration of the list offers.
pub proof fn lemma_filter_extreme(s: Seq<StreamConfigRange>, p: ConfigProperty)
    requires
        s.len() > 0,
        preference_of(p) is Max || preference_of(p) is Min,
    ensures
        filtered(s, p, false).len() > 0,
        forall|c: StreamConfigRange| #[trigger] filtered(s, p, false).contains(c) ==> s.contains(c) && (
            if preference_of(p) is Max {
                forall|i: int| 0 <= i < s.len() ==> upper(#[trigger] s[i], p) <= upper(c, p)
            } else {
                forall|i: int| 0 <= i < s.len() ==> lower(c, p) <= lower(#[trigger] s[i], p)
            }),
{
    let wmax = lemma_max_upper(s, p);
    let wmin = lemma_min_lower(s, p);
    let w = if preference_of(p) is Max { wmax } else { wmin };
    lemma_kept_has(s, p, s, false, s[w]);
    assert(s.contains(s[w]));
    let k = kept(s, p, s, false);
    assert(k.contains(s[w]));
    assert forall|c: StreamConfigRange| #[trigger] filtered(s, p, false).contains(c) implies s.contains(c) && (
        if preference_of(p) is Max {
            forall|i: int| 0 <= i < s.len() ==> upper(#[trigger] s[i], p) <= upper(c, p)
        } else {
            forall|i: int| 0 <= i < s.len() ==> lower(c, p) <= lower(#[trigger] s[i], p)
        }) by {
        lemma_kept_has(s, p, s, false, c);
    }
}

/// Law: when some configuration offers the exact value asked for, filtering
/// keeps something, and everything it keeps is taken from the list and
/// offers that value.
pub proof fn lemma_filter_exact_available(s: Seq<StreamConfigRange>, p: ConfigProperty, i: int)
    requires
        preference_of(p) is Exact,
        0 <= i < s.len(),
        lower(s[i], p) <= preference_of(p)->0 <= upper(s[i], p),
    ensures
        filtered(s, p, false).len() > 0,
        forall|c: StreamConfigRange| #[trigger] filtered(s, p, false).contains(c) ==> s.contains(c)
            && lower(c, p) <= preference_of(p)->0 <= upper(c, p),
{
    lemma_kept_has(s, p, s, false, s[i]);
    assert(s.contains(s[i]));
    assert(kept(s, p, s, false).contains(s[i]));
    assert forall|c: StreamConfigRange| #[trigger] filtered(s, p, false).contains(c) implies s.contains(c)
        && lower(c, p) <= preference_of(p)->0 <= upper(c, p) by {
        lemma_kept_has(s, p, s, false, c);
    }
}

/// Law: when no configuration offers the exact value `v` asked for,
/// filtering falls back to the closest value on the side asked for: with
/// `Higher`, what it keeps starts at the smallest value above `v` that any
/// configuration starts at; with `Lower`, it ends at the largest value below
/// `v` that any configuration ends at. It keeps something whenever some
/// configuration lies on that side.
pub proof fn lemma_filter_exact_fallback(s: Seq<StreamConfigRange>, p: ConfigProperty)
    requires
        preference_of(p) is Exact,
        forall|i: int| 0 <= i < s.len() ==> !(lower(#[trigger] s[i], p) <= preference_of(p)->0 <= upper(s[i], p)),
    ensures
        ({
            let v = preference_of(p)->0;
            let f = filtered(s, p, false);
            if preference_of(p)->1 == PreferenceAlt::Higher {
                &&& (exists|i: int| 0 <= i < s.len() && lower(#[trigger] s[i], p) > v) ==> f.len() > 0
                &&& forall|c: StreamConfigRange| #[trigger] f.contains(c) ==> s.contains(c) && lower(c, p) > v
                    && forall|i: int| 0 <= i < s.len() && lower(#[trigger] s[i], p) > v ==> lower(c, p) <= lower(s[i], p)
            } else {
                &&& (exists|i: int| 0 <= i < s.len() && upper(#[trigger] s[i], p) < v) ==> f.len() > 0
                &&& forall|c: StreamConfigRange| #[trigger] f.contains(c) ==> s.contains(c) && upper(c, p) < v
                    && forall|i: int| 0 <= i < s.len() && upper(#[trigger] s[i], p) < v ==> upper(s[i], p) <= upper(c, p)
            }
        }),
{
    let v = preference_of(p)->0;
    assert forall|c: StreamConfigRange| !#[trigger] kept(s, p, s, false).contains(c) by {
        lemma_kept_has(s, p, s, false, c);
        if s.contains(c) {
            let k = choose|k: int| 0 <= k < s.len() && #[trigger] s[k] == c;
        }
    }
    if kept(s, p, s, false).len() > 0 {
        assert(kept(s, p, s, false).contains(kept(s, p, s, false)[0]));
    }
    let f = filtered(s, p, false);
    assert(f == kept(s, p, s, true));
    if preference_of(p)->1 == PreferenceAlt::Higher {
        let w = lemma_closest_above(s, p, v);
        if closest_above(s, p, v) is Some {
            lemma_kept_has(s, p, s, true, s[w]);
            assert(s.contains(s[w]));
            assert(f.contains(s[w]));
        }
        assert forall|c: StreamConfigRange| #[trigger] f.contains(c) implies s.contains(c) && lower(c, p) > v
            && forall|i: int| 0 <= i < s.len() && lower(#[trigger] s[i], p) > v ==> lower(c, p) <= lower(s[i], p) by {
            lemma_kept_has(s, p, s, true, c);
        }
    } else {
        let w = lemma_closest_below(s, p, v);
        if closest_below(s, p, v) is Some {
            lemma_kept_has(s, p, s, true, s[w]);
            assert(s.contains(s[w]));
            assert(f.contains(s[w]));
        }
        assert forall|c: StreamConfigRange| #[trigger] f.contains(c) implies s.contains(c) && upper(c, p) < v
            && forall|i: int| 0 <= i < s.len() && upper(#[trigger] s[i], p) < v ==> upper(s[i], p) <= upper(c, p) by {
            lemma_kept_has(s, p, s, true, c);
        }
    }
}

/// Law: one filtering pass keeps, in their input order and each as often as
/// it occurs, exactly the configurations that [`keeps`] accepts: the pass is
/// the input's `filter` by that test.
pub proof fn lemma_kept_is_filter(
    s: Seq<StreamConfigRange>,
    p: ConfigProperty,
    all: Seq<StreamConfigRange>,
    alt: bool,
)
    ensures
        kept(s, p, all, alt) == s.filter(|c: StreamConfigRange| keeps(c, p, all, alt)),
    decreases s.len(),
{
    reveal(Seq::filter);
    if s.len() > 0 {
        lemma_kept_is_filter(s.drop_last(), p, all, alt);
    }
}

} // verus!
