//! Effect strips: an input, a chain of effect slots and an output; the
//! routing of strips to the interleaved channels of the output stream; and
//! the bookkeeping of the list of strips shown in the user interface.

use std::sync::Arc;

use vstd::prelude::*;

use crate::text::{append_decimal, decimal, push_char};

verus! {

/// The state of the audio engine that effects see: the sample rate, the
/// sample clock and the buffer size.
#[derive(Clone, Copy, Debug, PartialEq, Eq)]
pub struct State {
    pub sample_rate: u32,
    pub sample_clock: u64,
    pub buffer_size: usize,
}

/// Where a strip's signal goes: one output channel, a pair of channels, or a
/// bus feeding another input.
pub enum Output<G> {
    Mono(u32),
    Stereo(u32, u32),
    Bus(Arc<Input<G>>),
}

/// Where a strip's signal comes from: a generator, or a bus fed by an output.
pub enum Input<G> {
    Generator(G),
    Bus(Arc<Output<G>>),
}

/// The number of effect slots a new strip has.
pub const CHAIN_SLOTS: usize = 10;

/// A strip: an input, a chain of effect slots (each empty or holding an
/// effect) and an output. Processing applies the effects of the filled slots
/// in slot order.
pub struct Strip<G, E> {
    pub input: Input<G>,
    pub chain: Vec<Option<E>>,
    pub output: Output<G>,
}

impl<G, E> Strip<G, E> {
    /// A strip with the given input and output and ten empty effect slots.
    pub fn new(input: Input<G>, output: Output<G>) -> (s: Self)
        ensures
            s.input == input,
            s.output == output,
            s.chain@.len() == CHAIN_SLOTS,
            forall|i: int| 0 <= i < s.chain@.len() ==> #[trigger] s.chain@[i] is None,
    {
        let mut chain: Vec<Option<E>> = Vec::new();
        let mut i: usize = 0;
        while i < CHAIN_SLOTS
            invariant
                i <= CHAIN_SLOTS,
                chain@.len() == i,
                forall|k: int| 0 <= k < i ==> #[trigger] chain@[k] is None,
            decreases CHAIN_SLOTS - i,
        {
            chain.push(None);
            i = i + 1;
        }
        Strip { input, chain, output }
    }

    /// Puts `effect` in slot `index`, replacing what was there; an index past
    /// the last slot is ignored.
    pub fn set_effect(&mut self, index: usize, effect: E)
        ensures
            final(self).chain@ == if index < old(self).chain@.len() {
                old(self).chain@.update(index as int, Some(effect))
            } else {
                old(self).chain@
            },
            final(self).input == old(self).input,
            final(self).output == old(self).output,
    {
        if index >= self.chain.len() {
            return;
        }
        self.chain.set(index, Some(effect));
    }

    /// Empties slot `index`; an index past the last slot is ignored.
    pub fn remove_effect(&mut self, index: usize)
        ensures
            final(self).chain@ == if index < old(self).chain@.len() {
                old(self).chain@.update(index as int, None)
            } else {
                old(self).chain@
            },
            final(self).input == old(self).input,
            final(self).output == old(self).output,
    {
        if index >= self.chain.len() {
            return;
        }
        self.chain.set(index, None);
    }

    /// Adds a slot holding `effect` after the last slot.
    pub fn add_effect(&mut self, effect: E)
        ensures
            final(self).chain@ == old(self).chain@.push(Some(effect)),
            final(self).input == old(self).input,
            final(self).output == old(self).output,
    {
        self.chain.push(Some(effect));
    }

    /// Inserts a slot holding `effect` at position `index`, moving the slots
    /// from there on one place back.
    pub fn insert_effect(&mut self, effect: E, index: usize)
        requires
            index <= old(self).chain@.len(),
        ensures
            final(self).chain@ == old(self).chain@.insert(index as int, Some(effect)),
            final(self).input == old(self).input,
            final(self).output == old(self).output,
    {
        self.chain.insert(index, Some(effect));
    }
}

/// What a strip contributes to one channel of an interleaved frame.
#[derive(Clone, Copy, Debug, PartialEq, Eq)]
pub enum Route {
    /// Nothing: the strip does not play on this channel.
    Skip,
    /// The mono mix of the strip's sample.
    Mono,
    /// The left channel of the strip's sample.
    Left,
    /// The right channel of the strip's sample.
    Right,
}

/// What a strip with this output plays on `channel`: a mono output plays its
/// mix on its channel, a stereo output its left side on its left channel and
/// otherwise its right side on its right channel, and a bus nothing.
pub open spec fn route_spec<G>(output: &Output<G>, channel: u32) -> Route {
    match output {
        Output::Mono(c) => if *c == channel { Route::Mono } else { Route::Skip },
        Output::Stereo(l, r) => if *l == channel {
            Route::Left
        } else if *r == channel {
            Route::Right
        } else {
            Route::Skip
        },
        Output::Bus(_) => Route::Skip,
    }
}

/// What a strip with this output plays on `channel` (see [`route_spec`]).
pub fn route<G>(output: &Output<G>, channel: u32) -> (r: Route)
    ensures
        r == route_spec(output, channel),
        output matches Output::Mono(c) ==> (r != Route::Skip <==> channel == c),
        output matches Output::Stereo(l, rc) ==> (r != Route::Skip <==> (channel == l || channel == rc)),
        output is Bus ==> r == Route::Skip,
{
    match output {
        Output::Mono(c) => if *c == channel { Route::Mono } else { Route::Skip },
        Output::Stereo(l, r) => if *l == channel {
            Route::Left
        } else if *r == channel {
            Route::Right
        } else {
            Route::Skip
        },
        Output::Bus(_) => Route::Skip,
    }
}

/// How a strip's output is shown: `mono(<c>)`, `stereo(<l>, <r>)` or `bus`.
pub open spec fn output_text<G>(output: &Output<G>) -> Seq<char> {
    match output {
        Output::Mono(c) => "mono("@ + decimal(*c as nat) + ")"@,
        Output::Stereo(l, r) => "stereo("@ + decimal(*l as nat) + ", "@ + decimal(*r as nat) + ")"@,
        Output::Bus(_) => "bus"@,
    }
}

/// How a strip's output is shown (see [`output_text`]).
pub fn output_label<G>(output: &Output<G>) -> (r: String)
    ensures
        r@ == output_text(output),
{
    match output {
        Output::Mono(c) => {
            let mut s = "mono(".to_owned();
            append_decimal(&mut s, *c as u64);
            proof { reveal_strlit(")"); }
            push_char(&mut s, ')');
            assert(s@ =~= output_text(output));
            s
        },
        Output::Stereo(l, r) => {
            let mut s = "stereo(".to_owned();
            append_decimal(&mut s, *l as u64);
            proof { reveal_strlit(", "); reveal_strlit(")"); }
            push_char(&mut s, ',');
            push_char(&mut s, ' ');
            append_decimal(&mut s, *r as u64);
            push_char(&mut s, ')');
            assert(s@ =~= output_text(output));
            s
        },
        Output::Bus(_) => "bus".to_owned(),
    }
}

/// A message to the user interface about the list of strips.
#[derive(Clone, Copy, Debug, PartialEq, Eq)]
pub enum StripEvent {
    /// Forget every strip shown.
    ClearStrips,
    /// Show (again) the strip at this position.
    UpdateStrip(usize),
    /// Forget the strip at this position.
    RemoveStrip(usize),
}

/// The messages that show the whole list: clear, then each strip in order.
pub fn map_strips<G, E>(strips: &Vec<Strip<G, E>>) -> (r: Vec<StripEvent>)
    ensures
        r@.len() == strips@.len() + 1,
        r@[0] == StripEvent::ClearStrips,
        forall|i: int| 0 <= i < strips@.len() ==> #[trigger] r@[i + 1] == StripEvent::UpdateStrip(i as usize),
{
    let mut out: Vec<StripEvent> = Vec::new();
    out.push(StripEvent::ClearStrips);
    let mut i: usize = 0;
    while i < strips.len()
        invariant
            i <= strips@.len(),
            out@.len() == i + 1,
            out@[0] == StripEvent::ClearStrips,
            forall|k: int| 0 <= k < i ==> #[trigger] out@[k + 1] == StripEvent::UpdateStrip(k as usize),
        decreases strips@.len() - i,
    {
        out.push(StripEvent::UpdateStrip(i));
        i = i + 1;
    }
    out
}

/// Removes the strip at `index`, moving the later ones one place forward.
pub fn remove_strip<G, E>(strips: &mut Vec<Strip<G, E>>, index: usize) -> (r: Vec<StripEvent>)
    requires
        index < old(strips)@.len(),
    ensures
        final(strips)@ == old(strips)@.remove(index as int),
        r@ == seq![StripEvent::RemoveStrip(index)],
{
    let mut out: Vec<StripEvent> = Vec::new();
    out.push(StripEvent::RemoveStrip(index));
    let _ = strips.remove(index);
    out
}

/// Adds a strip after the last one and gives its position.
pub fn add_strip<G, E>(strips: &mut Vec<Strip<G, E>>, strip: Strip<G, E>) -> (r: Option<usize>)
    requires
        old(strips)@.len() < usize::MAX,
    ensures
        final(strips)@ == old(strips)@.push(strip),
        r == Some(old(strips)@.len() as usize),
{
    strips.push(strip);
    Some(strips.len() - 1)
}

/// Law: removing the strip at the position [`add_strip`] gave gives back the
/// list as it was before the strip was added.
pub proof fn lemma_remove_added_strip<G, E>(strips: Seq<Strip<G, E>>, strip: Strip<G, E>)
    ensures
        strips.push(strip).remove(strips.len() as int) == strips,
{
    assert(strips.push(strip).remove(strips.len() as int) =~= strips);
}

/// Law: a strip plays only on the channels its output names, and on each of
/// them: a mono output plays its mix on its own channel and nowhere else; a
/// stereo output plays its left side on its left channel and its right side on
/// its right channel (the left side where both are the same channel) and
/// nothing elsewhere; a bus plays on no channel.
pub proof fn lemma_route_plays_named_channels<G>(output: &Output<G>, channel: u32)
    ensures
        output matches Output::Mono(c) ==> (route_spec(output, channel) != Route::Skip <==> channel == c)
            && (channel == c ==> route_spec(output, channel) == Route::Mono),
        output matches Output::Stereo(l, r) ==> (route_spec(output, channel) != Route::Skip
            <==> (channel == l || channel == r))
            && (channel == l ==> route_spec(output, channel) == Route::Left)
            && (channel == r && channel != l ==> route_spec(output, channel) == Route::Right),
        output is Bus ==> route_spec(output, channel) == Route::Skip,
{
}

} // verus!
