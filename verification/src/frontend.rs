//! Requests from the user interface about strips: which effect a name asks
//! for, which update a request kind asks for, and the changes they make to
//! the list of strips, with the errors reported when they cannot be made.

use vstd::prelude::*;

use crate::strip::{Output, Strip};
use crate::text::{append_decimal, decimal, lowercase, push_char, to_lowercase};

verus! {

/// The effects the user interface can put in a slot.
#[derive(Clone, Copy, Debug, PartialEq, Eq)]
pub enum EffectKind {
    BitCrusher,
    Clip,
    Delay,
    Gain,
}

/// The effect a name asks for, case ignored.
pub open spec fn effect_kind_spec(name: Seq<char>) -> Option<EffectKind> {
    let l = lowercase(name);
    if l == "bitcrusher"@ {
        Some(EffectKind::BitCrusher)
    } else if l == "clip"@ {
        Some(EffectKind::Clip)
    } else if l == "delay"@ {
        Some(EffectKind::Delay)
    } else if l == "gain"@ {
        Some(EffectKind::Gain)
    } else {
        None
    }
}

/// The effect a name asks for (`bitcrusher`, `clip`, `delay` or `gain`, in
/// any case).
pub fn effect_kind(name: &str) -> (r: Option<EffectKind>)
    ensures
        r == effect_kind_spec(name@),
{
    let l = to_lowercase(name);
    if l == "bitcrusher".to_owned() {
        Some(EffectKind::BitCrusher)
    } else if l == "clip".to_owned() {
        Some(EffectKind::Clip)
    } else if l == "delay".to_owned() {
        Some(EffectKind::Delay)
    } else if l == "gain".to_owned() {
        Some(EffectKind::Gain)
    } else {
        None
    }
}

/// The updates a strip-update request can ask for.
#[derive(Clone, Copy, Debug, PartialEq, Eq)]
pub enum UpdateKind {
    OutputMono,
    OutputStereo,
    Control,
}

/// The update a request kind asks for; the kinds are matched exactly.
pub open spec fn update_kind_spec(kind: Seq<char>) -> Option<UpdateKind> {
    if kind == "output-mono"@ {
        Some(UpdateKind::OutputMono)
    } else if kind == "output-stereo"@ {
        Some(UpdateKind::OutputStereo)
    } else if kind == "control"@ {
        Some(UpdateKind::Control)
    } else {
        None
    }
}

/// The update a request kind asks for; an unknown kind is refused with
/// `"Invalid kind: <kind>"`.
pub fn update_kind(kind: &str) -> (r: Result<UpdateKind, String>)
    ensures
        match update_kind_spec(kind@) {
            Some(u) => r == Ok::<UpdateKind, String>(u),
            None => r is Err && r->Err_0@ == "Invalid kind: "@ + kind@,
        },
{
    let k = kind.to_owned();
    if k == "output-mono".to_owned() {
        Ok(UpdateKind::OutputMono)
    } else if k == "output-stereo".to_owned() {
        Ok(UpdateKind::OutputStereo)
    } else if k == "control".to_owned() {
        Ok(UpdateKind::Control)
    } else {
        let mut e = "Invalid kind: ".to_owned();
        append_text(&mut e, kind);
        Err(e)
    }
}

fn append_text(s: &mut String, t: &str)
    ensures
        final(s)@ == old(s)@ + t@,
{
    let chars = crate::text::chars_of(t);
    let mut i: usize = 0;
    let ghost start = s@;
    while i < chars.len()
        invariant
            i <= chars@.len(),
            chars@ == t@,
            s@ == start + chars@.take(i as int),
        decreases chars@.len() - i,
    {
        push_char(s, chars[i]);
        i = i + 1;
        assert(s@ =~= start + chars@.take(i as int));
    }
    assert(chars@.take(chars@.len() as int) =~= chars@);
}

/// `"<prefix><n><suffix>"`.
fn numbered(prefix: &str, n: usize, suffix: &str) -> (r: String)
    ensures
        r@ == prefix@ + decimal(n as nat) + suffix@,
{
    let mut s = prefix.to_owned();
    append_decimal(&mut s, n as u64);
    append_text(&mut s, suffix);
    s
}

/// `"Strip <strip> does not exist"`.
pub fn strip_error(strip: usize) -> (r: String)
    ensures
        r@ == "Strip "@ + decimal(strip as nat) + " does not exist"@,
{
    numbered("Strip ", strip, " does not exist")
}

/// `"Effect <index> does not exist"`.
pub fn effect_index_error(index: usize) -> (r: String)
    ensures
        r@ == "Effect "@ + decimal(index as nat) + " does not exist"@,
{
    numbered("Effect ", index, " does not exist")
}

/// `"Effect <name> does not exist"`.
pub fn effect_name_error(name: &str) -> (r: String)
    ensures
        r@ == "Effect "@ + name@ + " does not exist"@,
{
    let mut s = "Effect ".to_owned();
    append_text(&mut s, name);
    append_text(&mut s, " does not exist");
    s
}

/// The effect to build for a set-effect request on strip `strip` among
/// `strip_count` strips: refused first when the strip does not exist, then
/// when the name asks for no known effect.
pub fn plan_set_effect(strip_count: usize, strip: usize, name: &str) -> (r: Result<EffectKind, String>)
    ensures
        strip >= strip_count ==> r is Err && r->Err_0@ == "Strip "@ + decimal(strip as nat) + " does not exist"@,
        strip < strip_count ==> match effect_kind_spec(name@) {
            Some(k) => r == Ok::<EffectKind, String>(k),
            None => r is Err && r->Err_0@ == "Effect "@ + name@ + " does not exist"@,
        },
{
    if strip >= strip_count {
        return Err(strip_error(strip));
    }
    match effect_kind(name) {
        Some(k) => Ok(k),
        None => Err(effect_name_error(name)),
    }
}

/// Puts `effect` in slot `index` of strip `strip`; refused when there is no
/// such strip (a slot past the last is ignored, as [`Strip::set_effect`] does).
pub fn set_strip_effect<G, E>(strips: &mut Vec<Strip<G, E>>, strip: usize, index: usize, effect: E) -> (r: Result<(), String>)
    ensures
        strip >= old(strips)@.len() ==> r is Err && final(strips)@ == old(strips)@
            && r->Err_0@ == "Strip "@ + decimal(strip as nat) + " does not exist"@,
        strip < old(strips)@.len() ==> r is Ok && final(strips)@.len() == old(strips)@.len()
            && (forall|i: int| 0 <= i < old(strips)@.len() && i != strip ==> #[trigger] final(strips)@[i] == old(strips)@[i])
            && final(strips)@[strip as int].input == old(strips)@[strip as int].input
            && final(strips)@[strip as int].output == old(strips)@[strip as int].output
            && final(strips)@[strip as int].chain@ == if index < old(strips)@[strip as int].chain@.len() {
                old(strips)@[strip as int].chain@.update(index as int, Some(effect))
            } else {
                old(strips)@[strip as int].chain@
            },
{
    if strip >= strips.len() {
        return Err(strip_error(strip));
    }
    let s = &mut strips[strip];
    s.set_effect(index, effect);
    Ok(())
}

/// Empties slot `index` of strip `strip`; refused when there is no such strip.
pub fn remove_strip_effect<G, E>(strips: &mut Vec<Strip<G, E>>, strip: usize, index: usize) -> (r: Result<(), String>)
    ensures
        strip >= old(strips)@.len() ==> r is Err && final(strips)@ == old(strips)@
            && r->Err_0@ == "Strip "@ + decimal(strip as nat) + " does not exist"@,
        strip < old(strips)@.len() ==> r is Ok && final(strips)@.len() == old(strips)@.len()
            && (forall|i: int| 0 <= i < old(strips)@.len() && i != strip ==> #[trigger] final(strips)@[i] == old(strips)@[i])
            && final(strips)@[strip as int].input == old(strips)@[strip as int].input
            && final(strips)@[strip as int].output == old(strips)@[strip as int].output
            && final(strips)@[strip as int].chain@ == if index < old(strips)@[strip as int].chain@.len() {
                old(strips)@[strip as int].chain@.update(index as int, None)
            } else {
                old(strips)@[strip as int].chain@
            },
{
    if strip >= strips.len() {
        return Err(strip_error(strip));
    }
    let s = &mut strips[strip];
    s.remove_effect(index);
    Ok(())
}

/// Sets the output of strip `index`; a missing strip is ignored.
pub fn set_strip_output<G, E>(strips: &mut Vec<Strip<G, E>>, index: usize, output: Output<G>)
    ensures
        index >= old(strips)@.len() ==> final(strips)@ == old(strips)@,
        index < old(strips)@.len() ==> final(strips)@.len() == old(strips)@.len()
            && (forall|i: int| 0 <= i < old(strips)@.len() && i != index ==> #[trigger] final(strips)@[i] == old(strips)@[i])
            && final(strips)@[index as int].input == old(strips)@[index as int].input
            && final(strips)@[index as int].chain == old(strips)@[index as int].chain
            && final(strips)@[index as int].output == output,
{
    if index >= strips.len() {
        return;
    }
    let s = &mut strips[index];
    s.output = output;
}

/// Whether slot `index` of strip `strip` holds an effect a control can be
/// set on: refused with `"Strip <strip> does not exist"` when there is no
/// such strip, and with `"Effect <index> does not exist"` when the slot is
/// missing or empty.
pub fn check_control_target<G, E>(strips: &Vec<Strip<G, E>>, strip: usize, index: usize) -> (r: Result<(), String>)
    ensures
        strip >= strips@.len() ==> r is Err && r->Err_0@ == "Strip "@ + decimal(strip as nat) + " does not exist"@,
        strip < strips@.len() ==> {
            let chain = strips@[strip as int].chain@;
            if index < chain.len() && chain[index as int] is Some {
                r is Ok
            } else {
                r is Err && r->Err_0@ == "Effect "@ + decimal(index as nat) + " does not exist"@
            }
        },
{
    if strip >= strips.len() {
        return Err(strip_error(strip));
    }
    let s = &strips[strip];
    if index >= s.chain.len() {
        return Err(effect_index_error(index));
    }
    match &s.chain[index] {
        Some(_) => Ok(()),
        None => Err(effect_index_error(index)),
    }
}

} // verus!
