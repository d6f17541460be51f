use w4113::frontend::{
    check_control_target, effect_index_error, effect_kind, effect_name_error, plan_set_effect, remove_strip_effect,
    set_strip_effect, set_strip_output, strip_error, update_kind, EffectKind, UpdateKind,
};
use w4113::strip::{Input, Output, Strip};

fn strips() -> Vec<Strip<u8, u32>> {
    vec![Strip::new(Input::Generator(0), Output::Mono(0)), Strip::new(Input::Generator(1), Output::Stereo(0, 1))]
}

#[test]
fn effects_are_named_in_any_case() {
    assert_eq!(effect_kind("BitCrusher"), Some(EffectKind::BitCrusher));
    assert_eq!(effect_kind("CLIP"), Some(EffectKind::Clip));
    assert_eq!(effect_kind("delay"), Some(EffectKind::Delay));
    assert_eq!(effect_kind("Gain"), Some(EffectKind::Gain));
    assert_eq!(effect_kind("reverb"), None);
}

#[test]
fn update_kinds_are_matched_exactly() {
    assert_eq!(update_kind("output-mono"), Ok(UpdateKind::OutputMono));
    assert_eq!(update_kind("output-stereo"), Ok(UpdateKind::OutputStereo));
    assert_eq!(update_kind("control"), Ok(UpdateKind::Control));
    assert_eq!(update_kind("Control"), Err("Invalid kind: Control".to_string()));
}

#[test]
fn error_messages_name_what_is_missing() {
    assert_eq!(strip_error(12), "Strip 12 does not exist");
    assert_eq!(effect_index_error(0), "Effect 0 does not exist");
    assert_eq!(effect_name_error("reverb"), "Effect reverb does not exist");
}

#[test]
fn a_missing_strip_is_refused_before_an_unknown_effect() {
    assert_eq!(plan_set_effect(2, 5, "reverb"), Err("Strip 5 does not exist".to_string()));
    assert_eq!(plan_set_effect(2, 1, "reverb"), Err("Effect reverb does not exist".to_string()));
    assert_eq!(plan_set_effect(2, 1, "Gain"), Ok(EffectKind::Gain));
}

#[test]
fn effects_are_set_and_removed_on_existing_strips() {
    let mut s = strips();
    assert_eq!(set_strip_effect(&mut s, 1, 2, 77), Ok(()));
    assert_eq!(s[1].chain[2], Some(77));
    assert_eq!(set_strip_effect(&mut s, 2, 0, 1), Err("Strip 2 does not exist".to_string()));
    assert_eq!(check_control_target(&s, 1, 2), Ok(()));
    assert_eq!(check_control_target(&s, 1, 3), Err("Effect 3 does not exist".to_string()));
    assert_eq!(check_control_target(&s, 1, 30), Err("Effect 30 does not exist".to_string()));
    assert_eq!(check_control_target(&s, 4, 0), Err("Strip 4 does not exist".to_string()));
    assert_eq!(remove_strip_effect(&mut s, 1, 2), Ok(()));
    assert_eq!(s[1].chain[2], None);
    assert_eq!(remove_strip_effect(&mut s, 9, 2), Err("Strip 9 does not exist".to_string()));
}

#[test]
fn outputs_are_set_on_existing_strips_only() {
    let mut s = strips();
    set_strip_output(&mut s, 0, Output::Stereo(2, 3));
    assert!(matches!(s[0].output, Output::Stereo(2, 3)));
    set_strip_output(&mut s, 5, Output::Mono(9));
    assert_eq!(s.len(), 2);
}
