use std::sync::Arc;

use w4113::strip::{
    add_strip, map_strips, output_label, remove_strip, route, Input, Output, Route, State, Strip, StripEvent,
};

type TestStrip = Strip<&'static str, u32>;

fn strip(name: &'static str, output: Output<&'static str>) -> TestStrip {
    Strip::new(Input::Generator(name), output)
}

#[test]
fn a_new_strip_has_ten_empty_slots() {
    let s = strip("sine", Output::Stereo(0, 1));
    assert_eq!(s.chain.len(), 10);
    assert!(s.chain.iter().all(|e| e.is_none()));
}

#[test]
fn slots_are_set_and_emptied_and_out_of_range_is_ignored() {
    let mut s = strip("sine", Output::Mono(0));
    s.set_effect(0, 7);
    s.set_effect(3, 9);
    s.set_effect(10, 1);
    assert_eq!(s.chain[0], Some(7));
    assert_eq!(s.chain[3], Some(9));
    assert_eq!(s.chain.len(), 10);
    s.set_effect(3, 4);
    assert_eq!(s.chain[3], Some(4));
    s.remove_effect(3);
    s.remove_effect(42);
    assert_eq!(s.chain[3], None);
    assert_eq!(s.chain[0], Some(7));
    assert_eq!(s.chain.len(), 10);
}

#[test]
fn slots_can_be_added_and_inserted() {
    let mut s = strip("sine", Output::Mono(0));
    s.add_effect(5);
    assert_eq!(s.chain.len(), 11);
    assert_eq!(s.chain[10], Some(5));
    s.insert_effect(6, 0);
    assert_eq!(s.chain.len(), 12);
    assert_eq!(s.chain[0], Some(6));
    assert_eq!(s.chain[11], Some(5));
}

#[test]
fn outputs_route_to_their_channels() {
    assert_eq!(route::<()>(&Output::Mono(2), 2), Route::Mono);
    assert_eq!(route::<()>(&Output::Mono(2), 1), Route::Skip);
    assert_eq!(route::<()>(&Output::Stereo(0, 1), 0), Route::Left);
    assert_eq!(route::<()>(&Output::Stereo(0, 1), 1), Route::Right);
    assert_eq!(route::<()>(&Output::Stereo(1, 1), 1), Route::Left);
    assert_eq!(route::<()>(&Output::Stereo(0, 1), 2), Route::Skip);
    let bus: Output<()> = Output::Bus(Arc::new(Input::Generator(())));
    assert_eq!(route(&bus, 0), Route::Skip);
}

#[test]
fn outputs_are_labelled() {
    assert_eq!(output_label::<()>(&Output::Mono(3)), "mono(3)");
    assert_eq!(output_label::<()>(&Output::Stereo(0, 1)), "stereo(0, 1)");
    let bus: Output<()> = Output::Bus(Arc::new(Input::Generator(())));
    assert_eq!(output_label(&bus), "bus");
}

#[test]
fn the_strip_list_is_kept_and_announced() {
    let mut strips: Vec<TestStrip> = Vec::new();
    assert_eq!(map_strips(&strips), vec![StripEvent::ClearStrips]);
    assert_eq!(add_strip(&mut strips, strip("a", Output::Mono(0))), Some(0));
    assert_eq!(add_strip(&mut strips, strip("b", Output::Mono(1))), Some(1));
    assert_eq!(add_strip(&mut strips, strip("c", Output::Mono(2))), Some(2));
    assert_eq!(
        map_strips(&strips),
        vec![StripEvent::ClearStrips, StripEvent::UpdateStrip(0), StripEvent::UpdateStrip(1), StripEvent::UpdateStrip(2)]
    );
    assert_eq!(remove_strip(&mut strips, 1), vec![StripEvent::RemoveStrip(1)]);
    assert_eq!(strips.len(), 2);
    assert!(matches!(strips[1].input, Input::Generator("c")));
}

#[test]
fn the_engine_state_is_plain_data() {
    let s = State { sample_rate: 48000, sample_clock: 12, buffer_size: 512 };
    assert_eq!(s, State { sample_rate: 48000, sample_clock: 12, buffer_size: 512 });
}

#[test]
fn removing_an_added_strip_restores_the_list() {
    let mut strips: Vec<TestStrip> = Vec::new();
    let _ = add_strip(&mut strips, strip("a", Output::Mono(0)));
    let _ = add_strip(&mut strips, strip("b", Output::Stereo(0, 1)));
    let at = add_strip(&mut strips, strip("c", Output::Mono(2))).unwrap();
    let _ = remove_strip(&mut strips, at);
    assert_eq!(strips.len(), 2);
    assert!(matches!(strips[0].input, Input::Generator("a")));
    assert!(matches!(strips[1].input, Input::Generator("b")));
    assert!(matches!(strips[1].output, Output::Stereo(0, 1)));
}
