use w4113::devices::{
    choose_device, host, input_device, is_default_name, names_match, next_host_candidate, output_device,
    DeviceChoice,
};

fn names(v: &[&str]) -> Vec<String> {
    v.iter().map(|s| s.to_string()).collect()
}

#[test]
fn names_match_without_regard_to_case() {
    assert!(names_match("CoreAudio", "coreaudio"));
    assert!(names_match("ÉCRAN", "écran"));
    assert!(!names_match("ALSA", "JACK"));
}

#[test]
fn default_in_any_case_asks_for_the_default() {
    assert!(is_default_name("default"));
    assert!(is_default_name("DeFaUlT"));
    assert!(!is_default_name("defaults"));
}

#[test]
fn host_candidates_are_searched_from_a_position() {
    let hosts = names(&["ALSA", "JACK", "jack"]);
    assert_eq!(next_host_candidate("Jack", &hosts, 0), Some(1));
    assert_eq!(next_host_candidate("Jack", &hosts, 2), Some(2));
    assert_eq!(next_host_candidate("Jack", &hosts, 3), None);
    assert_eq!(next_host_candidate("Pulse", &hosts, 0), None);
    assert_eq!(next_host_candidate("Default", &hosts, 0), None);
}

#[test]
fn devices_are_chosen_by_name() {
    let list = Some(vec![Some("Speakers".to_string()), None, Some("Headphones".to_string()), Some("speakers".to_string())]);
    assert_eq!(choose_device("SPEAKERS", &list), DeviceChoice::Listed(0));
    assert_eq!(choose_device("headphones", &list), DeviceChoice::Listed(2));
    assert_eq!(choose_device("HDMI", &list), DeviceChoice::Default);
    assert_eq!(choose_device("default", &list), DeviceChoice::Default);
    assert_eq!(choose_device("Speakers", &None), DeviceChoice::Default);
}

#[test]
fn selections_are_named_or_none() {
    assert_eq!(host(Some("ALSA".to_string())), "ALSA");
    assert_eq!(host(None), "None");
    assert_eq!(output_device(Some("Speakers".to_string())), "Speakers");
    assert_eq!(output_device(None), "None");
    assert_eq!(input_device(Some("Mic".to_string())), "Mic");
    assert_eq!(input_device(None), "None");
}
