use std::cell::Cell;

use w4113::config::Config;
use w4113::json::{Json, JsonNumber};

fn text(j: Option<&Json>) -> Option<String> {
    j.and_then(|v| v.as_str()).map(|s| s.to_string())
}

fn path(key: &str) -> Vec<String> {
    key.split('.').map(|s| s.to_string()).collect()
}

#[test]
fn an_empty_config_is_saved_and_null() {
    let c = Config::empty();
    assert!(c.saved());
    assert_eq!(c.path(), "");
    assert_eq!(c.json(), &Json::Null);
}

#[test]
fn a_loaded_config_keeps_its_path_and_document() {
    let c = Config::loaded("public/config.json".to_string(), Json::Bool(true));
    assert!(c.saved());
    assert_eq!(c.path(), "public/config.json");
    assert_eq!(c.json(), &Json::Bool(true));
}

#[test]
fn set_creates_the_objects_along_the_key() {
    let mut c = Config::empty();
    assert!(c.is_settable("audio.output.device"));
    assert_eq!(c.set("audio.output.device", "Speakers"), Ok(()));
    assert!(!c.saved());
    assert_eq!(
        c.json(),
        &Json::Object(vec![(
            "audio".to_string(),
            Json::Object(vec![(
                "output".to_string(),
                Json::Object(vec![("device".to_string(), Json::String("Speakers".to_string()))])
            )])
        )])
    );
}

#[test]
fn a_value_set_is_read_back() {
    let mut c = Config::empty();
    c.set("audio.host", "ALSA").unwrap();
    c.set("audio.output.device", "Speakers").unwrap();
    c.set("audio.host", "JACK").unwrap();
    assert_eq!(text(c.json().lookup(&path("audio.host"))), Some("JACK".to_string()));
    assert_eq!(text(c.json().lookup(&path("audio.output.device"))), Some("Speakers".to_string()));
    let calls = Cell::new(0);
    let got = c.get_or("audio.host", || {
        calls.set(calls.get() + 1);
        "default".to_string()
    });
    assert_eq!(got, Ok("JACK".to_string()));
    assert_eq!(calls.get(), 0);
}

#[test]
fn get_or_stores_the_fallback_when_the_key_holds_no_string() {
    let mut c = Config::loaded("x.json".to_string(), Json::Object(vec![
        ("rate".to_string(), Json::Number(JsonNumber::PosInt(44100))),
    ]));
    assert!(c.saved());
    let got = c.get_or("rate", || "48000".to_string());
    assert_eq!(got, Ok("48000".to_string()));
    assert!(!c.saved());
    assert_eq!(text(c.json().get("rate")), Some("48000".to_string()));
    let again = c.get_or("rate", || "96000".to_string());
    assert_eq!(again, Ok("48000".to_string()));
}

#[test]
fn keys_through_non_objects_cannot_be_set() {
    let mut c = Config::empty();
    c.set("audio", "off").unwrap();
    assert!(!c.is_settable("audio.host"));
    assert!(c.is_settable("audio"));
    assert!(c.is_settable("midi.device"));
}

#[test]
fn saving_is_recorded() {
    let mut c = Config::empty();
    c.set("a", "b").unwrap();
    c.mark_saved();
    assert!(c.saved());
    c.set("a", "c").unwrap();
    c.mark_saved_to("other.json");
    assert!(c.saved());
    assert_eq!(c.path(), "other.json");
}

#[test]
fn an_empty_key_names_the_empty_member() {
    let mut c = Config::empty();
    c.set("", "v").unwrap();
    assert_eq!(c.json(), &Json::Object(vec![("".to_string(), Json::String("v".to_string()))]));
}
