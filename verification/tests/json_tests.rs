use w4113::json::{Json, JsonNumber};

fn doc() -> Json {
    Json::Object(vec![
        ("strip".to_string(), Json::Number(JsonNumber::PosInt(2))),
        ("option".to_string(), Json::String("Delay".to_string())),
        ("neg".to_string(), Json::Number(JsonNumber::NegInt(-3))),
        ("f".to_string(), Json::Number(JsonNumber::Float("0.5".to_string()))),
        ("strip".to_string(), Json::Number(JsonNumber::PosInt(9))),
        ("inner".to_string(), Json::Object(vec![("k".to_string(), Json::Bool(false))])),
    ])
}

#[test]
fn members_are_found_by_key_first_one_wins() {
    let d = doc();
    assert_eq!(d.get("strip").and_then(|j| j.as_u64()), Some(2));
    assert_eq!(d.get("option").and_then(|j| j.as_str()), Some("Delay"));
    assert_eq!(d.get("missing"), None);
    assert_eq!(Json::Null.get("x"), None);
    assert_eq!(Json::Array(vec![Json::Null]).get("0"), None);
}

#[test]
fn only_non_negative_integers_read_as_u64() {
    let d = doc();
    assert_eq!(d.get("neg").and_then(|j| j.as_u64()), None);
    assert_eq!(d.get("f").and_then(|j| j.as_u64()), None);
    assert_eq!(d.get("option").and_then(|j| j.as_u64()), None);
    assert!(d.get("option").unwrap().is_string());
    assert!(!d.get("neg").unwrap().is_string());
}

#[test]
fn lookups_follow_paths() {
    let d = doc();
    let p = vec!["inner".to_string(), "k".to_string()];
    assert_eq!(d.lookup(&p), Some(&Json::Bool(false)));
    let q = vec!["inner".to_string(), "k".to_string(), "deeper".to_string()];
    assert_eq!(d.lookup(&q), None);
    assert_eq!(d.lookup(&Vec::new()), Some(&d));
}

#[test]
fn puts_replace_the_first_member_and_keep_the_rest() {
    let p = vec!["strip".to_string()];
    assert!(doc().can_put(&p));
    let d = doc().put(&p, Json::Bool(true));
    assert_eq!(d.get("strip"), Some(&Json::Bool(true)));
    assert_eq!(d.get("option").and_then(|j| j.as_str()), Some("Delay"));
    if let Json::Object(es) = &d {
        assert_eq!(es.len(), 6);
        assert_eq!(es[4].1, Json::Number(JsonNumber::PosInt(9)));
    } else {
        panic!("not an object");
    }
}

#[test]
fn puts_through_scalars_are_not_allowed() {
    let p = vec!["option".to_string(), "x".to_string()];
    assert!(!doc().can_put(&p));
    let q = vec!["inner".to_string(), "k".to_string(), "x".to_string()];
    assert!(!doc().can_put(&q));
    let r = vec!["new".to_string(), "x".to_string()];
    assert!(doc().can_put(&r));
}
