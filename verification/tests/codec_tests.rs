use bridge_core::codec::{from_json, to_json};
use bridge_core::envelope::CommandData;

#[test]
fn round_trip_with_absent_payload() {
    let e = CommandData::<String> { data: None, message: "nothing here".to_string(), status: true };
    let wire = to_json(&e);
    let back = from_json(&wire).unwrap();
    assert_eq!(back.data, None);
    assert_eq!(back.message, "nothing here");
    assert!(back.status);
}

#[test]
fn round_trip_with_present_payload() {
    let e = CommandData::ok("fetched", "the result".to_string());
    let wire = to_json(&e);
    let back = from_json(&wire).unwrap();
    assert_eq!(back.data.as_deref(), Some("the result"));
    assert_eq!(back.message, "fetched");
    assert!(back.status);
}

#[test]
fn round_trip_of_a_failure() {
    let e = CommandData::err("open failed", "partial".to_string());
    let wire = to_json(&e);
    let back = from_json(&wire).unwrap();
    assert_eq!(back.data.as_deref(), Some("partial"));
    assert_eq!(back.message, "open failed");
    assert!(!back.status);
}

#[test]
fn round_trip_with_characters_that_need_escaping() {
    let e = CommandData::ok("a \"quoted\" \\ message\nwith a line break", "tab\there".to_string());
    let wire = to_json(&e);
    let back = from_json(&wire).unwrap();
    assert_eq!(back.data.as_deref(), Some("tab\there"));
    assert_eq!(back.message, "a \"quoted\" \\ message\nwith a line break");
    assert!(back.status);
}

#[test]
fn exact_wire_form_of_a_success() {
    let e = CommandData::ok("done", "value".to_string());
    assert_eq!(to_json(&e), "{\"data\":\"value\",\"message\":\"done\",\"status\":true}");
}

#[test]
fn exact_wire_form_escapes_quote_backslash_and_controls() {
    let e = CommandData::ok("x\"y\\z\n", "".to_string());
    assert_eq!(
        to_json(&e),
        "{\"data\":\"\",\"message\":\"x\\u0022y\\u005cz\\u000a\",\"status\":true}"
    );
}

#[test]
fn decoder_reads_escapes_back() {
    let back = from_json("{\"data\":null,\"message\":\"a\\u0022b\\u005Cc\\u0009d\",\"status\":true}")
        .unwrap();
    assert_eq!(back.message, "a\"b\\c\td");
    assert_eq!(back.data, None);
}

#[test]
fn decoder_rejects_texts_the_encoder_cannot_produce() {
    assert!(from_json("").is_none());
    assert!(from_json("{}").is_none());
    assert!(from_json("{\"data\":1,\"message\":\"m\",\"status\":true}").is_none());
    assert!(from_json("{\"data\":null,\"message\":\"m\",\"status\":maybe}").is_none());
    assert!(from_json("{\"data\":null,\"message\":\"m\",\"status\":true").is_none());
    assert!(from_json("{\"data\":null,\"message\":\"unterminated,\"status\":true}").is_none());
    assert!(from_json("{\"data\":null,\"message\":\"bad \\escape\",\"status\":true}").is_none());
}

#[test]
fn wire_form_agrees_with_a_standard_json_reader() {
    let e = CommandData::ok("quote \" and slash \\", "line\nbreak".to_string());
    let wire = to_json(&e);
    let v: serde_json::Value = serde_json::from_str(&wire).unwrap();
    assert_eq!(v["data"].as_str(), Some("line\nbreak"));
    assert_eq!(v["message"].as_str(), Some("quote \" and slash \\"));
    assert_eq!(v["status"].as_bool(), Some(true));
}
