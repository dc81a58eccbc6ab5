use bridge_core::codec::to_json;
use bridge_core::envelope::CommandData;

#[test]
fn ok_sets_every_field() {
    let e = CommandData::ok("fetched", 42u32);
    assert_eq!(e.data, Some(42));
    assert_eq!(e.message, "fetched");
    assert!(e.status);
}

#[test]
fn ok_accepts_empty_message() {
    let e = CommandData::ok("", "payload".to_string());
    assert_eq!(e.data.as_deref(), Some("payload"));
    assert_eq!(e.message, "");
    assert!(e.status);
}

#[test]
fn err_sets_every_field() {
    let e = CommandData::err("broke", 7u32);
    assert_eq!(e.data, Some(7));
    assert_eq!(e.message, "broke");
    assert!(!e.status);
}

#[test]
fn default_is_success_without_data() {
    let e = CommandData::<u32>::default();
    assert_eq!(e.data, None);
    assert!(e.status);
    assert_eq!(e.message, "returned data form core");
}

#[test]
fn identical_inputs_build_identical_envelopes() {
    let a = CommandData::ok("same", "thing".to_string());
    let b = CommandData::ok("same", "thing".to_string());
    assert_eq!(a.data, b.data);
    assert_eq!(a.message, b.message);
    assert_eq!(a.status, b.status);

    let c = CommandData::err("same", 9u64);
    let d = CommandData::err("same", 9u64);
    assert_eq!(c.data, d.data);
    assert_eq!(c.message, d.message);
    assert_eq!(c.status, d.status);
}

#[test]
fn rendering_shows_every_field() {
    let e = CommandData::ok("done", "value".to_string());
    assert_eq!(e.render(), "data: Some(\"value\")\nmessage: done,\nstatus: true\n");
    let d = CommandData::<String>::default();
    assert_eq!(d.render(), "data: None\nmessage: returned data form core,\nstatus: true\n");
}

#[test]
fn failure_without_payload_still_serializes_data_as_null() {
    let e = CommandData::<String> { data: None, message: "failed".to_string(), status: false };
    let wire = to_json(&e);
    assert_eq!(wire, "{\"data\":null,\"message\":\"failed\",\"status\":false}");

    let v: serde_json::Value = serde_json::from_str(&wire).unwrap();
    let obj = v.as_object().unwrap();
    assert!(obj.contains_key("data"));
    assert!(obj["data"].is_null());
    assert_eq!(obj["status"], serde_json::Value::Bool(false));
}
