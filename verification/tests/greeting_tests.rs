use bridge_core::codec::to_json;
use bridge_core::greeting::{greet, greet_handler};

#[test]
fn greets_by_name() {
    assert_eq!(greet("Ada"), "Hello, Ada! You've been greeted.");
    assert_eq!(greet(""), "Hello, ! You've been greeted.");
}

#[test]
fn greeting_handler_reports_success_end_to_end() {
    let envelope = greet_handler("Ada");
    assert!(envelope.status);
    assert_eq!(envelope.message, "greeted");
    assert_eq!(envelope.data.as_deref(), Some("Hello, Ada! You've been greeted."));

    let wire = to_json(&envelope);
    let v: serde_json::Value = serde_json::from_str(&wire).unwrap();
    assert_eq!(v["status"].as_bool(), Some(true));
    assert_eq!(v["data"].as_str(), Some("Hello, Ada! You've been greeted."));
    assert_eq!(v["message"].as_str(), Some("greeted"));
}
