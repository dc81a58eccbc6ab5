use bridge_core::codec::to_json;
use bridge_core::envelope::CommandData;
use bridge_core::probe::{verify_file_openable, FileProbe};

#[test]
fn an_openable_file_passes() {
    let probe = FileProbe::Opened { is_dir: false };
    assert_eq!(verify_file_openable("/tmp/notes.txt", &probe), Ok(()));
}

#[test]
fn a_directory_is_refused_with_the_path_in_the_message() {
    let probe = FileProbe::Opened { is_dir: true };
    let err = verify_file_openable("/var/data", &probe).unwrap_err();
    assert_eq!(err, "Error: \"/var/data\" is a directory.");
    assert!(err.contains("/var/data"));
    assert!(err.contains("directory"));
}

#[test]
fn an_unopenable_path_is_refused_with_the_reported_reason() {
    let probe = FileProbe::OpenFailed("No such file or directory (os error 2)".to_string());
    let err = verify_file_openable("/missing", &probe).unwrap_err();
    assert_eq!(err, "Error: Cannot open \"/missing\": No such file or directory (os error 2)");
}

#[test]
fn a_failed_metadata_query_is_refused_with_the_reported_reason() {
    let probe = FileProbe::MetadataFailed("Permission denied (os error 13)".to_string());
    let err = verify_file_openable("/locked", &probe).unwrap_err();
    assert_eq!(err, "Error: Cannot query metadata on \"/locked\": Permission denied (os error 13)");
}

#[test]
fn a_directory_failure_wrapped_in_an_envelope_serializes_as_a_failure() {
    let probe = FileProbe::Opened { is_dir: true };
    let diagnostic = verify_file_openable("/var/data", &probe).unwrap_err();
    let envelope = CommandData::err("open failed", diagnostic);
    let wire = to_json(&envelope);
    let v: serde_json::Value = serde_json::from_str(&wire).unwrap();
    assert_eq!(v["status"].as_bool(), Some(false));
    assert_eq!(v["message"].as_str(), Some("open failed"));
    assert!(v["data"].as_str().unwrap().contains("directory"));
}
