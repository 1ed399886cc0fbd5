use cursor_helper::error::AuthError;
use cursor_helper::identity::{
    generate_identity, read_document, reset_document, update_storage_file, DeviceIdentitySet,
};

const A: [u8; 16] = [0x00, 0x01, 0x02, 0x03, 0x04, 0x05, 0x46, 0x07, 0x88, 0x09, 0x0a, 0x0b, 0x0c, 0x0d, 0x0e, 0x0f];
const B: [u8; 16] = [0xff, 0xee, 0xdd, 0xcc, 0xbb, 0xaa, 0x49, 0x98, 0xb7, 0x76, 0x65, 0x54, 0x43, 0x32, 0x21, 0x10];

fn sample() -> DeviceIdentitySet {
    DeviceIdentitySet::from_identifiers((&A, &B), (&B, &A), &A, &B)
}

fn is_lower_hex(c: char) -> bool {
    c.is_ascii_digit() || ('a'..='f').contains(&c)
}

fn is_upper_hex(c: char) -> bool {
    c.is_ascii_digit() || ('A'..='F').contains(&c)
}

fn has_usual_form(text: &str, digit: fn(char) -> bool) -> bool {
    text.chars().count() == 36
        && text.chars().enumerate().all(|(i, c)| if [8, 13, 18, 23].contains(&i) { c == '-' } else { digit(c) })
}

#[test]
fn identifiers_have_their_exact_forms() {
    let ids = sample();
    assert_eq!(ids.machine_id, "000102030405460788090a0b0c0d0e0fffeeddccbbaa4998b776655443322110");
    assert_eq!(ids.mac_machine_id, "ffeeddccbbaa4998b776655443322110000102030405460788090a0b0c0d0e0f");
    assert_eq!(ids.dev_device_id, "00010203-0405-4607-8809-0a0b0c0d0e0f");
    assert_eq!(ids.sqm_id, "{FFEEDDCC-BBAA-4998-B776-655443322110}");
}

#[test]
fn identifiers_agree_with_the_uuid_crate() {
    let id = uuid::Uuid::from_bytes(A);
    let other = uuid::Uuid::from_bytes(B);
    let ids = sample();
    assert_eq!(ids.machine_id, format!("{}{}", id.simple(), other.simple()));
    assert_eq!(ids.dev_device_id, id.to_string());
    assert_eq!(ids.sqm_id, format!("{{{}}}", other.to_string().to_uppercase()));
}

#[test]
fn generated_identity_has_the_documented_forms() {
    let ids = generate_identity();
    assert_eq!(ids.machine_id.len(), 64);
    assert!(ids.machine_id.chars().all(is_lower_hex));
    assert_eq!(ids.mac_machine_id.len(), 64);
    assert!(ids.mac_machine_id.chars().all(is_lower_hex));
    assert!(has_usual_form(&ids.dev_device_id, is_lower_hex));
    assert!(ids.sqm_id.starts_with('{') && ids.sqm_id.ends_with('}'));
    assert_eq!(ids.sqm_id.len(), 38);
    assert!(has_usual_form(&ids.sqm_id[1..37], is_upper_hex));
    assert_eq!(uuid::Uuid::parse_str(&ids.dev_device_id).unwrap().get_version_num(), 4);
    assert_eq!(&ids.machine_id[12..13], "4");
    assert_eq!(&ids.machine_id[44..45], "4");
}

#[test]
fn two_generated_identities_differ_in_every_field() {
    let first = generate_identity();
    let second = generate_identity();
    assert_ne!(first.machine_id, second.machine_id);
    assert_ne!(first.mac_machine_id, second.mac_machine_id);
    assert_ne!(first.dev_device_id, second.dev_device_id);
    assert_ne!(first.sqm_id, second.sqm_id);
    assert_ne!(first.machine_id, first.mac_machine_id);
}

#[test]
fn absent_document_gets_the_four_identifiers() {
    let ids = generate_identity();
    let text = update_storage_file(None, &ids).unwrap();
    let document: serde_json::Value = serde_json::from_str(&text).unwrap();
    let members = document.as_object().unwrap();
    assert_eq!(members.len(), 4);
    assert_eq!(document["telemetry.machineId"].as_str(), Some(ids.machine_id.as_str()));
    assert_eq!(document["telemetry.macMachineId"].as_str(), Some(ids.mac_machine_id.as_str()));
    assert_eq!(document["telemetry.devDeviceId"].as_str(), Some(ids.dev_device_id.as_str()));
    assert_eq!(document["telemetry.sqmId"].as_str(), Some(ids.sqm_id.as_str()));
}

#[test]
fn document_text_is_exact_and_pretty() {
    let text = update_storage_file(Some(r#"{"zeta":[1,2],"alpha":true}"#), &sample()).unwrap();
    let expected = "{\n  \"alpha\": true,\n  \"telemetry.devDeviceId\": \"00010203-0405-4607-8809-0a0b0c0d0e0f\",\n  \"telemetry.macMachineId\": \"ffeeddccbbaa4998b776655443322110000102030405460788090a0b0c0d0e0f\",\n  \"telemetry.machineId\": \"000102030405460788090a0b0c0d0e0fffeeddccbbaa4998b776655443322110\",\n  \"telemetry.sqmId\": \"{FFEEDDCC-BBAA-4998-B776-655443322110}\",\n  \"zeta\": [\n    1,\n    2\n  ]\n}";
    assert_eq!(text, expected);
}

#[test]
fn reset_keeps_unrelated_members_over_two_resets() {
    let before = r#"{"theme":"dark","nested":{"a":[1,2.5,null]},"telemetry.machineId":"old","n":-3}"#;
    let first = generate_identity();
    let second = generate_identity();
    let once = update_storage_file(Some(before), &first).unwrap();
    let twice = update_storage_file(Some(&once), &second).unwrap();
    let document: serde_json::Value = serde_json::from_str(&twice).unwrap();
    let original: serde_json::Value = serde_json::from_str(before).unwrap();
    assert_eq!(document["theme"], original["theme"]);
    assert_eq!(document["nested"], original["nested"]);
    assert_eq!(document["n"], original["n"]);
    assert_eq!(document.as_object().unwrap().len(), 7);
    assert_eq!(document["telemetry.machineId"].as_str(), Some(second.machine_id.as_str()));
    assert_eq!(document["telemetry.sqmId"].as_str(), Some(second.sqm_id.as_str()));
    assert_eq!(twice, update_storage_file(Some(before), &second).unwrap());
}

#[test]
fn second_reset_extends_the_document_of_the_first() {
    let first = update_storage_file(None, &sample()).unwrap();
    assert!(serde_json::from_str::<serde_json::Value>(&first).unwrap().is_object());
    let ids = generate_identity();
    let second = update_storage_file(Some(&first), &ids).unwrap();
    let document: serde_json::Value = serde_json::from_str(&second).unwrap();
    assert_eq!(document.as_object().unwrap().len(), 4);
    assert_eq!(document["telemetry.devDeviceId"].as_str(), Some(ids.dev_device_id.as_str()));
}

#[test]
fn unreadable_document_counts_as_absent() {
    let ids = sample();
    let fresh = update_storage_file(None, &ids);
    assert_eq!(update_storage_file(Some("{ not json"), &ids), fresh);
    assert_eq!(update_storage_file(Some(""), &ids), fresh);
    assert_eq!(update_storage_file(Some("[1,2,3]"), &ids), fresh);
    assert_eq!(update_storage_file(Some("null"), &ids), fresh);
    assert_eq!(update_storage_file(Some("\"text\""), &ids), fresh);
    assert!(!matches!(fresh, Err(AuthError::Io(_))));
}

#[test]
fn rewrite_succeeds_on_every_kind_of_text() {
    let ids = sample();
    for existing in [None, Some(""), Some("not json{"), Some("[1,2]"), Some("42"), Some("null"), Some("{}"), Some(r#"{"a":{"b":[1.5e300,-0.0,null,true,"é\u0000"]}}"#)] {
        let text = update_storage_file(existing, &ids);
        assert!(text.is_ok(), "{:?}", existing);
        assert!(serde_json::from_str::<serde_json::Value>(&text.unwrap()).unwrap().is_object());
    }
}

#[test]
fn document_with_an_old_identifier_is_rewritten_twice() {
    let mut text = String::from(r#"{"theme":"dark","telemetry.machineId":"old"}"#);
    for _ in 0..2 {
        text = update_storage_file(Some(&text), &generate_identity()).unwrap();
        let document: serde_json::Value = serde_json::from_str(&text).unwrap();
        assert_eq!(document.as_object().unwrap().len(), 5);
        assert_eq!(document["theme"].as_str(), Some("dark"));
        assert_ne!(document["telemetry.machineId"].as_str(), Some("old"));
    }
}

#[test]
fn document_of_a_reset_is_extended_by_the_next() {
    let first = update_storage_file(None, &sample()).unwrap();
    let mut document: serde_json::Value = serde_json::from_str(&first).unwrap();
    assert_eq!(document.as_object().unwrap().len(), 4);
    document.as_object_mut().unwrap().insert(String::from("k"), serde_json::Value::String(String::from("v")));
    let extended = serde_json::to_string(&document).unwrap();
    let second = update_storage_file(Some(&extended), &generate_identity()).unwrap();
    let after: serde_json::Value = serde_json::from_str(&second).unwrap();
    assert_eq!(after.as_object().unwrap().len(), 5);
    assert_eq!(after["k"].as_str(), Some("v"));
}

#[test]
fn read_document_gives_the_object_or_an_empty_one() {
    let object = read_document(Some(r#"{"a":1}"#));
    assert_eq!(object, serde_json::from_str::<serde_json::Value>(r#"{"a":1}"#).unwrap());
    assert_eq!(read_document(None), serde_json::Value::Object(serde_json::Map::new()));
    assert_eq!(read_document(Some("oops")), serde_json::Value::Object(serde_json::Map::new()));
}

#[test]
fn reset_document_sets_texts_on_any_value() {
    let ids = sample();
    let from_number = reset_document(serde_json::Value::Bool(true), &ids);
    assert_eq!(from_number.as_object().unwrap().len(), 4);
    let kept = reset_document(serde_json::from_str(r#"{"telemetry.sqmId":5,"x":"y"}"#).unwrap(), &ids);
    assert_eq!(kept["x"].as_str(), Some("y"));
    assert_eq!(kept["telemetry.sqmId"].as_str(), Some("{FFEEDDCC-BBAA-4998-B776-655443322110}"));
    assert_eq!(kept.as_object().unwrap().len(), 5);
}
