use secret_pick::secret::find_secret_by_name;
use secret_pick::secret::payload_keys;
use secret_pick::secret::render_selected;
use secret_pick::secret::RenderError;
use secret_pick::secret::Rendered;
use secret_pick::secret::SecretRecord;

fn record(name: &str, payload: Option<Vec<(&str, &[u8])>>) -> SecretRecord {
    SecretRecord {
        namespace: "default".to_string(),
        name: name.to_string(),
        payload: payload.map(|entries| {
            entries
                .into_iter()
                .map(|(k, v)| (k.to_string(), v.to_vec()))
                .collect()
        }),
    }
}

#[test]
fn renders_the_selected_key_and_decoded_value() {
    let rec = record(
        "creds",
        Some(vec![("password", b"s3cr3t".as_slice()), ("user", b"alice".as_slice())]),
    );
    let shown = render_selected(&rec, &"user".to_string());
    assert_eq!(
        shown,
        Ok(Rendered { key: "user".to_string(), value: "alice".to_string() })
    );
}

#[test]
fn invalid_bytes_fail_with_decode_error() {
    let rec = record("creds", Some(vec![("bin", [0xff, 0xfe, 0xfd].as_slice())]));
    let shown = render_selected(&rec, &"bin".to_string());
    assert_eq!(shown, Err(RenderError::DecodeError));
}

#[test]
fn truncated_multibyte_sequence_fails_with_decode_error() {
    // the first byte of a two-byte UTF-8 sequence, with nothing after it
    let rec = record("creds", Some(vec![("bad", [0xc3].as_slice())]));
    let shown = render_selected(&rec, &"bad".to_string());
    assert_eq!(shown, Err(RenderError::DecodeError));
}

#[test]
fn multibyte_text_decodes_exactly() {
    let rec = record("creds", Some(vec![("greeting", "héllo wörld".as_bytes())]));
    let shown = render_selected(&rec, &"greeting".to_string());
    assert_eq!(
        shown,
        Ok(Rendered { key: "greeting".to_string(), value: "héllo wörld".to_string() })
    );
}

#[test]
fn empty_value_decodes_to_empty_text() {
    let rec = record("creds", Some(vec![("empty", b"".as_slice())]));
    let shown = render_selected(&rec, &"empty".to_string());
    assert_eq!(shown, Ok(Rendered { key: "empty".to_string(), value: String::new() }));
}

#[test]
fn missing_payload_fails_with_payload_missing() {
    let rec = record("bare", None);
    assert_eq!(payload_keys(&rec), Err(RenderError::PayloadMissing));
    assert_eq!(render_selected(&rec, &"user".to_string()), Err(RenderError::PayloadMissing));
}

#[test]
fn absent_key_fails_with_key_vanished() {
    let rec = record("creds", Some(vec![("user", b"alice".as_slice())]));
    let shown = render_selected(&rec, &"password".to_string());
    assert_eq!(shown, Err(RenderError::KeyVanished));
}

#[test]
fn empty_payload_has_no_keys_and_every_key_vanishes() {
    let rec = record("empty", Some(vec![]));
    assert_eq!(payload_keys(&rec), Ok(Vec::new()));
    assert_eq!(render_selected(&rec, &"any".to_string()), Err(RenderError::KeyVanished));
}

#[test]
fn payload_keys_come_in_payload_order() {
    let rec = record(
        "creds",
        Some(vec![("password", b"s3cr3t".as_slice()), ("user", b"alice".as_slice())]),
    );
    let keys = payload_keys(&rec).unwrap();
    assert_eq!(keys, vec!["password".to_string(), "user".to_string()]);
}

#[test]
fn find_secret_by_name_returns_the_first_match() {
    let records = vec![
        record("alpha", None),
        record("beta", None),
        record("beta", Some(vec![])),
    ];
    assert_eq!(find_secret_by_name(&records, &"beta".to_string()), Some(1));
    assert_eq!(find_secret_by_name(&records, &"alpha".to_string()), Some(0));
    assert_eq!(find_secret_by_name(&records, &"gamma".to_string()), None);
}

#[test]
fn secret_names_follow_record_order() {
    let records = vec![record("one", None), record("two", None)];
    assert_eq!(
        secret_pick::secret::secret_names(&records),
        vec!["one".to_string(), "two".to_string()]
    );
}
