use cloudflared_gui::json_field::extract_json_string_field;

#[test]
fn reads_a_string_field() {
    let json = r#"{"AccountTag":"acc","TunnelSecret":"s3cr3t","TunnelID":"6ba7b810-9dad-11d1-80b4-00c04fd430c8"}"#;
    assert_eq!(
        extract_json_string_field(json, "TunnelID").as_deref(),
        Some("6ba7b810-9dad-11d1-80b4-00c04fd430c8")
    );
    assert_eq!(extract_json_string_field(json, "AccountTag").as_deref(), Some("acc"));
}

#[test]
fn missing_or_unterminated_field_gives_none() {
    assert_eq!(extract_json_string_field(r#"{"A":"x"}"#, "TunnelID"), None);
    assert_eq!(extract_json_string_field(r#"{"TunnelID":"abc"#, "TunnelID"), None);
    assert_eq!(extract_json_string_field(r#"{"TunnelID": "abc"}"#, "TunnelID"), None);
}

#[test]
fn first_occurrence_wins_and_empty_values_are_read() {
    let json = r#"{"K":"one","K":"two","E":""}"#;
    assert_eq!(extract_json_string_field(json, "K").as_deref(), Some("one"));
    assert_eq!(extract_json_string_field(json, "E").as_deref(), Some(""));
}

#[test]
fn written_field_reads_back() {
    for (before, value, after) in [("{", "v1", "}"), ("", "", ""), (r#"{"X":"y","#, "héllo", ",\"Z\":1}")] {
        let json = format!("{}\"Key\":\"{}\"{}", before, value, after);
        assert_eq!(extract_json_string_field(&json, "Key").as_deref(), Some(value));
    }
}
