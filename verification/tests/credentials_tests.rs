use cloudflared_gui::credentials::{
    extract_tunnel_uuid, is_credential_file_name, scan_credential_files, uuid_from_output,
    CredentialFile,
};
use cloudflared_gui::pattern::{ansi_regex, find_uuid, strip_ansi, uuid_regex, OutputPatterns};

const U1: &str = "6ba7b810-9dad-11d1-80b4-00c04fd430c8";
const U2: &str = "11111111-2222-3333-4444-555555555555";
const U3: &str = "aaaaaaaa-bbbb-cccc-dddd-eeeeeeeeeeee";

fn patterns() -> OutputPatterns {
    OutputPatterns::new().expect("patterns compile")
}

fn cred(uuid: &str, name: &str, modified: Option<i128>) -> CredentialFile {
    CredentialFile {
        file_name: Some(format!("{}.json", uuid)),
        content: Some(format!(
            "{{\"AccountTag\":\"acc\",\"TunnelSecret\":\"x\",\"TunnelID\":\"{}\",\"TunnelName\":\"{}\"}}",
            uuid, name
        )),
        modified,
    }
}

#[test]
fn fixed_patterns_compile() {
    assert!(uuid_regex().is_some());
    assert!(ansi_regex().is_some());
    assert!(OutputPatterns::new().is_some());
}

#[test]
fn only_uuid_named_json_files_are_read() {
    let p = patterns();
    let files = vec![CredentialFile {
        file_name: Some(format!("backup-{}.json", U1)),
        content: Some(format!("{{\"TunnelID\":\"{}\",\"TunnelName\":\"mc\"}}", U1)),
        modified: Some(5),
    }];
    let err = extract_tunnel_uuid(true, &files, "", "", "mc", &p).unwrap_err();
    assert!(err.starts_with("无法从 cloudflared 输出中提取隧道 UUID。"));
}

#[test]
fn strips_colour_escapes() {
    let p = patterns();
    assert_eq!(strip_ansi("\x1b[32mINF\x1b[0m created", &p), "INF created");
    assert_eq!(strip_ansi("\x1b[1;31mERR\x1b[0m", &p), "ERR");
    assert_eq!(strip_ansi("plain text", &p), "plain text");
}

#[test]
fn stripping_follows_the_escape_shape() {
    let p = patterns();
    assert_eq!(strip_ansi("a\x1b[mb", &p), "ab");
    assert_eq!(strip_ansi("a\x1b[0;1;33Hb", &p), "ab");
    assert_eq!(strip_ansi("\x1b[1;2", &p), "\x1b[1;2");
    assert_eq!(strip_ansi("\x1b[12?x", &p), "\x1b[12?x");
    assert_eq!(strip_ansi("\x1b(0m", &p), "\x1b(0m");
    assert_eq!(strip_ansi("\x1b[\x1b[0mm", &p), "\x1b[m");
    assert_eq!(strip_ansi("", &p), "");
}

#[test]
fn stripping_never_lengthens_and_keeps_escape_free_text() {
    let p = patterns();
    for s in ["\x1b[31mred\x1b[0m", "x\x1b[", "\x1b[0m\x1b[0m", "no escapes: [0m here", "日志"] {
        let out = strip_ansi(s, &p);
        assert!(out.chars().count() <= s.chars().count());
        if !s.contains('\x1b') {
            assert_eq!(out, s);
        }
    }
}

#[test]
fn finds_uuids() {
    let p = patterns();
    let line = format!("Created tunnel mc with id {}", U1);
    assert_eq!(find_uuid(&line, &p).as_deref(), Some(U1));
    assert_eq!(find_uuid(U2, &p).as_deref(), Some(U2));
    assert_eq!(find_uuid("6BA7B810-9DAD-11D1-80B4-00C04FD430C8", &p), None);
    assert_eq!(find_uuid("no id here", &p), None);
}

#[test]
fn finds_the_leftmost_uuid() {
    let p = patterns();
    let line = format!("{} then {}", U3, U1);
    assert_eq!(find_uuid(&line, &p).as_deref(), Some(U3));
    let glued = format!("x{}{}", U2, U1);
    assert_eq!(find_uuid(&glued, &p).as_deref(), Some(U2));
    assert_eq!(find_uuid("6ba7b8106-9dad-11d1-80b4-00c04fd430c8", &p).as_deref(), Some("ba7b8106-9dad-11d1-80b4-00c04fd430c8"));
    assert_eq!(find_uuid("6ba7b810-9dad-11d1-80b4-00c04fd430c", &p), None);
}

#[test]
fn recognises_credentials_file_names() {
    let p = patterns();
    assert!(is_credential_file_name(&format!("{}.json", U1), &p));
    assert!(!is_credential_file_name(&format!("backup-{}.json", U1), &p));
    assert!(!is_credential_file_name(&format!("{}0.json", U1), &p));
    assert!(!is_credential_file_name(&format!("{}.json.bak", U1), &p));
    assert!(!is_credential_file_name("cert.pem", &p));
    assert!(!is_credential_file_name("config.json", &p));
    assert!(!is_credential_file_name(".json", &p));
    assert!(!is_credential_file_name("..", &p));
    assert!(!is_credential_file_name(U1, &p));
}

#[test]
fn credentials_file_that_names_the_tunnel_wins() {
    let p = patterns();
    let files = vec![
        cred(U2, "other", Some(500)),
        cred(U1, "mc", Some(10)),
        cred(U3, "mc", Some(900)),
    ];
    let (named, best) = scan_credential_files(&files, "mc", &p);
    assert_eq!(named.as_deref(), Some(U1));
    assert!(best.is_none());
    assert_eq!(extract_tunnel_uuid(true, &files, "", "", "mc", &p), Ok(U1.to_string()));
}

#[test]
fn newest_credentials_file_is_taken_when_none_names_the_tunnel() {
    let p = patterns();
    let files = vec![
        cred(U2, "a", Some(100)),
        cred(U3, "b", Some(300)),
        cred(U1, "c", Some(300)),
        cred(U1, "d", None),
        CredentialFile { file_name: Some("cert.pem".to_string()), content: Some(String::new()), modified: Some(999) },
    ];
    assert_eq!(extract_tunnel_uuid(true, &files, "", "", "mc", &p), Ok(U3.to_string()));
}

#[test]
fn tunnel_id_spelled_tunnelid_is_accepted() {
    let p = patterns();
    let files = vec![CredentialFile {
        file_name: Some(format!("{}.json", U2)),
        content: Some(format!("{{\"TunnelId\":\"{}\",\"Name\":\"mc\"}}", U2)),
        modified: None,
    }];
    assert_eq!(extract_tunnel_uuid(true, &files, "", "", "mc", &p), Ok(U2.to_string()));
}

#[test]
fn output_is_searched_when_no_credentials_file_helps() {
    let p = patterns();
    let files = vec![CredentialFile { file_name: Some(format!("{}.json", U1)), content: None, modified: Some(1) }];
    let stderr = format!("2024 \x1b[32mINF\x1b[0m Created tunnel mc with id \x1b[1m{}\x1b[0m\n", U2);
    let stdout = format!("id {}\n", U3);
    assert_eq!(extract_tunnel_uuid(true, &files, &stdout, &stderr, "mc", &p), Ok(U2.to_string()));
    assert_eq!(uuid_from_output(&stdout, "nothing\n", &p).as_deref(), Some(U3));
}

#[test]
fn failure_and_missing_home_messages() {
    let p = patterns();
    assert_eq!(
        extract_tunnel_uuid(false, &vec![], U1, "", "mc", &p),
        Err("无法确定用户主目录（$HOME 未设置）".to_string())
    );
    let err = extract_tunnel_uuid(true, &vec![], "  out \n", " err ", "mc", &p).unwrap_err();
    assert_eq!(
        err,
        "无法从 cloudflared 输出中提取隧道 UUID。\n原始 stdout:\nout\n原始 stderr:\nerr\n请检查 ~/.cloudflared/ 目录下是否存在 <uuid>.json 凭证文件。"
    );
}
