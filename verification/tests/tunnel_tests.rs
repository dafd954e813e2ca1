use cloudflared_gui::tunnel::{
    client_tunnel_launch, command_outcome, create_tunnel_args, create_tunnel_outcome,
    delete_tunnel_args, delete_tunnel_outcome, failure_text, parse_tunnel_line, parse_tunnel_list,
    port_ok, server_tunnel_launch, temp_tunnel_launch, tunnel_name_ok,
};

const LISTING: &str = "You can obtain more detailed information for each tunnel with `cloudflared tunnel info <name/uuid>`
ID                                   NAME CREATED              CONNECTIONS
6ba7b810-9dad-11d1-80b4-00c04fd430c8 mc   2024-01-01T00:00:00Z 2xHKG, 2xLAX
11111111-2222-3333-4444-555555555555 web  2024-02-01T00:00:00Z

---- ignored
short line
";

#[test]
fn parses_the_tunnel_listing() {
    let rows = parse_tunnel_list(LISTING);
    assert_eq!(rows.len(), 2);
    assert_eq!(rows[0].id, "6ba7b810-9dad-11d1-80b4-00c04fd430c8");
    assert_eq!(rows[0].name, "mc");
    assert_eq!(rows[0].created, "2024-01-01T00:00:00Z");
    assert_eq!(rows[0].connections, "2xHKG, 2xLAX");
    assert_eq!(rows[1].name, "web");
    assert_eq!(rows[1].connections, "");
}

#[test]
fn a_written_row_reads_back() {
    let line = "abc name 2024 1xAMS 2xFRA";
    let rows = parse_tunnel_list(line);
    assert_eq!(rows.len(), 1);
    assert_eq!((rows[0].id.as_str(), rows[0].name.as_str(), rows[0].created.as_str()), ("abc", "name", "2024"));
    assert_eq!(rows[0].connections, "1xAMS 2xFRA");
    assert!(parse_tunnel_line("ID name 2024").is_none());
}

#[test]
fn validates_names_and_ports() {
    assert!(tunnel_name_ok("  mc  "));
    assert!(!tunnel_name_ok("   "));
    assert!(!tunnel_name_ok("mc-1"));
    assert!(port_ok(" 25565 "));
    assert!(port_ok("0"));
    assert!(!port_ok("65536"));
    assert!(!port_ok(""));
    assert!(!port_ok("80a"));
}

#[test]
fn create_command_and_outcome() {
    assert_eq!(create_tunnel_args(" mc ").unwrap(), vec!["tunnel", "create", "mc"]);
    assert_eq!(
        create_tunnel_args("m c").unwrap_err(),
        "隧道名不能为空且只能包含纯字母 (a-z, A-Z)"
    );
    assert_eq!(create_tunnel_outcome(true, "made", "log"), Ok("made".to_string()));
    assert_eq!(create_tunnel_outcome(true, "  \n", "log"), Ok("log".to_string()));
    assert_eq!(create_tunnel_outcome(false, "out", "err"), Err("err".to_string()));
    assert_eq!(create_tunnel_outcome(false, "out", "  "), Err("out".to_string()));
}

#[test]
fn delete_command_and_outcome() {
    assert_eq!(delete_tunnel_args(" id-1 ").unwrap(), vec!["tunnel", "delete", "-f", "id-1"]);
    assert_eq!(delete_tunnel_args(" ").unwrap_err(), "隧道 ID / 名称不能为空");
    assert_eq!(delete_tunnel_outcome(" mc ", true, "", ""), Ok("隧道 [mc] 已成功删除".to_string()));
    assert_eq!(
        delete_tunnel_outcome("mc", false, "", "error 1022: active connections"),
        Err("error 1022: active connections".to_string())
    );
}

#[test]
fn subcommand_outcome() {
    assert_eq!(command_outcome(true, "o".into(), "e".into()), Ok(("o".to_string(), "e".to_string())));
    assert_eq!(command_outcome(false, "o".into(), "".into()), Err("o".to_string()));
    assert_eq!(command_outcome(false, "o".into(), " \n".into()), Err("o".to_string()));
    assert_eq!(command_outcome(false, "o".into(), "e".into()), Err("e\no".to_string()));
    assert_eq!(command_outcome(false, "".into(), "e".into()), Err("e".to_string()));
    assert_eq!(failure_text("o", "\n e"), "\n e");
}

#[test]
fn server_tunnel_launch_plan() {
    let l = server_tunnel_launch(" mc ", " 25565 ").unwrap();
    assert_eq!(l.args, vec!["tunnel", "--name", "mc", "--url", "tcp://127.0.0.1:25565"]);
    assert_eq!(l.message, "已启动服务端隧道 [mc] 本地转发端口 [25565]");
    assert_eq!(server_tunnel_launch("mc1", "80").unwrap_err(), "隧道名字必须为纯字母");
    assert_eq!(server_tunnel_launch("mc", "http").unwrap_err(), "端口号必须为 1-65535 的纯数字");
}

#[test]
fn temp_tunnel_launch_plan() {
    let l = temp_tunnel_launch("8080").unwrap();
    assert_eq!(l.args, vec!["tunnel", "--url", "tcp://localhost:8080"]);
    assert_eq!(l.message, "已启动免配置临时隧道 (转发端口: 8080)，正在连接 Cloudflare 获取临时域名...");
    assert_eq!(temp_tunnel_launch("70000").unwrap_err(), "端口号必须为 1-65535 的纯数字");
}

#[test]
fn client_tunnel_launch_plan() {
    let l = client_tunnel_launch(" mc.example.com ", "25565").unwrap();
    assert_eq!(
        l.args,
        vec!["access", "tcp", "--hostname", "mc.example.com", "--url", "tcp://127.0.0.1:25565"]
    );
    assert_eq!(l.message, "已连接客户端隧道 [mc.example.com] -> 本地监听端口 [25565]");
    assert_eq!(client_tunnel_launch("", "1").unwrap_err(), "隧道域名不能为空");
    assert_eq!(client_tunnel_launch("a.b", "x").unwrap_err(), "本地监听端口必须为 1-65535 的纯数字");
}
