use cloudflared_gui::logs::{
    classify_stderr_line, log_entry, misc_entry, process_line_entry, started_entry, stop_report,
    LogLevel, LogSource, LoginWatcher, MiscEvent,
};

#[test]
fn classifies_stderr_lines() {
    assert_eq!(classify_stderr_line("2024 ERR failed to connect"), LogLevel::Error);
    assert_eq!(classify_stderr_line("an error and a warn"), LogLevel::Error);
    assert_eq!(classify_stderr_line("2024 WRN retrying"), LogLevel::Warn);
    assert_eq!(classify_stderr_line("warning: slow"), LogLevel::Warn);
    assert_eq!(classify_stderr_line("2024 INF Registered"), LogLevel::Info);
    assert_eq!(classify_stderr_line("Error upper case"), LogLevel::Info);
}

#[test]
fn log_entries() {
    let e = process_line_entry("2024 ERR x".to_string(), true, LogSource::Server);
    assert_eq!((e.message.as_str(), e.level.as_str(), e.source.as_str()), ("2024 ERR x", "error", "server"));
    let e = process_line_entry("2024 ERR x".to_string(), false, LogSource::Client);
    assert_eq!((e.level.as_str(), e.source.as_str()), ("info", "client"));
    let e = started_entry("已启动", LogSource::Server);
    assert_eq!((e.message.as_str(), e.level.as_str()), ("[INFO] 已启动", "success"));
    let e = log_entry("m".to_string(), LogLevel::Warn, LogSource::Misc);
    assert_eq!((e.level.as_str(), e.source.as_str()), ("warn", "misc"));
}

#[test]
fn stop_reports() {
    let (log, reply) = stop_report(true, false);
    let log = log.unwrap();
    assert_eq!((log.message.as_str(), log.level.as_str(), log.source.as_str()), ("[INFO] 服务端隧道已停止", "warn", "server"));
    assert_eq!(reply, "服务端隧道已停止");
    let (log, reply) = stop_report(true, true);
    assert_eq!(log.unwrap().message, "[INFO] 客户端连接已断开");
    assert_eq!(reply, "客户端连接已断开");
    let (log, reply) = stop_report(false, false);
    assert!(log.is_none());
    assert_eq!(reply, "当前没有正在运行的服务端隧道");
    assert_eq!(stop_report(false, true).1, "当前没有正在运行的客户端连接");
}

#[test]
fn maintenance_entries() {
    let e = misc_entry(MiscEvent::UpdateChecking, "/opt/cloudflared");
    assert_eq!(e.message, "[INFO] 正在检查 cloudflared 更新 (当前目标路径: /opt/cloudflared)...");
    assert_eq!((e.level.as_str(), e.source.as_str()), ("info", "misc"));
    let e = misc_entry(MiscEvent::WriteFailed, "disk full");
    assert_eq!((e.message.as_str(), e.level.as_str()), ("[ERROR] 写入文件失败: disk full", "error"));
    let e = misc_entry(MiscEvent::Installed, "/x/cloudflared");
    assert_eq!(e.level, "success");
    assert_eq!(e.message, "[SUCCESS] [下载进度 100%] cloudflared 安装成功！程序已保存至应用根目录: /x/cloudflared");
    let e = misc_entry(MiscEvent::LoginStarted, "");
    assert_eq!(e.message, "[INFO] 已启动 Cloudflared 授权，正在获取登录链接...");
}

#[test]
fn login_link_is_opened_once() {
    let mut w = LoginWatcher::new();
    let s = w.on_line("Please open the following URL:".to_string());
    assert!(s.open_url.is_none());
    assert!(!w.opened);
    assert_eq!(s.line_entry.message, "Please open the following URL:");
    let s = w.on_line("  see https://dash.cloudflare.com/argotunnel?callback=abc now".to_string());
    assert_eq!(s.open_url.as_deref(), Some("https://dash.cloudflare.com/argotunnel?callback=abc"));
    let opened = s.opened_entry.unwrap();
    assert_eq!(opened.message, "[INFO] 已自动在默认浏览器中打开授权链接: https://dash.cloudflare.com/argotunnel?callback=abc");
    assert_eq!(opened.level, "success");
    assert!(w.opened);
    let s = w.on_line("https://again.example".to_string());
    assert!(s.open_url.is_none());
    assert!(s.opened_entry.is_none());
    assert_eq!(s.line_entry.level, "info");
}
