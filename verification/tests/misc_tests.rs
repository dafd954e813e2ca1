use cloudflared_gui::download::{content_length, should_report_progress, temp_file_name};
use cloudflared_gui::window::{
    click_command, menu_command, open_config_dir_error, open_url_error, toggle_maximized, TrayClick,
    TrayCommand,
};

#[test]
fn content_length_header() {
    assert_eq!(content_length(Some("41943040")), 41943040);
    assert_eq!(content_length(Some("+7")), 7);
    assert_eq!(content_length(Some("abc")), 0);
    assert_eq!(content_length(Some(" 5")), 0);
    assert_eq!(content_length(None), 0);
}

#[test]
fn download_helpers() {
    assert_eq!(temp_file_name("cloudflared-linux-amd64"), "cloudflared-linux-amd64.tmp");
    assert!(should_report_progress(5, 0, 10));
    assert!(!should_report_progress(4, 0, 800));
    assert!(should_report_progress(4, 0, 801));
    assert!(!should_report_progress(14, 10, 0));
    assert!(!should_report_progress(2, u32::MAX - 2, 0));
    assert!(!should_report_progress(u32::MAX - 1, u32::MAX - 2, 0));
    assert!(should_report_progress(u32::MAX, u32::MAX - 2, 0));
    assert!(should_report_progress(u32::MAX, u32::MAX, 0));
}

#[test]
fn tray_and_window() {
    assert_eq!(menu_command("show"), TrayCommand::ShowWindow);
    assert_eq!(menu_command("quit"), TrayCommand::ConfirmExit);
    assert_eq!(menu_command("shows"), TrayCommand::Ignore);
    assert_eq!(menu_command(""), TrayCommand::Ignore);
    assert_eq!(click_command(TrayClick::Click { left: true, released: true }), TrayCommand::ShowWindow);
    assert_eq!(click_command(TrayClick::Click { left: true, released: false }), TrayCommand::Ignore);
    assert_eq!(click_command(TrayClick::Click { left: false, released: true }), TrayCommand::Ignore);
    assert_eq!(click_command(TrayClick::DoubleClick { left: true }), TrayCommand::ShowWindow);
    assert_eq!(click_command(TrayClick::DoubleClick { left: false }), TrayCommand::Ignore);
    assert_eq!(click_command(TrayClick::Other), TrayCommand::Ignore);
    assert!(toggle_maximized(false));
    assert!(!toggle_maximized(true));
    assert_eq!(open_url_error("x"), "无法打开链接: x");
    assert_eq!(open_config_dir_error("y"), "打开配置目录失败: y");
}
