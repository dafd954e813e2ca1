use cloudflared_gui::commands::{
    executable_name, launch_error_message, pick_executable, running_status, update_result,
    version_report, CloudflaredCall, ProcessPoll,
};

#[test]
fn program_name_and_location() {
    assert_eq!(executable_name(true), "cloudflared.exe");
    assert_eq!(executable_name(false), "cloudflared");
    assert_eq!(pick_executable(&vec![false, true]), Some(1));
    assert_eq!(pick_executable(&vec![true, true]), Some(0));
    assert_eq!(pick_executable(&vec![false, false]), None);
    assert_eq!(pick_executable(&vec![]), None);
}

#[test]
fn launch_errors() {
    assert_eq!(
        launch_error_message(CloudflaredCall::ListTunnels, true, "x"),
        "未找到 cloudflared 可执行文件。请先在「杂项与关于」Tab 点击「安装 cloudflared」或将其放置在应用根目录下。"
    );
    assert_eq!(
        launch_error_message(CloudflaredCall::ListTunnels, false, "denied"),
        "执行 cloudflared 失败: denied"
    );
    assert_eq!(
        launch_error_message(CloudflaredCall::CreateTunnel, true, "No such file"),
        "执行命令失败: No such file"
    );
    assert_eq!(
        launch_error_message(CloudflaredCall::StartClient, true, ""),
        "未找到 cloudflared 命令，请先点击「安装 cloudflared」"
    );
    assert_eq!(launch_error_message(CloudflaredCall::Update, false, "e"), "执行更新检查失败: e");
    assert_eq!(launch_error_message(CloudflaredCall::Login, false, "e"), "执行授权登录失败: e");
}

#[test]
fn version_and_update_reports() {
    assert_eq!(
        version_report(" cloudflared version 2024.1.0 \n", "", "/usr/bin/cloudflared"),
        "cloudflared version 2024.1.0 (路径: /usr/bin/cloudflared)"
    );
    assert_eq!(version_report("", " v2 ", "c"), "v2 (路径: c)");
    assert_eq!(version_report(" ", "\n", "c"), "未知版本 (路径: c)");
    assert_eq!(update_result(" up to date ", "x"), "up to date");
    assert_eq!(update_result("", " err "), "err");
}

#[test]
fn process_polls() {
    assert_eq!(running_status(ProcessPoll::Running), (true, false));
    assert_eq!(running_status(ProcessPoll::Gone), (false, true));
    assert_eq!(running_status(ProcessPoll::Absent), (false, false));
}
