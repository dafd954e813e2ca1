//! Running `cloudflared`: which program to run, what to say when it cannot
//! be started, and the reports of the version and update commands and of the
//! tunnel processes the application manages.

use vstd::prelude::*;
use crate::text::{concat2, concat3, owned, trim_str, trimmed};

verus! {

// ---------------------------------------------------------------------------
// The program
// ---------------------------------------------------------------------------

/// The name of the `cloudflared` executable on the target system.
pub fn executable_name(windows: bool) -> (res: &'static str)
    ensures
        windows ==> res@ == "cloudflared.exe"@,
        !windows ==> res@ == "cloudflared"@,
{
    if windows {
        "cloudflared.exe"
    } else {
        "cloudflared"
    }
}

/// Which of the candidate locations of the executable to use, given whether
/// a file exists at each (in order of preference): the first that exists;
/// `None` means the bare name, looked up through `PATH`.
pub fn pick_executable(exists: &Vec<bool>) -> (res: Option<usize>)
    ensures
        match res {
            Some(i) => i < exists@.len() && exists@[i as int] && forall|j: int|
                0 <= j < i ==> !#[trigger] exists@[j],
            None => forall|j: int| 0 <= j < exists@.len() ==> !#[trigger] exists@[j],
        },
{
    let n = exists.len();
    for i in 0..n
        invariant
            n == exists@.len(),
            forall|j: int| 0 <= j < i ==> !#[trigger] exists@[j],
    {
        if exists[i] {
            return Some(i);
        }
    }
    None
}

// ---------------------------------------------------------------------------
// Failures to start the program
// ---------------------------------------------------------------------------

/// The places where the application starts `cloudflared`.
#[derive(Clone, Copy, Debug, PartialEq, Eq)]
pub enum CloudflaredCall {
    ListTunnels,
    CreateTunnel,
    DeleteTunnel,
    Subcommand,
    StartServer,
    StartTemp,
    StartClient,
    CheckVersion,
    Update,
    Login,
}

/// The message for a call when the program was not found, where the call has one.
pub open spec fn not_found_message(call: CloudflaredCall) -> Option<Seq<char>> {
    match call {
        CloudflaredCall::ListTunnels => Some(
            "未找到 cloudflared 可执行文件。请先在「杂项与关于」Tab 点击「安装 cloudflared」或将其放置在应用根目录下。"@,
        ),
        CloudflaredCall::Subcommand => Some(
            "未找到 cloudflared 可执行文件，请先在「杂项与关于」页面点击「安装 cloudflared」"@,
        ),
        CloudflaredCall::StartServer => Some("未找到 cloudflared 程序，请先点击「安装 cloudflared」"@),
        CloudflaredCall::StartTemp => Some("未找到 cloudflared 程序，请先点击「安装 cloudflared」"@),
        CloudflaredCall::StartClient => Some("未找到 cloudflared 命令，请先点击「安装 cloudflared」"@),
        CloudflaredCall::CheckVersion => Some(
            "未找到 cloudflared 可执行程序，请先点击「安装 cloudflared」"@,
        ),
        CloudflaredCall::Login => Some("未找到 cloudflared 可执行程序，请先点击「安装 cloudflared」"@),
        _ => None,
    }
}

/// The text put before the system's error message for a call.
pub open spec fn failure_prefix(call: CloudflaredCall) -> Seq<char> {
    match call {
        CloudflaredCall::ListTunnels => "执行 cloudflared 失败: "@,
        CloudflaredCall::CreateTunnel => "执行命令失败: "@,
        CloudflaredCall::DeleteTunnel => "执行删除命令失败: "@,
        CloudflaredCall::Subcommand => "启动 cloudflared 子进程失败: "@,
        CloudflaredCall::StartServer => "启动服务端隧道失败: "@,
        CloudflaredCall::StartTemp => "启动临时隧道失败: "@,
        CloudflaredCall::StartClient => "启动客户端隧道失败: "@,
        CloudflaredCall::CheckVersion => "检查版本失败: "@,
        CloudflaredCall::Update => "执行更新检查失败: "@,
        CloudflaredCall::Login => "执行授权登录失败: "@,
    }
}

/// The message when `call` could not start the program: the not-found message
/// where the call has one and the program was not found, otherwise the
/// call's prefix followed by the system's message.
pub open spec fn launch_error(call: CloudflaredCall, not_found: bool, detail: Seq<char>) -> Seq<
    char,
> {
    match not_found_message(call) {
        Some(m) => if not_found {
            m
        } else {
            failure_prefix(call) + detail
        },
        None => failure_prefix(call) + detail,
    }
}

fn not_found_text(call: CloudflaredCall) -> (res: Option<&'static str>)
    ensures
        match res {
            Some(m) => not_found_message(call) == Some(m@),
            None => not_found_message(call) is None,
        },
{
    match call {
        CloudflaredCall::ListTunnels => Some(
            "未找到 cloudflared 可执行文件。请先在「杂项与关于」Tab 点击「安装 cloudflared」或将其放置在应用根目录下。",
        ),
        CloudflaredCall::Subcommand => Some(
            "未找到 cloudflared 可执行文件，请先在「杂项与关于」页面点击「安装 cloudflared」",
        ),
        CloudflaredCall::StartServer => Some("未找到 cloudflared 程序，请先点击「安装 cloudflared」"),
        CloudflaredCall::StartTemp => Some("未找到 cloudflared 程序，请先点击「安装 cloudflared」"),
        CloudflaredCall::StartClient => Some("未找到 cloudflared 命令，请先点击「安装 cloudflared」"),
        CloudflaredCall::CheckVersion => Some("未找到 cloudflared 可执行程序，请先点击「安装 cloudflared」"),
        CloudflaredCall::Login => Some("未找到 cloudflared 可执行程序，请先点击「安装 cloudflared」"),
        _ => None,
    }
}

fn failure_prefix_text(call: CloudflaredCall) -> (res: &'static str)
    ensures
        res@ == failure_prefix(call),
{
    match call {
        CloudflaredCall::ListTunnels => "执行 cloudflared 失败: ",
        CloudflaredCall::CreateTunnel => "执行命令失败: ",
        CloudflaredCall::DeleteTunnel => "执行删除命令失败: ",
        CloudflaredCall::Subcommand => "启动 cloudflared 子进程失败: ",
        CloudflaredCall::StartServer => "启动服务端隧道失败: ",
        CloudflaredCall::StartTemp => "启动临时隧道失败: ",
        CloudflaredCall::StartClient => "启动客户端隧道失败: ",
        CloudflaredCall::CheckVersion => "检查版本失败: ",
        CloudflaredCall::Update => "执行更新检查失败: ",
        CloudflaredCall::Login => "执行授权登录失败: ",
    }
}

/// The message when `call` could not start the program, given whether the
/// system reported it missing and the system's own message.
pub fn launch_error_message(call: CloudflaredCall, not_found: bool, detail: &str) -> (res: String)
    ensures
        res@ == launch_error(call, not_found, detail@),
{
    match not_found_text(call) {
        Some(m) => if not_found {
            owned(m)
        } else {
            concat2(failure_prefix_text(call), detail)
        },
        None => concat2(failure_prefix_text(call), detail),
    }
}

// ---------------------------------------------------------------------------
// Version and update
// ---------------------------------------------------------------------------

/// The version text: trimmed standard output, else trimmed standard error,
/// else "unknown version".
pub open spec fn version_text(stdout: Seq<char>, stderr: Seq<char>) -> Seq<char> {
    if trimmed(stdout).len() > 0 {
        trimmed(stdout)
    } else if trimmed(stderr).len() > 0 {
        trimmed(stderr)
    } else {
        "未知版本"@
    }
}

/// The report of `cloudflared --version`: the version and the program's path.
pub fn version_report(stdout: &str, stderr: &str, path: &str) -> (res: String)
    ensures
        res@ == version_text(stdout@, stderr@) + " (路径: "@ + path@ + ")"@,
{
    let out = trim_str(stdout);
    let err = trim_str(stderr);
    let version = if !out.is_empty() {
        out
    } else if !err.is_empty() {
        err
    } else {
        "未知版本"
    };
    let mut res = concat3(version, " (路径: ", path);
    res.append(")");
    res
}

/// The result of `cloudflared update`: trimmed standard output, unless it is
/// empty, then trimmed standard error.
pub fn update_result(stdout: &str, stderr: &str) -> (res: String)
    ensures
        res@ == (if trimmed(stdout@).len() > 0 {
            trimmed(stdout@)
        } else {
            trimmed(stderr@)
        }),
{
    let out = trim_str(stdout);
    if !out.is_empty() {
        owned(out)
    } else {
        owned(trim_str(stderr))
    }
}

// ---------------------------------------------------------------------------
// Managed tunnel processes
// ---------------------------------------------------------------------------

/// What polling a managed tunnel process found.
#[derive(Clone, Copy, Debug, PartialEq, Eq)]
pub enum ProcessPoll {
    /// No process is recorded.
    Absent,
    /// The process is still running.
    Running,
    /// The process has exited, or its status could not be read.
    Gone,
}

/// Whether the tunnel runs, and whether the recorded process should be forgotten.
pub fn running_status(poll: ProcessPoll) -> (res: (bool, bool))
    ensures
        res.0 == (poll == ProcessPoll::Running),
        res.1 == (poll == ProcessPoll::Gone),
{
    match poll {
        ProcessPoll::Absent => (false, false),
        ProcessPoll::Running => (true, false),
        ProcessPoll::Gone => (false, true),
    }
}

} // verus!
