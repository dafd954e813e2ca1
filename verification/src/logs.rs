//! The console log: the entries shown to the user, how a line that a tunnel
//! process prints is classified, the messages of stopping tunnels and of the
//! maintenance tasks, and the watcher that opens the login link.

use vstd::prelude::*;
use crate::text::{
    concat2, contains_str, find_str, first_occurrence, has_prefix, has_substring, owned,
    split_words, views, words_of, word_len, lemma_word_len_bound, is_white_space,
    lemma_first_occurrence, occurs_at,
};

verus! {

/// One entry of the console log.
#[derive(Clone, Debug)]
pub struct LogPayload {
    pub message: String,
    pub level: String,
    pub source: String,
}

/// The severity of a log entry.
#[derive(Clone, Copy, Debug, PartialEq, Eq)]
pub enum LogLevel {
    Info,
    Warn,
    Error,
    Success,
}

/// The part of the application a log entry comes from.
#[derive(Clone, Copy, Debug, PartialEq, Eq)]
pub enum LogSource {
    Server,
    Client,
    Misc,
}

/// The name under which a level is shown.
pub open spec fn level_name(level: LogLevel) -> Seq<char> {
    match level {
        LogLevel::Info => "info"@,
        LogLevel::Warn => "warn"@,
        LogLevel::Error => "error"@,
        LogLevel::Success => "success"@,
    }
}

/// The name under which a source is shown.
pub open spec fn source_name(source: LogSource) -> Seq<char> {
    match source {
        LogSource::Server => "server"@,
        LogSource::Client => "client"@,
        LogSource::Misc => "misc"@,
    }
}

/// The entry with the given message, level and source.
pub open spec fn is_entry(p: LogPayload, message: Seq<char>, level: LogLevel, source: LogSource) -> bool {
    &&& p.message@ == message
    &&& p.level@ == level_name(level)
    &&& p.source@ == source_name(source)
}

/// A log entry.
pub fn log_entry(message: String, level: LogLevel, source: LogSource) -> (res: LogPayload)
    ensures
        is_entry(res, message@, level, source),
{
    let level = match level {
        LogLevel::Info => owned("info"),
        LogLevel::Warn => owned("warn"),
        LogLevel::Error => owned("error"),
        LogLevel::Success => owned("success"),
    };
    let source = match source {
        LogSource::Server => owned("server"),
        LogSource::Client => owned("client"),
        LogSource::Misc => owned("misc"),
    };
    LogPayload { message, level, source }
}

// ---------------------------------------------------------------------------
// Lines printed by tunnel processes
// ---------------------------------------------------------------------------

/// The level of a line a tunnel process prints on standard error: an error if
/// it mentions `ERR` or `error`, else a warning if it mentions `WRN` or
/// `warn`, else information.
pub open spec fn stderr_level(line: Seq<char>) -> LogLevel {
    if has_substring(line, "ERR"@) || has_substring(line, "error"@) {
        LogLevel::Error
    } else if has_substring(line, "WRN"@) || has_substring(line, "warn"@) {
        LogLevel::Warn
    } else {
        LogLevel::Info
    }
}

/// The level of a line a tunnel process prints on standard error.
pub fn classify_stderr_line(line: &str) -> (res: LogLevel)
    ensures
        res == stderr_level(line@),
{
    if contains_str(line, "ERR") || contains_str(line, "error") {
        LogLevel::Error
    } else if contains_str(line, "WRN") || contains_str(line, "warn") {
        LogLevel::Warn
    } else {
        LogLevel::Info
    }
}

/// The log entry for a line a tunnel process printed: standard output is
/// information, standard error is classified.
pub fn process_line_entry(line: String, from_stderr: bool, source: LogSource) -> (res: LogPayload)
    ensures
        is_entry(
            res,
            line@,
            if from_stderr {
                stderr_level(line@)
            } else {
                LogLevel::Info
            },
            source,
        ),
{
    let level = if from_stderr {
        classify_stderr_line(line.as_str())
    } else {
        LogLevel::Info
    };
    log_entry(line, level, source)
}

/// The entry announcing a started tunnel: the launch message, marked `[INFO]`.
pub fn started_entry(message: &str, source: LogSource) -> (res: LogPayload)
    ensures
        is_entry(res, "[INFO] "@ + message@, LogLevel::Success, source),
{
    log_entry(concat2("[INFO] ", message), LogLevel::Success, source)
}

// ---------------------------------------------------------------------------
// Stopping tunnels
// ---------------------------------------------------------------------------

/// The reply to a stop request, given whether a tunnel was running.
pub open spec fn stop_reply(was_running: bool, client: bool) -> Seq<char> {
    if was_running {
        if client {
            "客户端连接已断开"@
        } else {
            "服务端隧道已停止"@
        }
    } else if client {
        "当前没有正在运行的客户端连接"@
    } else {
        "当前没有正在运行的服务端隧道"@
    }
}

/// The log entry of a stop request: a warning of the stopped tunnel if one
/// was running, none otherwise.
pub open spec fn is_stop_entry(entry: Option<LogPayload>, was_running: bool, client: bool) -> bool {
    if was_running {
        entry matches Some(p) && if client {
            is_entry(p, "[INFO] 客户端连接已断开"@, LogLevel::Warn, LogSource::Client)
        } else {
            is_entry(p, "[INFO] 服务端隧道已停止"@, LogLevel::Warn, LogSource::Server)
        }
    } else {
        entry is None
    }
}

/// What stopping a tunnel reports: the log entry, if a tunnel was running,
/// and the reply.
pub fn stop_report(was_running: bool, client: bool) -> (res: (Option<LogPayload>, String))
    ensures
        is_stop_entry(res.0, was_running, client),
        res.1@ == stop_reply(was_running, client),
{
    if was_running {
        if client {
            (
                Some(log_entry(owned("[INFO] 客户端连接已断开"), LogLevel::Warn, LogSource::Client)),
                owned("客户端连接已断开"),
            )
        } else {
            (
                Some(log_entry(owned("[INFO] 服务端隧道已停止"), LogLevel::Warn, LogSource::Server)),
                owned("服务端隧道已停止"),
            )
        }
    } else if client {
        (None, owned("当前没有正在运行的客户端连接"))
    } else {
        (None, owned("当前没有正在运行的服务端隧道"))
    }
}

// ---------------------------------------------------------------------------
// Maintenance tasks
// ---------------------------------------------------------------------------

/// The events of the maintenance tasks (update, download and install, login,
/// configuration directory) that are logged.
#[derive(Clone, Copy, Debug, PartialEq, Eq)]
pub enum MiscEvent {
    UpdateChecking,
    UpdateResult,
    DownloadStarted,
    DownloadRequestFailed,
    TempFileFailed,
    WriteFailed,
    ReadInterrupted,
    ReplaceFailed,
    Installed,
    VersionLoaded,
    LoginStarted,
    ConfigDirOpened,
}

/// The text before the event's detail.
pub open spec fn misc_prefix(event: MiscEvent) -> Seq<char> {
    match event {
        MiscEvent::UpdateChecking => "[INFO] 正在检查 cloudflared 更新 (当前目标路径: "@,
        MiscEvent::UpdateResult => "[INFO] 更新检查结果: "@,
        MiscEvent::DownloadStarted => "[INFO] 开始连接官方源下载 cloudflared: "@,
        MiscEvent::DownloadRequestFailed => "[ERROR] 下载请求失败: "@,
        MiscEvent::TempFileFailed => "[ERROR] 创建临时下载文件失败: "@,
        MiscEvent::WriteFailed => "[ERROR] 写入文件失败: "@,
        MiscEvent::ReadInterrupted => "[ERROR] 读取下载数据流中断: "@,
        MiscEvent::ReplaceFailed => "[ERROR] 安装替换 cloudflared 文件失败: "@,
        MiscEvent::Installed => "[SUCCESS] [下载进度 100%] cloudflared 安装成功！程序已保存至应用根目录: "@,
        MiscEvent::VersionLoaded => "[INFO] 已成功载入运行版本: "@,
        MiscEvent::LoginStarted => "[INFO] 已启动 Cloudflared 授权，正在获取登录链接..."@,
        MiscEvent::ConfigDirOpened => "[INFO] 已在文件资源管理器中打开配置目录: "@,
    }
}

/// The text after the event's detail.
pub open spec fn misc_suffix(event: MiscEvent) -> Seq<char> {
    match event {
        MiscEvent::UpdateChecking => ")..."@,
        _ => ""@,
    }
}

/// The level of the event's entry.
pub open spec fn misc_level(event: MiscEvent) -> LogLevel {
    match event {
        MiscEvent::DownloadRequestFailed | MiscEvent::TempFileFailed | MiscEvent::WriteFailed
        | MiscEvent::ReadInterrupted | MiscEvent::ReplaceFailed => LogLevel::Error,
        MiscEvent::Installed => LogLevel::Success,
        _ => LogLevel::Info,
    }
}

fn misc_prefix_text(event: MiscEvent) -> (res: &'static str)
    ensures
        res@ == misc_prefix(event),
{
    match event {
        MiscEvent::UpdateChecking => "[INFO] 正在检查 cloudflared 更新 (当前目标路径: ",
        MiscEvent::UpdateResult => "[INFO] 更新检查结果: ",
        MiscEvent::DownloadStarted => "[INFO] 开始连接官方源下载 cloudflared: ",
        MiscEvent::DownloadRequestFailed => "[ERROR] 下载请求失败: ",
        MiscEvent::TempFileFailed => "[ERROR] 创建临时下载文件失败: ",
        MiscEvent::WriteFailed => "[ERROR] 写入文件失败: ",
        MiscEvent::ReadInterrupted => "[ERROR] 读取下载数据流中断: ",
        MiscEvent::ReplaceFailed => "[ERROR] 安装替换 cloudflared 文件失败: ",
        MiscEvent::Installed => "[SUCCESS] [下载进度 100%] cloudflared 安装成功！程序已保存至应用根目录: ",
        MiscEvent::VersionLoaded => "[INFO] 已成功载入运行版本: ",
        MiscEvent::LoginStarted => "[INFO] 已启动 Cloudflared 授权，正在获取登录链接...",
        MiscEvent::ConfigDirOpened => "[INFO] 已在文件资源管理器中打开配置目录: ",
    }
}

/// The log entry of a maintenance event with its detail (a path, a URL, a
/// result or the system's error message; empty where the event has none).
pub fn misc_entry(event: MiscEvent, detail: &str) -> (res: LogPayload)
    ensures
        is_entry(
            res,
            misc_prefix(event) + detail@ + misc_suffix(event),
            misc_level(event),
            LogSource::Misc,
        ),
{
    let mut message = concat2(misc_prefix_text(event), detail);
    let level = match event {
        MiscEvent::UpdateChecking => {
            message.append(")...");
            LogLevel::Info
        },
        MiscEvent::DownloadRequestFailed | MiscEvent::TempFileFailed | MiscEvent::WriteFailed
        | MiscEvent::ReadInterrupted | MiscEvent::ReplaceFailed => LogLevel::Error,
        MiscEvent::Installed => LogLevel::Success,
        _ => LogLevel::Info,
    };
    proof {
        reveal_strlit("");
    }
    assert(message@ =~= misc_prefix(event) + detail@ + misc_suffix(event));
    log_entry(message, level, LogSource::Misc)
}


/// A line that mentions `ERR` or `error` is an error, whatever else it
/// mentions; a line that mentions neither but `WRN` or `warn` is a warning;
/// any other line is information.
pub proof fn lemma_stderr_level_by_mentions(line: Seq<char>)
    ensures
        has_substring(line, "ERR"@) || has_substring(line, "error"@) ==> stderr_level(line)
            == LogLevel::Error,
        !has_substring(line, "ERR"@) && !has_substring(line, "error"@) && (has_substring(
            line,
            "WRN"@,
        ) || has_substring(line, "warn"@)) ==> stderr_level(line) == LogLevel::Warn,
        !has_substring(line, "ERR"@) && !has_substring(line, "error"@) && !has_substring(
            line,
            "WRN"@,
        ) && !has_substring(line, "warn"@) ==> stderr_level(line) == LogLevel::Info,
{
}

/// A mention found in `line` is still found once text is put before or after it.
proof fn lemma_substring_in_context(line: Seq<char>, before: Seq<char>, after: Seq<char>, t: Seq<char>)
    requires
        has_substring(line, t),
    ensures
        has_substring(before + line + after, t),
{
    let i = choose|i: int| occurs_at(line, t, i);
    let whole = before + line + after;
    assert(whole.subrange(before.len() + i, before.len() + i + t.len()) =~= line.subrange(
        i,
        i + t.len(),
    ));
    assert(occurs_at(whole, t, before.len() + i));
}

/// An error line stays an error line whatever text surrounds it: more text
/// (a warning marker among it) never lowers the level of an error.
pub proof fn lemma_error_level_kept_in_context(line: Seq<char>, before: Seq<char>, after: Seq<char>)
    requires
        stderr_level(line) == LogLevel::Error,
    ensures
        stderr_level(before + line + after) == LogLevel::Error,
{
    if has_substring(line, "ERR"@) {
        lemma_substring_in_context(line, before, after, "ERR"@);
    } else {
        lemma_substring_in_context(line, before, after, "error"@);
    }
}

// ---------------------------------------------------------------------------
// The login link
// ---------------------------------------------------------------------------

/// The login link in a line: from the first `https://` up to the next
/// whitespace; `None` if the line has no `https://`.
pub open spec fn login_url(line: Seq<char>) -> Option<Seq<char>> {
    match first_occurrence(line, "https://"@) {
        None => None,
        Some(i) => {
            let w = words_of(line.skip(i));
            Some(
                if w.len() > 0 {
                    w[0]
                } else {
                    seq![]
                },
            )
        },
    }
}

/// Watches the lines `cloudflared tunnel login` prints on one stream and
/// opens the first login link it sees.
pub struct LoginWatcher {
    pub opened: bool,
}

/// What to do with one printed line.
pub struct LoginStep {
    /// The line itself, logged as information.
    pub line_entry: LogPayload,
    /// The link to open in the browser.
    pub open_url: Option<String>,
    /// The entry announcing the opened link.
    pub opened_entry: Option<LogPayload>,
}

impl LoginWatcher {
    /// A watcher that has not opened a link yet.
    pub fn new() -> (res: LoginWatcher)
        ensures
            !res.opened,
    {
        LoginWatcher { opened: false }
    }

    /// Handles one printed line: logs it, and if no link was opened yet and the
    /// line holds one, opens it (a line with `https://` ends the watching
    /// either way).
    pub fn on_line(&mut self, line: String) -> (res: LoginStep)
        ensures
            is_entry(res.line_entry, line@, LogLevel::Info, LogSource::Misc),
            old(self).opened || login_url(line@) is None ==> final(self).opened == old(
                self,
            ).opened && res.open_url is None && res.opened_entry is None,
            !old(self).opened && login_url(line@) is Some ==> final(self).opened,
            !old(self).opened && login_url(line@) is Some ==> {
                let u = login_url(line@)->0;
                &&& res.open_url matches Some(v) && v@ == u
                &&& res.opened_entry matches Some(p) && is_entry(
                    p,
                    "[INFO] 已自动在默认浏览器中打开授权链接: "@ + u,
                    LogLevel::Success,
                    LogSource::Misc,
                )
            },
    {
        let mut open_url: Option<String> = None;
        let mut opened_entry: Option<LogPayload> = None;
        if !self.opened {
            match find_str(line.as_str(), "https://") {
                None => {},
                Some(i) => {
                    self.opened = true;
                    let n = line.as_str().unicode_len();
                    proof {
                        lemma_first_occurrence(line@, "https://"@);
                    }
                    let rest = line.as_str().substring_char(i, n);
                    assert(rest@ =~= line@.skip(i as int));
                    let words = split_words(rest);
                    let url = if words.len() > 0 {
                        assert(views(words@)[0] == words@[0]@);
                        words[0].clone()
                    } else {
                        String::new()
                    };
                    proof {
                        lemma_login_url_shape(line@);
                    }
                    if !url.as_str().is_empty() {
                        opened_entry = Some(
                            log_entry(
                                concat2("[INFO] 已自动在默认浏览器中打开授权链接: ", url.as_str()),
                                LogLevel::Success,
                                LogSource::Misc,
                            ),
                        );
                        open_url = Some(url);
                    }
                },
            }
        }
        let line_entry = log_entry(line, LogLevel::Info, LogSource::Misc);
        LoginStep { line_entry, open_url, opened_entry }
    }
}

/// A run of non-whitespace characters at the front covers any whitespace-free prefix.
proof fn lemma_word_covers_prefix(s: Seq<char>, p: Seq<char>)
    requires
        has_prefix(s, p),
        forall|j: int| 0 <= j < p.len() ==> !is_white_space(#[trigger] p[j]),
    ensures
        word_len(s) >= p.len(),
{
    lemma_word_len_bound(s);
    if word_len(s) < p.len() {
        assert(s[word_len(s) as int] == s.take(p.len() as int)[word_len(s) as int]);
    }
}

/// A login link starts with `https://`, and contains no whitespace.
pub proof fn lemma_login_url_shape(line: Seq<char>)
    ensures
        login_url(line) matches Some(u) ==> u.len() >= 8 && has_prefix(u, "https://"@) && (
        forall|j: int| 0 <= j < u.len() ==> !is_white_space(#[trigger] u[j])),
{
    lemma_first_occurrence(line, "https://"@);
    if let Some(i) = first_occurrence(line, "https://"@) {
        let s = line.skip(i);
        let p = "https://"@;
        reveal_strlit("https://");
        assert(has_prefix(s, p)) by {
            assert(line.subrange(i, i + p.len()) =~= s.take(p.len() as int));
        }
        lemma_word_covers_prefix(s, p);
        lemma_word_len_bound(s);
        assert(!is_white_space(s[0]));
        let k = word_len(s);
        assert(words_of(s) == seq![s.take(k as int)] + words_of(s.skip(k as int)));
        let u = s.take(k as int);
        assert(u.take(p.len() as int) =~= s.take(p.len() as int));
    }
}

/// A line without `https://` has no login link.
pub proof fn lemma_login_url_absent(line: Seq<char>)
    requires
        !has_substring(line, "https://"@),
    ensures
        login_url(line) is None,
{
    lemma_first_occurrence(line, "https://"@);
}

/// A line that contains `https://`, wherever (at its very start too), has a
/// login link: the text from the first `https://` up to the next whitespace
/// or the end of the line.
pub proof fn lemma_login_url_found(line: Seq<char>)
    requires
        has_substring(line, "https://"@),
    ensures
        exists|i: int, k: int|
            #![trigger line.subrange(i, k)]
            {
                &&& occurs_at(line, "https://"@, i)
                &&& forall|j: int| 0 <= j < i ==> !occurs_at(line, "https://"@, j)
                &&& i + 8 <= k <= line.len()
                &&& login_url(line) == Some(line.subrange(i, k))
                &&& forall|j: int| i <= j < k ==> !is_white_space(#[trigger] line[j])
                &&& k == line.len() || is_white_space(line[k])
            },
{
    lemma_first_occurrence(line, "https://"@);
    let i = first_occurrence(line, "https://"@)->0;
    let s = line.skip(i);
    let p = "https://"@;
    reveal_strlit("https://");
    assert(has_prefix(s, p)) by {
        assert(line.subrange(i, i + p.len()) =~= s.take(p.len() as int));
    }
    lemma_word_covers_prefix(s, p);
    lemma_word_len_bound(s);
    assert(!is_white_space(s[0]));
    let w = word_len(s);
    assert(words_of(s) == seq![s.take(w as int)] + words_of(s.skip(w as int)));
    let k = i + w;
    assert(s.take(w as int) =~= line.subrange(i, k));
    assert forall|j: int| i <= j < k implies !is_white_space(#[trigger] line[j]) by {
        assert(line[j] == s[j - i]);
    }
    if k < line.len() {
        assert(line[k] == s[w as int]);
    }
}

} // verus!
