//! The tunnel commands: validating what the user typed, the `cloudflared`
//! command lines, reading `tunnel list`, and turning a finished command into
//! the message shown to the user.

use vstd::prelude::*;
use crate::text::{
    has_substring, occurs_at, all_digits, decimal_value, unsigned_digits, is_word, lemma_joined_chars, lemma_single_line, lemma_trimmed_unchanged,
    lemma_words_of_joined, all_ascii_letters, concat2, concat3, concat5, has_prefix, is_all_ascii_letters, join_from,
    joined, lines_of, owned, parse_unsigned, parse_unsigned_text, split_lines, split_words,
    starts_with_str, trim_str, trimmed, views, words_of,
};

verus! {

// ---------------------------------------------------------------------------
// `tunnel list`
// ---------------------------------------------------------------------------

/// One row of `cloudflared tunnel list`.
#[derive(Clone, Debug)]
pub struct TunnelInfo {
    pub id: String,
    pub name: String,
    pub created: String,
    pub connections: String,
}

/// A row of the tunnel list as plain values.
pub struct TunnelRow {
    pub id: Seq<char>,
    pub name: Seq<char>,
    pub created: Seq<char>,
    pub connections: Seq<char>,
}

impl View for TunnelInfo {
    type V = TunnelRow;

    open spec fn view(&self) -> TunnelRow {
        TunnelRow {
            id: self.id@,
            name: self.name@,
            created: self.created@,
            connections: self.connections@,
        }
    }
}

/// The views of a sequence of rows.
pub open spec fn row_views(v: Seq<TunnelInfo>) -> Seq<TunnelRow> {
    v.map_values(|t: TunnelInfo| t@)
}

/// A trimmed line that carries no row: blank, the hint line, the header or the rule.
pub open spec fn is_list_chrome(t: Seq<char>) -> bool {
    ||| t.len() == 0
    ||| has_prefix(t, "You can obtain"@)
    ||| has_prefix(t, "ID "@)
    ||| has_prefix(t, "----"@)
}

/// The row a line of the listing stands for: the first three words are ID,
/// name and creation time, the rest (joined by single spaces) the connections;
/// a line of three words has no connections, and shorter lines no row.
pub open spec fn row_of_line(line: Seq<char>) -> Option<TunnelRow> {
    let t = trimmed(line);
    if is_list_chrome(t) {
        None
    } else {
        let p = words_of(t);
        if p.len() >= 4 {
            Some(
                TunnelRow { id: p[0], name: p[1], created: p[2], connections: joined(p.skip(3), " "@) },
            )
        } else if p.len() == 3 {
            Some(TunnelRow { id: p[0], name: p[1], created: p[2], connections: seq![] })
        } else {
            None
        }
    }
}

/// The rows of a sequence of lines, in order.
pub open spec fn rows_of(lines: Seq<Seq<char>>) -> Seq<TunnelRow>
    decreases lines.len(),
{
    if lines.len() == 0 {
        seq![]
    } else {
        rows_of(lines.drop_last()) + match row_of_line(lines.last()) {
            Some(r) => seq![r],
            None => seq![],
        }
    }
}

/// The tunnels listed in the output of `cloudflared tunnel list`.
pub open spec fn tunnel_rows(stdout: Seq<char>) -> Seq<TunnelRow> {
    rows_of(lines_of(stdout))
}

/// The row one line of the listing stands for.
pub fn parse_tunnel_line(line: &str) -> (res: Option<TunnelInfo>)
    ensures
        match res {
            Some(t) => row_of_line(line@) == Some(t@),
            None => row_of_line(line@) is None,
        },
{
    let t = trim_str(line);
    if t.is_empty() || starts_with_str(t, "You can obtain") || starts_with_str(t, "ID ")
        || starts_with_str(t, "----") {
        return None;
    }
    let parts = split_words(t);
    if parts.len() >= 4 {
        let connections = join_from(&parts, 3, " ");
        let info = TunnelInfo {
            id: parts[0].clone(),
            name: parts[1].clone(),
            created: parts[2].clone(),
            connections,
        };
        assert(views(parts@)[0] == parts@[0]@);
        assert(views(parts@)[1] == parts@[1]@);
        assert(views(parts@)[2] == parts@[2]@);
        Some(info)
    } else if parts.len() == 3 {
        let info = TunnelInfo {
            id: parts[0].clone(),
            name: parts[1].clone(),
            created: parts[2].clone(),
            connections: String::new(),
        };
        assert(views(parts@)[0] == parts@[0]@);
        assert(views(parts@)[1] == parts@[1]@);
        assert(views(parts@)[2] == parts@[2]@);
        Some(info)
    } else {
        None
    }
}

/// The tunnels listed in the output of `cloudflared tunnel list`.
pub fn parse_tunnel_list(stdout: &str) -> (res: Vec<TunnelInfo>)
    ensures
        row_views(res@) == tunnel_rows(stdout@),
{
    let lines = split_lines(stdout);
    let n = lines.len();
    let mut res: Vec<TunnelInfo> = Vec::new();
    let mut i: usize = 0;
    assert(views(lines@).take(0) =~= Seq::<Seq<char>>::empty());
    assert(row_views(res@) =~= Seq::<TunnelRow>::empty());
    while i < n
        invariant
            n == lines@.len(),
            i <= n,
            views(lines@) == lines_of(stdout@),
            row_views(res@) == rows_of(views(lines@).take(i as int)),
        decreases n - i,
    {
        let ghost pre = views(lines@).take(i as int);
        let ghost next = views(lines@).take(i + 1);
        assert(next.drop_last() =~= pre);
        assert(next.last() == lines@[i as int]@);
        let ghost old_res = res@;
        match parse_tunnel_line(lines[i].as_str()) {
            Some(info) => {
                res.push(info);
                assert(row_views(res@) =~= row_views(old_res) + seq![info@]);
            },
            None => {
                assert(rows_of(next) =~= rows_of(pre));
            },
        }
        i = i + 1;
    }
    assert(views(lines@).take(n as int) =~= views(lines@));
    res
}

/// A listing line made of whitespace-free fields separated by single spaces
/// (ID, name, creation time, then the connections) is read back as exactly
/// one row with those fields, unless the line starts like the hint, the
/// header or the rule of the listing.
pub proof fn lemma_tunnel_row_roundtrip(fields: Seq<Seq<char>>)
    requires
        fields.len() >= 3,
        forall|i: int| 0 <= i < fields.len() ==> is_word(#[trigger] fields[i]),
        !has_prefix(joined(fields, seq![' ']), "You can obtain"@),
        !has_prefix(joined(fields, seq![' ']), "ID "@),
        !has_prefix(joined(fields, seq![' ']), "----"@),
    ensures
        tunnel_rows(joined(fields, seq![' '])) == seq![
            TunnelRow {
                id: fields[0],
                name: fields[1],
                created: fields[2],
                connections: joined(fields.skip(3), " "@),
            },
        ],
{
    let line = joined(fields, seq![' ']);
    lemma_joined_chars(fields);
    assert(!crate::text::is_white_space(fields[0][0]));
    assert(!crate::text::is_white_space(fields.last().last()));
    lemma_trimmed_unchanged(line);
    lemma_words_of_joined(fields);
    assert forall|i: int| 0 <= i < line.len() implies #[trigger] line[i] != '\n' by {
        assert(line[i] == ' ' || !crate::text::is_white_space(line[i]));
    }
    lemma_single_line(line);
    reveal_strlit(" ");
    assert(" "@ =~= seq![' ']);
    if fields.len() == 3 {
        assert(fields.skip(3) =~= Seq::<Seq<char>>::empty());
    }
    assert(seq![line].drop_last() =~= Seq::<Seq<char>>::empty());
    assert(rows_of(seq![line]) =~= rows_of(Seq::<Seq<char>>::empty()) + seq![row_of_line(line)->0]);
}

// ---------------------------------------------------------------------------
// What the user typed
// ---------------------------------------------------------------------------

/// A tunnel name as the commands accept it: after trimming, non-empty and
/// made of ASCII letters only.
pub open spec fn is_valid_tunnel_name(name: Seq<char>) -> bool {
    trimmed(name).len() > 0 && all_ascii_letters(trimmed(name))
}

/// A port as the commands accept it: after trimming, text that `str::parse`
/// reads as a `u16`.
pub open spec fn is_valid_port(port: Seq<char>) -> bool {
    parse_unsigned(trimmed(port), 65535) is Some
}

/// An accepted port is written in decimal digits, after an optional `+`, and
/// its value is at most 65535.
pub proof fn lemma_valid_port_digits(port: Seq<char>)
    requires
        is_valid_port(port),
    ensures
        unsigned_digits(trimmed(port)).len() > 0,
        all_digits(unsigned_digits(trimmed(port))),
        decimal_value(unsigned_digits(trimmed(port))) <= 65535,
{
}

/// Exactly the names whose trimmed text is non-empty and made of the letters
/// `a`-`z` and `A`-`Z` are accepted: every such name, whatever its case, and
/// no other.
pub proof fn lemma_tunnel_name_accepted_exactly(name: Seq<char>)
    ensures
        is_valid_tunnel_name(name) <==> (trimmed(name).len() > 0 && forall|i: int|
            0 <= i < trimmed(name).len() ==> ('a' <= #[trigger] trimmed(name)[i] && trimmed(
                name,
            )[i] <= 'z') || ('A' <= trimmed(name)[i] && trimmed(name)[i] <= 'Z')),
{
}

/// Exactly the ports that `str::parse::<u16>` reads are accepted: after
/// trimming, an optional `+` and then one or more ASCII digits whose decimal
/// value is at most 65535, whatever that value is (small ports included).
/// The digits are the trimmed text after one leading `+`, if it has one.
pub proof fn lemma_port_accepted_exactly(port: Seq<char>)
    ensures
        is_valid_port(port) <==> {
            &&& unsigned_digits(trimmed(port)).len() > 0
            &&& forall|i: int|
                0 <= i < unsigned_digits(trimmed(port)).len() ==> '0' <= #[trigger] unsigned_digits(
                    trimmed(port),
                )[i] && unsigned_digits(trimmed(port))[i] <= '9'
            &&& decimal_value(unsigned_digits(trimmed(port))) <= 65535
        },
{
    let d = unsigned_digits(trimmed(port));
    assert(all_digits(d) <==> forall|i: int| 0 <= i < d.len() ==> '0' <= #[trigger] d[i] && d[i]
        <= '9');
}

/// Whether `name` is an acceptable tunnel name once trimmed.
pub fn tunnel_name_ok(name: &str) -> (res: bool)
    ensures
        res == is_valid_tunnel_name(name@),
{
    let t = trim_str(name);
    !t.is_empty() && is_all_ascii_letters(t)
}

/// Whether `port` is an acceptable port once trimmed.
pub fn port_ok(port: &str) -> (res: bool)
    ensures
        res == is_valid_port(port@),
{
    let t = trim_str(port);
    parse_unsigned_text(t, 65535).is_some()
}

/// The command output shown when a command fails: standard error, unless it
/// is blank, then standard output.
pub open spec fn failure_output(stdout: Seq<char>, stderr: Seq<char>) -> Seq<char> {
    if trimmed(stderr).len() > 0 {
        stderr
    } else {
        stdout
    }
}

/// The failure text of a finished command.
pub fn failure_text(stdout: &str, stderr: &str) -> (res: String)
    ensures
        res@ == failure_output(stdout@, stderr@),
{
    if !trim_str(stderr).is_empty() {
        owned(stderr)
    } else {
        owned(stdout)
    }
}

// ---------------------------------------------------------------------------
// `tunnel create`
// ---------------------------------------------------------------------------

/// The message for an unacceptable name given to `tunnel create`.
pub open spec fn create_name_error() -> Seq<char> {
    "隧道名不能为空且只能包含纯字母 (a-z, A-Z)"@
}

/// The command line of `tunnel create` for a name, or the message refusing the name.
pub fn create_tunnel_args(name: &str) -> (res: Result<Vec<String>, String>)
    ensures
        match res {
            Ok(args) => is_valid_tunnel_name(name@) && views(args@) == seq![
                "tunnel"@,
                "create"@,
                trimmed(name@),
            ],
            Err(e) => !is_valid_tunnel_name(name@) && e@ == create_name_error(),
        },
{
    if !tunnel_name_ok(name) {
        return Err(owned("隧道名不能为空且只能包含纯字母 (a-z, A-Z)"));
    }
    let mut args: Vec<String> = Vec::new();
    args.push(owned("tunnel"));
    args.push(owned("create"));
    args.push(owned(trim_str(name)));
    assert(views(args@) =~= seq!["tunnel"@, "create"@, trimmed(name@)]);
    Ok(args)
}

/// What `tunnel create` reports: on success its standard output, or standard
/// error if the output is blank; on failure the failure text.
pub open spec fn create_outcome(success: bool, stdout: Seq<char>, stderr: Seq<char>) -> Result<
    Seq<char>,
    Seq<char>,
> {
    if success {
        Ok(
            if trimmed(stdout).len() == 0 {
                stderr
            } else {
                stdout
            },
        )
    } else {
        Err(failure_output(stdout, stderr))
    }
}

/// What `tunnel create` reports once it has finished.
pub fn create_tunnel_outcome(success: bool, stdout: &str, stderr: &str) -> (res: Result<
    String,
    String,
>)
    ensures
        match res {
            Ok(m) => create_outcome(success, stdout@, stderr@) == Ok::<Seq<char>, Seq<char>>(m@),
            Err(m) => create_outcome(success, stdout@, stderr@) == Err::<Seq<char>, Seq<char>>(
                m@,
            ),
        },
{
    if success {
        if trim_str(stdout).is_empty() {
            Ok(owned(stderr))
        } else {
            Ok(owned(stdout))
        }
    } else {
        Err(failure_text(stdout, stderr))
    }
}

// ---------------------------------------------------------------------------
// `tunnel delete`
// ---------------------------------------------------------------------------

/// The command line of `tunnel delete -f` for a tunnel, or the message
/// refusing a blank name.
pub fn delete_tunnel_args(name: &str) -> (res: Result<Vec<String>, String>)
    ensures
        match res {
            Ok(args) => trimmed(name@).len() > 0 && views(args@) == seq![
                "tunnel"@,
                "delete"@,
                "-f"@,
                trimmed(name@),
            ],
            Err(e) => trimmed(name@).len() == 0 && e@ == "隧道 ID / 名称不能为空"@,
        },
{
    let t = trim_str(name);
    if t.is_empty() {
        return Err(owned("隧道 ID / 名称不能为空"));
    }
    let mut args: Vec<String> = Vec::new();
    args.push(owned("tunnel"));
    args.push(owned("delete"));
    args.push(owned("-f"));
    args.push(owned(t));
    assert(views(args@) =~= seq!["tunnel"@, "delete"@, "-f"@, trimmed(name@)]);
    Ok(args)
}

/// What `tunnel delete` reports once it has finished.
pub fn delete_tunnel_outcome(name: &str, success: bool, stdout: &str, stderr: &str) -> (res: Result<
    String,
    String,
>)
    ensures
        success ==> (res matches Ok(m) && m@ == "隧道 ["@ + trimmed(name@) + "] 已成功删除"@),
        !success ==> (res matches Err(m) && m@ == failure_output(stdout@, stderr@)),
{
    if success {
        Ok(concat3("隧道 [", trim_str(name), "] 已成功删除"))
    } else {
        Err(failure_text(stdout, stderr))
    }
}

/// The failure text of a subcommand: standard error and standard output
/// together, one line apart; standard output alone when standard error is
/// blank, and standard error alone when standard output is empty.
pub open spec fn combined_output(stdout: Seq<char>, stderr: Seq<char>) -> Seq<char> {
    if trimmed(stderr).len() == 0 {
        stdout
    } else if stdout.len() == 0 {
        stderr
    } else {
        stderr + "\n"@ + stdout
    }
}

/// What a `cloudflared` subcommand gives back once it has finished: both
/// outputs on success; on failure a text that holds standard output, and
/// standard error too unless it is blank.
pub fn command_outcome(success: bool, stdout: String, stderr: String) -> (res: Result<
    (String, String),
    String,
>)
    ensures
        success ==> (res matches Ok(p) && p.0@ == stdout@ && p.1@ == stderr@),
        !success ==> (res matches Err(m) && m@ == combined_output(stdout@, stderr@)),
        res matches Err(m) ==> has_substring(m@, stdout@),
        res matches Err(m) ==> (trimmed(stderr@).len() > 0 ==> has_substring(m@, stderr@)),
{
    if success {
        return Ok((stdout, stderr));
    }
    let m = if trim_str(stderr.as_str()).is_empty() {
        stdout
    } else if stdout.as_str().is_empty() {
        stderr
    } else {
        concat3(stderr.as_str(), "\n", stdout.as_str())
    };
    proof {
        let c = combined_output(stdout@, stderr@);
        if trimmed(stderr@).len() == 0 {
            assert(occurs_at(c, stdout@, 0)) by {
                assert(c.subrange(0, stdout@.len() as int) =~= stdout@);
            }
        } else if stdout@.len() == 0 {
            assert(occurs_at(c, stdout@, 0)) by {
                assert(c.subrange(0, 0) =~= stdout@);
            }
            assert(occurs_at(c, stderr@, 0)) by {
                assert(c.subrange(0, stderr@.len() as int) =~= stderr@);
            }
        } else {
            let k = c.len() - stdout@.len();
            assert(occurs_at(c, stdout@, k)) by {
                assert(c.subrange(k, k + stdout@.len()) =~= stdout@);
            }
            assert(occurs_at(c, stderr@, 0)) by {
                assert(c.subrange(0, stderr@.len() as int) =~= stderr@);
            }
        }
    }
    Err(m)
}

// ---------------------------------------------------------------------------
// Starting tunnels
// ---------------------------------------------------------------------------

/// A process to start: its command line and the message announcing it.
#[derive(Debug)]
pub struct Launch {
    pub args: Vec<String>,
    pub message: String,
}

/// The message for a port that is not a `u16`.
pub open spec fn server_port_error() -> Seq<char> {
    "端口号必须为 1-65535 的纯数字"@
}

/// The server tunnel for a named tunnel forwarding a local TCP port:
/// `tunnel --name <name> --url tcp://127.0.0.1:<port>`.
pub fn server_tunnel_launch(name: &str, port: &str) -> (res: Result<Launch, String>)
    ensures
        match res {
            Ok(l) => {
                &&& is_valid_tunnel_name(name@) && is_valid_port(port@)
                &&& views(l.args@) == seq![
                    "tunnel"@,
                    "--name"@,
                    trimmed(name@),
                    "--url"@,
                    "tcp://127.0.0.1:"@ + trimmed(port@),
                ]
                &&& l.message@ == "已启动服务端隧道 ["@ + trimmed(name@) + "] 本地转发端口 ["@
                    + trimmed(port@) + "]"@
            },
            Err(e) => if !is_valid_tunnel_name(name@) {
                e@ == "隧道名字必须为纯字母"@
            } else {
                !is_valid_port(port@) && e@ == server_port_error()
            },
        },
{
    if !tunnel_name_ok(name) {
        return Err(owned("隧道名字必须为纯字母"));
    }
    if !port_ok(port) {
        return Err(owned("端口号必须为 1-65535 的纯数字"));
    }
    let n = trim_str(name);
    let p = trim_str(port);
    let mut args: Vec<String> = Vec::new();
    args.push(owned("tunnel"));
    args.push(owned("--name"));
    args.push(owned(n));
    args.push(owned("--url"));
    args.push(concat2("tcp://127.0.0.1:", p));
    assert(views(args@) =~= seq![
        "tunnel"@,
        "--name"@,
        trimmed(name@),
        "--url"@,
        "tcp://127.0.0.1:"@ + trimmed(port@),
    ]);
    let message = concat5("已启动服务端隧道 [", n, "] 本地转发端口 [", p, "]");
    Ok(Launch { args, message })
}

/// The quick tunnel for a local TCP port: `tunnel --url tcp://localhost:<port>`.
pub fn temp_tunnel_launch(port: &str) -> (res: Result<Launch, String>)
    ensures
        match res {
            Ok(l) => {
                &&& is_valid_port(port@)
                &&& views(l.args@) == seq!["tunnel"@, "--url"@, "tcp://localhost:"@ + trimmed(port@)]
                &&& l.message@ == "已启动免配置临时隧道 (转发端口: "@ + trimmed(port@)
                    + ")，正在连接 Cloudflare 获取临时域名..."@
            },
            Err(e) => !is_valid_port(port@) && e@ == server_port_error(),
        },
{
    if !port_ok(port) {
        return Err(owned("端口号必须为 1-65535 的纯数字"));
    }
    let p = trim_str(port);
    let mut args: Vec<String> = Vec::new();
    args.push(owned("tunnel"));
    args.push(owned("--url"));
    args.push(concat2("tcp://localhost:", p));
    assert(views(args@) =~= seq!["tunnel"@, "--url"@, "tcp://localhost:"@ + trimmed(port@)]);
    let message = concat3("已启动免配置临时隧道 (转发端口: ", p, ")，正在连接 Cloudflare 获取临时域名...");
    Ok(Launch { args, message })
}

/// The client side of a tunnel: `access tcp --hostname <domain> --url tcp://127.0.0.1:<port>`.
pub fn client_tunnel_launch(domain: &str, port: &str) -> (res: Result<Launch, String>)
    ensures
        match res {
            Ok(l) => {
                &&& trimmed(domain@).len() > 0 && is_valid_port(port@)
                &&& views(l.args@) == seq![
                    "access"@,
                    "tcp"@,
                    "--hostname"@,
                    trimmed(domain@),
                    "--url"@,
                    "tcp://127.0.0.1:"@ + trimmed(port@),
                ]
                &&& l.message@ == "已连接客户端隧道 ["@ + trimmed(domain@) + "] -> 本地监听端口 ["@
                    + trimmed(port@) + "]"@
            },
            Err(e) => if trimmed(domain@).len() == 0 {
                e@ == "隧道域名不能为空"@
            } else {
                !is_valid_port(port@) && e@ == "本地监听端口必须为 1-65535 的纯数字"@
            },
        },
{
    let d = trim_str(domain);
    if d.is_empty() {
        return Err(owned("隧道域名不能为空"));
    }
    if !port_ok(port) {
        return Err(owned("本地监听端口必须为 1-65535 的纯数字"));
    }
    let p = trim_str(port);
    let mut args: Vec<String> = Vec::new();
    args.push(owned("access"));
    args.push(owned("tcp"));
    args.push(owned("--hostname"));
    args.push(owned(d));
    args.push(owned("--url"));
    args.push(concat2("tcp://127.0.0.1:", p));
    assert(views(args@) =~= seq![
        "access"@,
        "tcp"@,
        "--hostname"@,
        trimmed(domain@),
        "--url"@,
        "tcp://127.0.0.1:"@ + trimmed(port@),
    ]);
    let message = concat5("已连接客户端隧道 [", d, "] -> 本地监听端口 [", p, "]");
    Ok(Launch { args, message })
}

} // verus!
