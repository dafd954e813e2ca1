//! Finding the UUID of a freshly created tunnel.
//!
//! `cloudflared tunnel create` writes a credentials file `<uuid>.json` into
//! the user's `.cloudflared` directory. The UUID is taken, in this order of
//! preference, from the credentials file that names the tunnel, from the most
//! recently modified credentials file, or from the first UUID printed in the
//! command's output once colour escapes are removed.

use vstd::prelude::*;
use crate::text::{
    chars_of, has_substring, str_eq, contains_str, lines_of, split_lines, trimmed, trim_str, views,
};
use crate::json_field::{extract_json_string_field, json_string_field};
use crate::pattern::{
    OutputPatterns, ansi_stripped, find_uuid, is_uuid_text, leftmost_uuid, lemma_leftmost_uuid,
    lemma_uuid_text_finds_itself, strip_ansi,
};

verus! {

/// One entry of the credentials directory, as read from disk.
pub struct CredentialFile {
    /// The file name, if it is valid UTF-8.
    pub file_name: Option<String>,
    /// The file's text, if it could be read.
    pub content: Option<String>,
    /// The modification time in nanoseconds relative to the Unix epoch, if known.
    pub modified: Option<i128>,
}

/// A credentials directory entry as plain values.
pub struct CredentialFileView {
    pub file_name: Option<Seq<char>>,
    pub content: Option<Seq<char>>,
    pub modified: Option<int>,
}

impl View for CredentialFile {
    type V = CredentialFileView;

    open spec fn view(&self) -> CredentialFileView {
        CredentialFileView {
            file_name: match self.file_name {
                Some(n) => Some(n@),
                None => None,
            },
            content: match self.content {
                Some(c) => Some(c@),
                None => None,
            },
            modified: match self.modified {
                Some(t) => Some(t as int),
                None => None,
            },
        }
    }
}

/// The views of a sequence of directory entries.
pub open spec fn file_views(files: Seq<CredentialFile>) -> Seq<CredentialFileView> {
    files.map_values(|f: CredentialFile| f@)
}

// ---------------------------------------------------------------------------
// File names
// ---------------------------------------------------------------------------

/// The position of the last `.` in `name`.
pub open spec fn last_dot(name: Seq<char>) -> Option<int>
    decreases name.len(),
{
    if name.len() == 0 {
        None
    } else if name.last() == '.' {
        Some(name.len() - 1)
    } else {
        last_dot(name.drop_last())
    }
}

/// A file name split into stem and extension (`Path::file_stem`, `Path::extension`):
/// at the last `.`, unless there is none, it is the first character, or the name is `..`.
pub open spec fn stem_and_extension(name: Seq<char>) -> (Seq<char>, Option<Seq<char>>) {
    if name == seq!['.', '.'] {
        (name, None)
    } else {
        match last_dot(name) {
            None => (name, None),
            Some(i) => if i == 0 {
                (name, None)
            } else {
                (name.take(i), Some(name.skip(i + 1)))
            },
        }
    }
}

/// A credentials file name, `<uuid>.json`: extension `json` and a stem that
/// is a UUID as a whole.
pub open spec fn is_credential_name(name: Seq<char>) -> bool {
    &&& stem_and_extension(name).1 == Some(seq!['j', 's', 'o', 'n'])
    &&& is_uuid_text(stem_and_extension(name).0)
}

/// The position of the last `.` in `name`.
fn find_last_dot(name: &Vec<char>) -> (res: Option<usize>)
    ensures
        match res {
            Some(i) => last_dot(name@) == Some(i as int),
            None => last_dot(name@) is None,
        },
        res matches Some(i) ==> i < name@.len(),
{
    let mut j = name.len();
    assert(name@.take(j as int) =~= name@);
    while j > 0 && name[j - 1] != '.'
        invariant
            j <= name@.len(),
            last_dot(name@) == last_dot(name@.take(j as int)),
        decreases j,
    {
        assert(name@.take(j as int).drop_last() =~= name@.take(j - 1));
        j = j - 1;
    }
    if j == 0 {
        None
    } else {
        Some(j - 1)
    }
}

/// Whether `name` is the name of a credentials file: a `.json` file whose
/// stem is a UUID.
pub fn is_credential_file_name(name: &str, patterns: &OutputPatterns) -> (res: bool)
    requires
        patterns.wf(),
    ensures
        res == is_credential_name(name@),
{
    let cs = chars_of(name);
    let n = cs.len();
    if n == 2 && cs[0] == '.' && cs[1] == '.' {
        assert(name@ =~= seq!['.', '.']);
        return false;
    }
    assert(name@ != seq!['.', '.']) by {
        if name@ == seq!['.', '.'] {
            assert(cs@[0] == '.' && cs@[1] == '.');
        }
    }
    match find_last_dot(&cs) {
        None => false,
        Some(i) => {
            if i == 0 {
                return false;
            }
            let ext = name.substring_char(i + 1, n);
            let ec = chars_of(ext);
            let is_json = ec.len() == 4 && ec[0] == 'j' && ec[1] == 's' && ec[2] == 'o' && ec[3]
                == 'n';
            assert(is_json == (ext@ == seq!['j', 's', 'o', 'n'])) by {
                if ext@ == seq!['j', 's', 'o', 'n'] {
                    assert(ec@[0] == 'j' && ec@[1] == 's' && ec@[2] == 'o' && ec@[3] == 'n');
                }
                if is_json {
                    assert(ext@ =~= seq!['j', 's', 'o', 'n']);
                }
            }
            if !is_json {
                assert(name@.skip(i + 1) =~= ext@);
                return false;
            }
            let stem = name.substring_char(0, i);
            assert(name@.take(i as int) =~= stem@);
            assert(name@.skip(i + 1) =~= ext@);
            proof {
                lemma_leftmost_uuid(stem@);
                if is_uuid_text(stem@) {
                    lemma_uuid_text_finds_itself(stem@);
                }
            }
            match find_uuid(stem, patterns) {
                Some(u) => str_eq(u.as_str(), stem),
                None => false,
            }
        },
    }
}

// ---------------------------------------------------------------------------
// Credentials files
// ---------------------------------------------------------------------------

/// The text by which a credentials file names its tunnel, `"<key>":"<name>"`.
pub open spec fn name_entry(key: Seq<char>, name: Seq<char>) -> Seq<char> {
    seq!['"'] + key + seq!['"', ':', '"'] + name + seq!['"']
}

/// The file's text names the tunnel `name` under `TunnelName` or `Name`.
pub open spec fn names_tunnel(content: Seq<char>, name: Seq<char>) -> bool {
    ||| has_substring(content, name_entry("TunnelName"@, name))
    ||| has_substring(content, name_entry("Name"@, name))
}

/// A credentials file names the tunnel exactly when its text holds the whole
/// entry `"TunnelName":"<name>"` or `"Name":"<name>"`, closing quote included:
/// an entry for a longer name that starts with `<name>` does not count.
pub proof fn lemma_names_tunnel_by_entry(content: Seq<char>, name: Seq<char>)
    ensures
        names_tunnel(content, name) <==> (has_substring(
            content,
            "\"TunnelName\":\""@ + name + "\""@,
        ) || has_substring(content, "\"Name\":\""@ + name + "\""@)),
{
    reveal_strlit("TunnelName");
    reveal_strlit("Name");
    reveal_strlit("\"TunnelName\":\"");
    reveal_strlit("\"Name\":\"");
    reveal_strlit("\"");
    assert(name_entry("TunnelName"@, name) =~= "\"TunnelName\":\""@ + name + "\""@);
    assert(name_entry("Name"@, name) =~= "\"Name\":\""@ + name + "\""@);
}

/// The tunnel UUID a credentials file holds, under `TunnelID` or else `TunnelId`.
pub open spec fn uuid_field(content: Seq<char>) -> Option<Seq<char>> {
    match json_string_field(content, "TunnelID"@) {
        Some(u) => Some(u),
        None => json_string_field(content, "TunnelId"@),
    }
}

/// The UUID of a directory entry that is a readable credentials file holding one.
pub open spec fn credential_uuid(f: CredentialFileView) -> Option<Seq<char>> {
    match f.file_name {
        None => None,
        Some(n) => if !is_credential_name(n) {
            None
        } else {
            match f.content {
                None => None,
                Some(c) => uuid_field(c),
            }
        },
    }
}

/// A credentials file holding a UUID that names the tunnel `name`.
pub open spec fn names_tunnel_with_uuid(f: CredentialFileView, name: Seq<char>) -> bool {
    credential_uuid(f) is Some && names_tunnel(f.content->0, name)
}

/// The state of a scan of the credentials directory: a file that names the
/// tunnel was found, or the newest file with a UUID so far (time, UUID).
pub enum CredentialScan {
    Named(Seq<char>),
    Newest(Option<(int, Seq<char>)>),
}

/// Scanning the entries in directory order: the first credentials file that
/// names the tunnel ends the scan; otherwise each file with a UUID and a
/// modification time strictly later than the best so far becomes the best.
pub open spec fn scan_credentials(files: Seq<CredentialFileView>, name: Seq<char>) -> CredentialScan
    decreases files.len(),
{
    if files.len() == 0 {
        CredentialScan::Newest(None)
    } else {
        match scan_credentials(files.drop_last(), name) {
            CredentialScan::Named(u) => CredentialScan::Named(u),
            CredentialScan::Newest(best) => {
                let f = files.last();
                match credential_uuid(f) {
                    None => CredentialScan::Newest(best),
                    Some(u) => if names_tunnel(f.content->0, name) {
                        CredentialScan::Named(u)
                    } else {
                        match f.modified {
                            None => CredentialScan::Newest(best),
                            Some(t) => match best {
                                None => CredentialScan::Newest(Some((t, u))),
                                Some(b) => if t > b.0 {
                                    CredentialScan::Newest(Some((t, u)))
                                } else {
                                    CredentialScan::Newest(best)
                                },
                            },
                        }
                    },
                }
            },
        }
    }
}

/// `"<key>":"<name>"` as a string.
fn name_entry_text(key: &str, name: &str) -> (res: String)
    ensures
        res@ == name_entry(key@, name@),
{
    let mut res = String::from_str("\"");
    res.append(key);
    res.append("\":\"");
    res.append(name);
    res.append("\"");
    proof {
        reveal_strlit("\"");
        reveal_strlit("\":\"");
    }
    assert(res@ =~= name_entry(key@, name@));
    res
}

/// Whether `content` names the tunnel `name`.
fn content_names_tunnel(content: &str, name: &str) -> (res: bool)
    ensures
        res == names_tunnel(content@, name@),
{
    let by_tunnel_name = name_entry_text("TunnelName", name);
    if contains_str(content, by_tunnel_name.as_str()) {
        return true;
    }
    let by_name = name_entry_text("Name", name);
    contains_str(content, by_name.as_str())
}

/// The tunnel UUID held by a credentials file's text.
fn uuid_in_content(content: &str) -> (res: Option<String>)
    ensures
        match res {
            Some(u) => uuid_field(content@) == Some(u@),
            None => uuid_field(content@) is None,
        },
{
    match extract_json_string_field(content, "TunnelID") {
        Some(u) => Some(u),
        None => extract_json_string_field(content, "TunnelId"),
    }
}

/// The UUID of one directory entry, if it is a readable credentials file holding one.
fn entry_uuid(f: &CredentialFile, patterns: &OutputPatterns) -> (res: Option<String>)
    requires
        patterns.wf(),
    ensures
        match res {
            Some(u) => credential_uuid(f@) == Some(u@),
            None => credential_uuid(f@) is None,
        },
{
    match &f.file_name {
        None => None,
        Some(n) => {
            if !is_credential_file_name(n.as_str(), patterns) {
                return None;
            }
            match &f.content {
                None => None,
                Some(c) => uuid_in_content(c.as_str()),
            }
        },
    }
}

/// The view of an exec scan state.
pub open spec fn scan_view(named: Option<String>, best: Option<(i128, String)>) -> CredentialScan {
    match named {
        Some(u) => CredentialScan::Named(u@),
        None => CredentialScan::Newest(
            match best {
                Some(b) => Some((b.0 as int, b.1@)),
                None => None,
            },
        ),
    }
}

/// Scans the credentials directory for the UUID of the tunnel `name`.
pub fn scan_credential_files(
    files: &Vec<CredentialFile>,
    name: &str,
    patterns: &OutputPatterns,
) -> (res: (Option<String>, Option<(i128, String)>))
    requires
        patterns.wf(),
    ensures
        scan_view(res.0, res.1) == scan_credentials(file_views(files@), name@),
{
    let n = files.len();
    let mut best: Option<(i128, String)> = None;
    let mut i: usize = 0;
    assert(file_views(files@).take(0) =~= Seq::<CredentialFileView>::empty());
    while i < n
        invariant
            n == files@.len(),
            i <= n,
            patterns.wf(),
            scan_view(None, best) == scan_credentials(file_views(files@).take(i as int), name@),
        decreases n - i,
    {
        let f = &files[i];
        let ghost pre = file_views(files@).take(i as int);
        let ghost next = file_views(files@).take(i + 1);
        assert(next.drop_last() =~= pre);
        assert(next.last() == f@);
        match entry_uuid(f, patterns) {
            None => {},
            Some(u) => {
                let content = match &f.content {
                    Some(c) => c.as_str(),
                    None => "",
                };
                if content_names_tunnel(content, name) {
                    proof {
                        assert(scan_credentials(next, name@) == CredentialScan::Named(u@));
                        lemma_scan_named_stays(file_views(files@), name@, i + 1);
                    }
                    return (Some(u), None);
                }
                match f.modified {
                    None => {},
                    Some(t) => {
                        let newer = match &best {
                            None => true,
                            Some(b) => t > b.0,
                        };
                        if newer {
                            best = Some((t, u));
                        }
                    },
                }
            },
        }
        i = i + 1;
    }
    assert(file_views(files@).take(n as int) =~= file_views(files@));
    (None, best)
}

/// Once a file that names the tunnel is found, later files do not change the outcome.
pub proof fn lemma_scan_named_stays(files: Seq<CredentialFileView>, name: Seq<char>, k: int)
    requires
        0 <= k <= files.len(),
        scan_credentials(files.take(k), name) is Named,
    ensures
        scan_credentials(files, name) == scan_credentials(files.take(k), name),
    decreases files.len() - k,
{
    if k < files.len() {
        assert(files.take(k + 1).drop_last() =~= files.take(k));
        lemma_scan_named_stays(files, name, k + 1);
    } else {
        assert(files.take(k) =~= files);
    }
}

// ---------------------------------------------------------------------------
// The command's output
// ---------------------------------------------------------------------------

/// The lines of the command's output with colour escapes removed, standard
/// error first.
pub open spec fn output_lines(stdout: Seq<char>, stderr: Seq<char>) -> Seq<Seq<char>> {
    lines_of(ansi_stripped(stderr)) + lines_of(ansi_stripped(stdout))
}

/// The first UUID found in `lines`, searched line by line.
pub open spec fn first_uuid_in(lines: Seq<Seq<char>>) -> Option<Seq<char>>
    decreases lines.len(),
{
    if lines.len() == 0 {
        None
    } else {
        match leftmost_uuid(lines[0]) {
            Some(u) => Some(u),
            None => first_uuid_in(lines.drop_first()),
        }
    }
}

/// Searching two blocks of lines is searching the first, then the second.
pub proof fn lemma_first_uuid_in_concat(a: Seq<Seq<char>>, b: Seq<Seq<char>>)
    ensures
        first_uuid_in(a + b) == (match first_uuid_in(a) {
            Some(u) => Some(u),
            None => first_uuid_in(b),
        }),
    decreases a.len(),
{
    if a.len() > 0 {
        assert((a + b).drop_first() =~= a.drop_first() + b);
        lemma_first_uuid_in_concat(a.drop_first(), b);
    } else {
        assert(a + b =~= b);
    }
}

/// The first UUID in `lines`.
fn first_uuid_in_lines(lines: &Vec<String>, patterns: &OutputPatterns) -> (res: Option<String>)
    requires
        patterns.wf(),
    ensures
        match res {
            Some(u) => first_uuid_in(views(lines@)) == Some(u@),
            None => first_uuid_in(views(lines@)) is None,
        },
{
    let n = lines.len();
    let mut i: usize = 0;
    assert(views(lines@).skip(0) =~= views(lines@));
    while i < n
        invariant
            n == lines@.len(),
            i <= n,
            patterns.wf(),
            first_uuid_in(views(lines@)) == first_uuid_in(views(lines@).skip(i as int)),
        decreases n - i,
    {
        let ghost rest = views(lines@).skip(i as int);
        assert(rest[0] == lines@[i as int]@);
        assert(rest.drop_first() =~= views(lines@).skip(i + 1));
        match find_uuid(lines[i].as_str(), patterns) {
            Some(u) => {
                return Some(u);
            },
            None => {},
        }
        i = i + 1;
    }
    None
}

/// The first UUID printed by the command, standard error first, colour escapes removed.
pub fn uuid_from_output(stdout: &str, stderr: &str, patterns: &OutputPatterns) -> (res: Option<
    String,
>)
    requires
        patterns.wf(),
    ensures
        match res {
            Some(u) => first_uuid_in(output_lines(stdout@, stderr@)) == Some(u@),
            None => first_uuid_in(output_lines(stdout@, stderr@)) is None,
        },
{
    let clean_stderr = strip_ansi(stderr, patterns);
    let clean_stdout = strip_ansi(stdout, patterns);
    let err_lines = split_lines(clean_stderr.as_str());
    let out_lines = split_lines(clean_stdout.as_str());
    proof {
        lemma_first_uuid_in_concat(views(err_lines@), views(out_lines@));
    }
    match first_uuid_in_lines(&err_lines, patterns) {
        Some(u) => Some(u),
        None => first_uuid_in_lines(&out_lines, patterns),
    }
}

// ---------------------------------------------------------------------------
// The whole extraction
// ---------------------------------------------------------------------------

/// The message when the home directory is unknown.
pub open spec fn no_home_message() -> Seq<char> {
    "无法确定用户主目录（$HOME 未设置）"@
}

/// The message when no UUID could be found anywhere.
pub open spec fn no_uuid_message(stdout: Seq<char>, stderr: Seq<char>) -> Seq<char> {
    "无法从 cloudflared 输出中提取隧道 UUID。\n原始 stdout:\n"@ + trimmed(stdout)
        + "\n原始 stderr:\n"@ + trimmed(stderr)
        + "\n请检查 ~/.cloudflared/ 目录下是否存在 <uuid>.json 凭证文件。"@
}

/// Where the UUID of the tunnel `name` comes from: a credentials file that
/// names it, else the newest credentials file, else the command's output.
pub open spec fn tunnel_uuid(
    home_found: bool,
    files: Seq<CredentialFileView>,
    stdout: Seq<char>,
    stderr: Seq<char>,
    name: Seq<char>,
) -> Result<Seq<char>, Seq<char>> {
    if !home_found {
        Err(no_home_message())
    } else {
        match scan_credentials(files, name) {
            CredentialScan::Named(u) => Ok(u),
            CredentialScan::Newest(Some(b)) => Ok(b.1),
            CredentialScan::Newest(None) => match first_uuid_in(output_lines(stdout, stderr)) {
                Some(u) => Ok(u),
                None => Err(no_uuid_message(stdout, stderr)),
            },
        }
    }
}

/// The UUID of the tunnel `tunnel_name` just created, given whether the home
/// directory is known, the entries of its `.cloudflared` directory in the
/// order they were listed, and what `tunnel create` printed.
pub fn extract_tunnel_uuid(
    home_found: bool,
    files: &Vec<CredentialFile>,
    stdout: &str,
    stderr: &str,
    tunnel_name: &str,
    patterns: &OutputPatterns,
) -> (res: Result<String, String>)
    requires
        patterns.wf(),
    ensures
        match res {
            Ok(u) => tunnel_uuid(home_found, file_views(files@), stdout@, stderr@, tunnel_name@)
                == Ok::<Seq<char>, Seq<char>>(u@),
            Err(e) => tunnel_uuid(home_found, file_views(files@), stdout@, stderr@, tunnel_name@)
                == Err::<Seq<char>, Seq<char>>(e@),
        },
{
    if !home_found {
        return Err(String::from_str("无法确定用户主目录（$HOME 未设置）"));
    }
    let (named, best) = scan_credential_files(files, tunnel_name, patterns);
    if let Some(u) = named {
        return Ok(u);
    }
    if let Some(b) = best {
        return Ok(b.1);
    }
    match uuid_from_output(stdout, stderr, patterns) {
        Some(u) => Ok(u),
        None => {
            let mut msg = String::from_str("无法从 cloudflared 输出中提取隧道 UUID。\n原始 stdout:\n");
            msg.append(trim_str(stdout));
            msg.append("\n原始 stderr:\n");
            msg.append(trim_str(stderr));
            msg.append("\n请检查 ~/.cloudflared/ 目录下是否存在 <uuid>.json 凭证文件。");
            Err(msg)
        },
    }
}

// ---------------------------------------------------------------------------
// What the scan picks
// ---------------------------------------------------------------------------

/// The scan prefers the first credentials file that names the tunnel; when no
/// file names it, it picks the file with the latest modification time among
/// those with a UUID and a time, the earliest listed among equals; and it
/// picks nothing only when no such file exists.
pub proof fn lemma_scan_prefers_named_then_newest(files: Seq<CredentialFileView>, name: Seq<char>)
    ensures
        match scan_credentials(files, name) {
            CredentialScan::Named(u) => exists|i: int|
                0 <= i < files.len() && names_tunnel_with_uuid(files[i], name) && credential_uuid(
                    files[i],
                ) == Some(u) && (forall|j: int|
                    0 <= j < i ==> !names_tunnel_with_uuid(#[trigger] files[j], name)),
            CredentialScan::Newest(None) => forall|j: int|
                0 <= j < files.len() ==> !names_tunnel_with_uuid(#[trigger] files[j], name) && (
                credential_uuid(files[j]) is None || files[j].modified is None),
            CredentialScan::Newest(Some(b)) => (forall|j: int|
                0 <= j < files.len() ==> !names_tunnel_with_uuid(#[trigger] files[j], name))
                && exists|i: int|
                0 <= i < files.len() && credential_uuid(files[i]) == Some(b.1)
                    && files[i].modified == Some(b.0) && (forall|j: int|
                    0 <= j < files.len() && credential_uuid(#[trigger] files[j]) is Some
                        && files[j].modified is Some ==> files[j].modified->0 <= b.0) && (forall|
                    j: int,
                |
                    0 <= j < i && credential_uuid(#[trigger] files[j]) is Some
                        && files[j].modified is Some ==> files[j].modified->0 < b.0),
        },
    decreases files.len(),
{
    if files.len() > 0 {
        let pre = files.drop_last();
        let k = files.len() - 1;
        lemma_scan_prefers_named_then_newest(pre, name);
        assert forall|j: int| 0 <= j < k implies #[trigger] files[j] == pre[j] by {}
        match scan_credentials(pre, name) {
            CredentialScan::Named(u) => {
                let i = choose|i: int|
                    0 <= i < pre.len() && names_tunnel_with_uuid(pre[i], name) && credential_uuid(
                        pre[i],
                    ) == Some(u) && (forall|j: int|
                        0 <= j < i ==> !names_tunnel_with_uuid(#[trigger] pre[j], name));
                assert(files[i] == pre[i]);
            },
            CredentialScan::Newest(best) => {
                let f = files[k];
                match best {
                    None => {
                        if credential_uuid(f) is Some && names_tunnel(f.content->0, name) {
                            assert(names_tunnel_with_uuid(files[k], name));
                        } else if credential_uuid(f) is Some && f.modified is Some {
                            assert(files[k].modified == Some(f.modified->0));
                        }
                    },
                    Some(b) => {
                        let i = choose|i: int|
                            0 <= i < pre.len() && credential_uuid(pre[i]) == Some(b.1)
                                && pre[i].modified == Some(b.0) && (forall|j: int|
                                0 <= j < pre.len() && credential_uuid(#[trigger] pre[j]) is Some
                                    && pre[j].modified is Some ==> pre[j].modified->0 <= b.0) && (
                            forall|j: int|
                                0 <= j < i && credential_uuid(#[trigger] pre[j]) is Some
                                    && pre[j].modified is Some ==> pre[j].modified->0 < b.0);
                        assert(files[i] == pre[i]);
                        if credential_uuid(f) is Some && names_tunnel(f.content->0, name) {
                            assert(names_tunnel_with_uuid(files[k], name));
                        } else if credential_uuid(f) is Some && f.modified is Some
                            && f.modified->0 > b.0 {
                            assert forall|j: int|
                                0 <= j < k && credential_uuid(#[trigger] files[j]) is Some
                                    && files[j].modified is Some implies files[j].modified->0
                                < f.modified->0 by {
                                assert(files[j] == pre[j]);
                            }
                        }
                    },
                }
            },
        }
    }
}

} // verus!
