//! Regular expressions, matched by the `regex` crate.
//!
//! A [`Pattern`] is a compiled regular expression together with its source
//! text. The results of matching are named by the functions below, applied to
//! the source text and the haystack; what the `regex` documentation promises
//! of them is stated in the contracts of the methods that call it. For the
//! two fixed patterns this library uses, the UUID pattern and the ANSI escape
//! pattern, the regex syntax fixes what they match, and that is spelled out
//! below as [`leftmost_uuid`] and [`ansi_stripped`].

use vstd::prelude::*;
use crate::text::{has_substring, is_ascii_letter, occurs_at};

verus! {

/// `regex::Regex`, a compiled regular expression; opaque here.
#[verifier::external_type_specification]
#[verifier::external_body]
pub struct ExRegex(regex::Regex);

/// The text of the leftmost-first match of `pattern` in `haystack`
/// (`regex::Regex::find`).
pub uninterp spec fn regex_find(pattern: Seq<char>, haystack: Seq<char>) -> Option<Seq<char>>;

/// `haystack` with every non-overlapping match of `pattern` replaced by
/// `replacement` (`regex::Regex::replace_all`).
pub uninterp spec fn regex_replace_all(
    pattern: Seq<char>,
    haystack: Seq<char>,
    replacement: Seq<char>,
) -> Seq<char>;

/// A compiled regular expression and the source text it was compiled from;
/// its view is the source text. Only [`Pattern::compile`] builds one, so the
/// two always belong together.
pub struct Pattern {
    source: String,
    compiled: regex::Regex,
}

impl View for Pattern {
    type V = Seq<char>;

    /// The source text of the regular expression.
    closed spec fn view(&self) -> Seq<char> {
        self.source@
    }
}

impl Pattern {
    /// Compiles `source` with `regex::Regex::new`.
    ///
    /// Trusted: when it succeeds, the pattern holds `source` as its source
    /// text. The crate documents that it fails only on invalid syntax or a
    /// program beyond the default size limit; the UUID and ANSI patterns are
    /// valid and small, so they compile. For other sources, when it fails is
    /// not stated.
    #[verifier::external_body]
    pub(crate) fn compile(source: &str) -> (res: Option<Pattern>)
        ensures
            res matches Some(p) ==> p@ == source@,
            source@ == uuid_pattern() || source@ == ansi_pattern() ==> res is Some,
    {
        match regex::Regex::new(source) {
            Ok(compiled) => Some(Pattern { source: source.to_string(), compiled }),
            Err(_) => None,
        }
    }

    /// `regex::Regex::find` on `haystack`, giving the matched text.
    ///
    /// Trusted: the result is the named result `regex_find`; as the crate
    /// documents, the matched text is a substring of the haystack. For the
    /// UUID pattern, the crate's syntax and search documentation fix the
    /// match: `find` reports the leftmost match, the classes `[0-9a-f]` are
    /// ASCII ranges, and the pattern has one fixed length with no
    /// alternatives, so the match is the leftmost run of 36 characters in
    /// the 8-4-4-4-12 shape ([`leftmost_uuid`]).
    #[verifier::external_body]
    pub(crate) fn find_text(&self, haystack: &str) -> (res: Option<String>)
        ensures
            match res {
                Some(t) => regex_find(self@, haystack@) == Some(t@),
                None => regex_find(self@, haystack@) is None,
            },
            res matches Some(t) ==> has_substring(haystack@, t@),
            self@ == uuid_pattern() ==> match res {
                Some(t) => leftmost_uuid(haystack@) == Some(t@),
                None => leftmost_uuid(haystack@) is None,
            },
    {
        match self.compiled.find(haystack) {
            Some(m) => Some(m.as_str().to_string()),
            None => None,
        }
    }

    /// `regex::Regex::replace_all` on `haystack` with `replacement` (in which
    /// `$` refers to capture groups).
    ///
    /// Trusted: the result is the named result `regex_replace_all`; as the
    /// crate documents, a haystack without a match (where `find` finds
    /// nothing) comes back unchanged. For the ANSI escape pattern and an
    /// empty replacement, the crate's documentation fixes the result:
    /// `replace_all` replaces the successive non-overlapping leftmost-first
    /// matches, the classes are ASCII ranges, and the greedy `[0-9;]*` is
    /// followed by a class it shares no character with, so a match is
    /// exactly `ESC [`, the longest run of digits and `;`, and one letter
    /// ([`ansi_stripped`]).
    #[verifier::external_body]
    pub(crate) fn replace_all(&self, haystack: &str, replacement: &str) -> (res: String)
        ensures
            res@ == regex_replace_all(self@, haystack@, replacement@),
            regex_find(self@, haystack@) is None ==> res@ == haystack@,
            self@ == ansi_pattern() && replacement@.len() == 0 ==> res@ == ansi_stripped(
                haystack@,
            ),
    {
        self.compiled.replace_all(haystack, replacement).into_owned()
    }
}

/// The source text of the UUID pattern: five groups of lower-case hex digits.
pub open spec fn uuid_pattern() -> Seq<char> {
    r"[0-9a-f]{8}-[0-9a-f]{4}-[0-9a-f]{4}-[0-9a-f]{4}-[0-9a-f]{12}"@
}

/// The source text of the ANSI SGR escape pattern (`ESC [ ... letter`).
pub open spec fn ansi_pattern() -> Seq<char> {
    r"\x1b\[[0-9;]*[a-zA-Z]"@
}

/// A lower-case hexadecimal digit, `[0-9a-f]`.
pub open spec fn is_lower_hex(c: char) -> bool {
    ('0' <= c && c <= '9') || ('a' <= c && c <= 'f')
}

/// Text that the UUID pattern matches: 36 characters, `-` at positions 8,
/// 13, 18 and 23 and a lower-case hex digit everywhere else.
pub open spec fn is_uuid_text(t: Seq<char>) -> bool {
    &&& t.len() == 36
    &&& forall|k: int|
        0 <= k < 36 ==> if k == 8 || k == 13 || k == 18 || k == 23 {
            #[trigger] t[k] == '-'
        } else {
            is_lower_hex(t[k])
        }
}

/// The UUID pattern matches `h` at position `i`.
pub open spec fn uuid_at(h: Seq<char>, i: int) -> bool {
    0 <= i && i + 36 <= h.len() && is_uuid_text(h.subrange(i, i + 36))
}

/// The first UUID in `h` that starts at `i` or later.
pub open spec fn leftmost_uuid_from(h: Seq<char>, i: int) -> Option<Seq<char>>
    decreases h.len() + 1 - i,
{
    if i < 0 || i + 36 > h.len() {
        None
    } else if uuid_at(h, i) {
        Some(h.subrange(i, i + 36))
    } else {
        leftmost_uuid_from(h, i + 1)
    }
}

/// The leftmost match of the UUID pattern in `h`.
pub open spec fn leftmost_uuid(h: Seq<char>) -> Option<Seq<char>> {
    leftmost_uuid_from(h, 0)
}

/// A character of an SGR parameter list, `[0-9;]`.
pub open spec fn is_sgr_param(c: char) -> bool {
    ('0' <= c && c <= '9') || c == ';'
}

/// The number of parameter characters at the front of `s`.
pub open spec fn param_run(s: Seq<char>) -> nat
    decreases s.len(),
{
    if s.len() > 0 && is_sgr_param(s[0]) {
        1 + param_run(s.drop_first())
    } else {
        0
    }
}

/// The length of the escape sequence `ESC [ params letter` at the front of
/// `s`, if one starts there.
pub open spec fn escape_len(s: Seq<char>) -> Option<nat> {
    let k = param_run(s.skip(2)) as int;
    if s.len() >= 2 && s[0] == '\x1b' && s[1] == '[' && 2 + k < s.len() && is_ascii_letter(
        s[2 + k],
    ) {
        Some((3 + k) as nat)
    } else {
        None
    }
}

/// `s` with every ANSI escape sequence removed, scanning from the left.
pub open spec fn ansi_stripped(s: Seq<char>) -> Seq<char>
    decreases s.len(),
{
    if s.len() == 0 {
        s
    } else {
        match escape_len(s) {
            Some(n) => ansi_stripped(s.skip(n as int)),
            None => seq![s[0]] + ansi_stripped(s.drop_first()),
        }
    }
}

/// Searching from `i` finds the text at the first position from `i` on
/// where the UUID pattern matches, and nothing when it matches nowhere there.
proof fn lemma_leftmost_uuid_from(h: Seq<char>, i: int)
    requires
        0 <= i,
    ensures
        match leftmost_uuid_from(h, i) {
            Some(t) => exists|p: int|
                i <= p && uuid_at(h, p) && t == h.subrange(p, p + 36) && forall|j: int|
                    i <= j < p ==> !#[trigger] uuid_at(h, j),
            None => forall|j: int| i <= j ==> !#[trigger] uuid_at(h, j),
        },
    decreases h.len() + 1 - i,
{
    if i + 36 > h.len() {
    } else if uuid_at(h, i) {
        assert(forall|j: int| i <= j < i ==> !#[trigger] uuid_at(h, j));
    } else {
        lemma_leftmost_uuid_from(h, i + 1);
        match leftmost_uuid_from(h, i + 1) {
            Some(t) => {
                let p = choose|p: int|
                    i + 1 <= p && uuid_at(h, p) && t == h.subrange(p, p + 36) && forall|j: int|
                        i + 1 <= j < p ==> !#[trigger] uuid_at(h, j);
                assert(forall|j: int| i <= j < p ==> !#[trigger] uuid_at(h, j));
            },
            None => {},
        }
    }
}

/// The UUID found in a text is the leftmost one: it is the text at a
/// position where the UUID pattern matches and at no earlier position does
/// it match; it has the UUID shape and occurs in the text. Nothing is found
/// exactly when the pattern matches nowhere.
pub proof fn lemma_leftmost_uuid(h: Seq<char>)
    ensures
        match leftmost_uuid(h) {
            Some(t) => exists|p: int|
                uuid_at(h, p) && t == h.subrange(p, p + 36) && forall|j: int|
                    0 <= j < p ==> !#[trigger] uuid_at(h, j),
            None => forall|j: int| !#[trigger] uuid_at(h, j),
        },
        leftmost_uuid(h) matches Some(t) ==> is_uuid_text(t) && has_substring(h, t),
{
    lemma_leftmost_uuid_from(h, 0);
    match leftmost_uuid(h) {
        Some(t) => {
            let p = choose|p: int|
                0 <= p && uuid_at(h, p) && t == h.subrange(p, p + 36) && forall|j: int|
                    0 <= j < p ==> !#[trigger] uuid_at(h, j);
            assert(occurs_at(h, t, p));
        },
        None => {},
    }
}

/// A text that is a UUID as a whole is found as its own leftmost UUID.
pub proof fn lemma_uuid_text_finds_itself(t: Seq<char>)
    requires
        is_uuid_text(t),
    ensures
        leftmost_uuid(t) == Some(t),
{
    assert(t.subrange(0, 36) =~= t);
    assert(uuid_at(t, 0));
}

/// Stripping escape sequences never makes a text longer.
pub proof fn lemma_stripping_never_lengthens(s: Seq<char>)
    ensures
        ansi_stripped(s).len() <= s.len(),
    decreases s.len(),
{
    if s.len() > 0 {
        match escape_len(s) {
            Some(n) => lemma_stripping_never_lengthens(s.skip(n as int)),
            None => lemma_stripping_never_lengthens(s.drop_first()),
        }
    }
}

/// A text without an ESC character comes back unchanged.
pub proof fn lemma_text_without_escape_unchanged(s: Seq<char>)
    requires
        forall|i: int| 0 <= i < s.len() ==> s[i] != '\x1b',
    ensures
        ansi_stripped(s) == s,
    decreases s.len(),
{
    if s.len() > 0 {
        assert(escape_len(s) is None);
        assert forall|i: int| 0 <= i < s.drop_first().len() implies s.drop_first()[i] != '\x1b' by {
            assert(s.drop_first()[i] == s[i + 1]);
        }
        lemma_text_without_escape_unchanged(s.drop_first());
        assert(seq![s[0]] + s.drop_first() =~= s);
    }
}

/// The UUID pattern, compiled.
pub fn uuid_regex() -> (res: Option<Pattern>)
    ensures
        res is Some,
        res matches Some(p) ==> p@ == uuid_pattern(),
{
    Pattern::compile(r"[0-9a-f]{8}-[0-9a-f]{4}-[0-9a-f]{4}-[0-9a-f]{4}-[0-9a-f]{12}")
}

/// The ANSI escape pattern, compiled.
pub fn ansi_regex() -> (res: Option<Pattern>)
    ensures
        res is Some,
        res matches Some(p) ==> p@ == ansi_pattern(),
{
    Pattern::compile(r"\x1b\[[0-9;]*[a-zA-Z]")
}

/// The two patterns that scanning `cloudflared` output needs.
pub struct OutputPatterns {
    pub uuid: Pattern,
    pub ansi: Pattern,
}

impl OutputPatterns {
    /// Both fields hold the patterns they are named after.
    pub open spec fn wf(&self) -> bool {
        &&& self.uuid@ == uuid_pattern()
        &&& self.ansi@ == ansi_pattern()
    }

    /// Compiles both patterns.
    pub fn new() -> (res: Option<OutputPatterns>)
        ensures
            res is Some,
            res matches Some(p) ==> p.wf(),
    {
        let uuid = uuid_regex()?;
        let ansi = ansi_regex()?;
        Some(OutputPatterns { uuid, ansi })
    }
}

/// `s` without its ANSI colour and style escape sequences.
pub fn strip_ansi(s: &str, patterns: &OutputPatterns) -> (res: String)
    requires
        patterns.wf(),
    ensures
        res@ == ansi_stripped(s@),
{
    proof {
        reveal_strlit("");
    }
    patterns.ansi.replace_all(s, "")
}

/// The first UUID in `s`.
pub fn find_uuid(s: &str, patterns: &OutputPatterns) -> (res: Option<String>)
    requires
        patterns.wf(),
    ensures
        match res {
            Some(t) => leftmost_uuid(s@) == Some(t@),
            None => leftmost_uuid(s@) is None,
        },
{
    patterns.uuid.find_text(s)
}

} // verus!
