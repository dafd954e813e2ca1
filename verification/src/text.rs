//! Character-level text operations used by the parsers: the Unicode
//! whitespace set, trimming, line and word splitting, prefix and substring
//! search, and decimal number recognition.
//!
//! Every operation is specified over the character sequence `s@` of a
//! string, with the meaning that the corresponding `str` method documents.

use vstd::prelude::*;

verus! {

broadcast use vstd::string::group_string_axioms;

// ---------------------------------------------------------------------------
// Character classes
// ---------------------------------------------------------------------------

/// The characters with the Unicode `White_Space` property, the set that
/// `char::is_whitespace`, `str::trim` and `str::split_whitespace` use.
pub open spec fn is_white_space(c: char) -> bool {
    ||| ('\u{9}' <= c && c <= '\u{d}')
    ||| c == ' '
    ||| c == '\u{85}'
    ||| c == '\u{a0}'
    ||| c == '\u{1680}'
    ||| ('\u{2000}' <= c && c <= '\u{200a}')
    ||| c == '\u{2028}'
    ||| c == '\u{2029}'
    ||| c == '\u{202f}'
    ||| c == '\u{205f}'
    ||| c == '\u{3000}'
}

/// Whether `c` is whitespace.
pub fn is_whitespace_char(c: char) -> (res: bool)
    ensures
        res == is_white_space(c),
{
    ('\u{9}' <= c && c <= '\u{d}') || c == ' ' || c == '\u{85}' || c == '\u{a0}' || c
        == '\u{1680}' || ('\u{2000}' <= c && c <= '\u{200a}') || c == '\u{2028}' || c
        == '\u{2029}' || c == '\u{202f}' || c == '\u{205f}' || c == '\u{3000}'
}

/// An ASCII letter, `a`-`z` or `A`-`Z`.
pub open spec fn is_ascii_letter(c: char) -> bool {
    ('a' <= c && c <= 'z') || ('A' <= c && c <= 'Z')
}

/// Every character of `s` is an ASCII letter.
pub open spec fn all_ascii_letters(s: Seq<char>) -> bool {
    forall|i: int| 0 <= i < s.len() ==> is_ascii_letter(#[trigger] s[i])
}

/// An ASCII decimal digit.
pub open spec fn is_ascii_digit(c: char) -> bool {
    '0' <= c && c <= '9'
}

/// The characters of `s`, one by one.
pub fn chars_of(s: &str) -> (res: Vec<char>)
    ensures
        res@ == s@,
{
    let mut res: Vec<char> = Vec::new();
    for c in it: s.chars()
        invariant
            res@ == it.seq().take(it.index()),
            it.seq() == s@,
    {
        res.push(c);
    }
    res
}

/// Whether every character of `s` is an ASCII letter (true of the empty string).
pub fn is_all_ascii_letters(s: &str) -> (res: bool)
    ensures
        res == all_ascii_letters(s@),
{
    let cs = chars_of(s);
    let n = cs.len();
    for i in 0..n
        invariant
            n == cs@.len(),
            cs@ == s@,
            forall|k: int| 0 <= k < i ==> is_ascii_letter(#[trigger] cs@[k]),
    {
        let c = cs[i];
        if !(('a' <= c && c <= 'z') || ('A' <= c && c <= 'Z')) {
            return false;
        }
    }
    true
}

// ---------------------------------------------------------------------------
// Trimming
// ---------------------------------------------------------------------------

/// `s` without its leading whitespace.
pub open spec fn trim_front(s: Seq<char>) -> Seq<char>
    decreases s.len(),
{
    if s.len() > 0 && is_white_space(s[0]) {
        trim_front(s.drop_first())
    } else {
        s
    }
}

/// `s` without its trailing whitespace.
pub open spec fn trim_back(s: Seq<char>) -> Seq<char>
    decreases s.len(),
{
    if s.len() > 0 && is_white_space(s.last()) {
        trim_back(s.drop_last())
    } else {
        s
    }
}

/// `s` without leading and trailing whitespace (`str::trim`).
pub open spec fn trimmed(s: Seq<char>) -> Seq<char> {
    trim_back(trim_front(s))
}

/// `trim_front(s)` is a suffix of `s` that is empty or starts with a non-whitespace character.
pub proof fn lemma_trim_front_shape(s: Seq<char>)
    ensures
        exists|k: int| 0 <= k <= s.len() && trim_front(s) == s.skip(k)
            && (forall|j: int| 0 <= j < k ==> is_white_space(#[trigger] s[j])),
        trim_front(s).len() > 0 ==> !is_white_space(trim_front(s)[0]),
    decreases s.len(),
{
    if s.len() > 0 && is_white_space(s[0]) {
        lemma_trim_front_shape(s.drop_first());
        let k = choose|k: int|
            0 <= k <= s.drop_first().len() && trim_front(s.drop_first()) == s.drop_first().skip(k)
                && (forall|j: int| 0 <= j < k ==> is_white_space(#[trigger] s.drop_first()[j]));
        assert(s.drop_first().skip(k) =~= s.skip(k + 1));
        assert forall|j: int| 0 <= j < k + 1 implies is_white_space(#[trigger] s[j]) by {
            if j > 0 {
                assert(s[j] == s.drop_first()[j - 1]);
            }
        }
    } else {
        assert(s.skip(0) =~= s);
    }
}

/// `trim_back(s)` is a prefix of `s` that is empty or ends with a non-whitespace character.
pub proof fn lemma_trim_back_shape(s: Seq<char>)
    ensures
        exists|k: int| 0 <= k <= s.len() && trim_back(s) == s.take(k)
            && (forall|j: int| k <= j < s.len() ==> is_white_space(#[trigger] s[j])),
        trim_back(s).len() > 0 ==> !is_white_space(trim_back(s).last()),
    decreases s.len(),
{
    if s.len() > 0 && is_white_space(s.last()) {
        lemma_trim_back_shape(s.drop_last());
        let k = choose|k: int|
            0 <= k <= s.drop_last().len() && trim_back(s.drop_last()) == s.drop_last().take(k)
                && (forall|j: int|
                k <= j < s.drop_last().len() ==> is_white_space(#[trigger] s.drop_last()[j]));
        assert(s.drop_last().take(k) =~= s.take(k));
        assert forall|j: int| k <= j < s.len() implies is_white_space(#[trigger] s[j]) by {
            if j < s.len() - 1 {
                assert(s[j] == s.drop_last()[j]);
            }
        }
    } else {
        assert(s.take(s.len() as int) =~= s);
    }
}

/// `s` trimmed: the sub-slice of `s` without leading and trailing whitespace.
pub fn trim_str<'a>(s: &'a str) -> (res: &'a str)
    ensures
        res@ == trimmed(s@),
{
    let cs = chars_of(s);
    let n = cs.len();
    let mut i: usize = 0;
    assert(s@.skip(0) =~= s@);
    while i < n && is_whitespace_char(cs[i])
        invariant
            n == cs@.len(),
            cs@ == s@,
            i <= n,
            trim_front(s@) == trim_front(s@.skip(i as int)),
        decreases n - i,
    {
        assert(s@.skip(i as int).drop_first() =~= s@.skip(i + 1));
        i = i + 1;
    }
    assert(trim_front(s@.skip(i as int)) == s@.skip(i as int));
    let ghost front = s@.skip(i as int);
    let mut j: usize = n;
    while j > i && is_whitespace_char(cs[j - 1])
        invariant
            n == cs@.len(),
            cs@ == s@,
            i <= j <= n,
            front == s@.skip(i as int),
            trim_back(front) == trim_back(s@.subrange(i as int, j as int)),
        decreases j,
    {
        assert(s@.subrange(i as int, j as int).drop_last() =~= s@.subrange(i as int, j - 1));
        j = j - 1;
    }
    assert(s@.subrange(i as int, n as int) =~= front);
    s.substring_char(i, j)
}

// ---------------------------------------------------------------------------
// Prefixes and substrings
// ---------------------------------------------------------------------------

/// `p` is a prefix of `s` (`str::starts_with`).
pub open spec fn has_prefix(s: Seq<char>, p: Seq<char>) -> bool {
    p.len() <= s.len() && s.take(p.len() as int) == p
}

/// `t` occurs in `s` at position `i`.
pub open spec fn occurs_at(s: Seq<char>, t: Seq<char>, i: int) -> bool {
    0 <= i && i + t.len() <= s.len() && s.subrange(i, i + t.len()) == t
}

/// `t` occurs somewhere in `s` (`str::contains`).
pub open spec fn has_substring(s: Seq<char>, t: Seq<char>) -> bool {
    exists|i: int| occurs_at(s, t, i)
}

/// The first position at or after `from` where `t` occurs in `s`.
pub open spec fn first_occurrence_from(s: Seq<char>, t: Seq<char>, from: int) -> Option<int>
    decreases s.len() + 1 - from,
{
    if from < 0 || from + t.len() > s.len() {
        None
    } else if occurs_at(s, t, from) {
        Some(from)
    } else {
        first_occurrence_from(s, t, from + 1)
    }
}

/// The first position where `t` occurs in `s` (`str::find`, counted in characters).
pub open spec fn first_occurrence(s: Seq<char>, t: Seq<char>) -> Option<int> {
    first_occurrence_from(s, t, 0)
}

/// `first_occurrence_from` finds the least position at or after `from`.
pub proof fn lemma_first_occurrence_from(s: Seq<char>, t: Seq<char>, from: int)
    requires
        0 <= from,
    ensures
        first_occurrence_from(s, t, from) matches Some(i) ==> from <= i && occurs_at(s, t, i)
            && forall|j: int| from <= j < i ==> !occurs_at(s, t, j),
        first_occurrence_from(s, t, from) is None ==> forall|j: int|
            from <= j ==> !occurs_at(s, t, j),
    decreases s.len() + 1 - from,
{
    if from + t.len() > s.len() {
    } else if occurs_at(s, t, from) {
    } else {
        lemma_first_occurrence_from(s, t, from + 1);
    }
}

/// `first_occurrence` is the least position where `t` occurs, and it exists
/// exactly when `t` is a substring.
pub proof fn lemma_first_occurrence(s: Seq<char>, t: Seq<char>)
    ensures
        first_occurrence(s, t) matches Some(i) ==> occurs_at(s, t, i) && forall|j: int|
            0 <= j < i ==> !occurs_at(s, t, j),
        first_occurrence(s, t) is Some <==> has_substring(s, t),
{
    lemma_first_occurrence_from(s, t, 0);
}

/// Whether `t` occurs in `s` at position `i`.
fn occurs_at_exec(s: &Vec<char>, t: &Vec<char>, i: usize) -> (res: bool)
    ensures
        res == occurs_at(s@, t@, i as int),
{
    if t.len() > s.len() || i > s.len() - t.len() {
        return false;
    }
    let m = t.len();
    let slen = s.len();
    let mut k: usize = 0;
    while k < m
        invariant
            m == t@.len(),
            slen == s@.len(),
            i + m <= slen,
            k <= m,
            forall|q: int| 0 <= q < k ==> s@[i + q] == t@[q],
        decreases m - k,
    {
        if s[i + k] != t[k] {
            assert(s@.subrange(i as int, i + m)[k as int] != t@[k as int]);
            return false;
        }
        k = k + 1;
    }
    assert(s@.subrange(i as int, i + m) =~= t@);
    true
}

/// The first position at or after `from` where `t` occurs in `s`.
pub fn find_chars_from(s: &Vec<char>, t: &Vec<char>, from: usize) -> (res: Option<usize>)
    ensures
        match res {
            Some(i) => first_occurrence_from(s@, t@, from as int) == Some(i as int),
            None => first_occurrence_from(s@, t@, from as int) is None,
        },
{
    let mut i = from;
    while i <= s.len() && t.len() <= s.len() - i
        invariant
            from <= i,
            first_occurrence_from(s@, t@, from as int) == first_occurrence_from(s@, t@, i as int),
        decreases s.len() + 1 - i,
    {
        if occurs_at_exec(s, t, i) {
            return Some(i);
        }
        if i == s.len() {
            assert(first_occurrence_from(s@, t@, i + 1) is None);
            return None;
        }
        i = i + 1;
    }
    None
}

/// The first position (in characters) where `needle` occurs in `hay` (`str::find`).
pub fn find_str(hay: &str, needle: &str) -> (res: Option<usize>)
    ensures
        match res {
            Some(i) => first_occurrence(hay@, needle@) == Some(i as int),
            None => first_occurrence(hay@, needle@) is None,
        },
{
    let h = chars_of(hay);
    let n = chars_of(needle);
    find_chars_from(&h, &n, 0)
}

/// Whether `needle` occurs in `hay` (`str::contains`).
pub fn contains_str(hay: &str, needle: &str) -> (res: bool)
    ensures
        res == has_substring(hay@, needle@),
{
    proof {
        lemma_first_occurrence(hay@, needle@);
    }
    find_str(hay, needle).is_some()
}

/// Whether two strings are equal.
pub fn str_eq(a: &str, b: &str) -> (res: bool)
    ensures
        res == (a@ == b@),
{
    let same_start = starts_with_str(a, b) && starts_with_str(b, a);
    assert(same_start ==> a@ =~= b@) by {
        if same_start {
            assert(a@.take(b@.len() as int) == b@);
            assert(a@.len() == b@.len());
            assert(a@.take(a@.len() as int) =~= a@);
        }
    }
    assert(a@ == b@ ==> same_start) by {
        if a@ == b@ {
            assert(a@.take(a@.len() as int) =~= a@);
        }
    }
    same_start
}

/// Whether `s` starts with `p` (`str::starts_with`).
pub fn starts_with_str(s: &str, p: &str) -> (res: bool)
    ensures
        res == has_prefix(s@, p@),
{
    let sc = chars_of(s);
    let pc = chars_of(p);
    if pc.len() > sc.len() {
        return false;
    }
    let r = occurs_at_exec(&sc, &pc, 0);
    assert(sc@.subrange(0, pc@.len() as int) =~= sc@.take(pc@.len() as int));
    r
}

// ---------------------------------------------------------------------------
// Lines
// ---------------------------------------------------------------------------

/// The views of a sequence of strings.
pub open spec fn views(v: Seq<String>) -> Seq<Seq<char>> {
    v.map_values(|x: String| x@)
}

/// The number of characters of `s` before its first line feed (all of them if it has none).
pub open spec fn line_len(s: Seq<char>) -> nat
    decreases s.len(),
{
    if s.len() == 0 || s[0] == '\n' {
        0
    } else {
        1 + line_len(s.drop_first())
    }
}

/// A line without the carriage return of a `\r\n` ending.
pub open spec fn strip_cr(l: Seq<char>) -> Seq<char> {
    if l.len() > 0 && l.last() == '\r' {
        l.drop_last()
    } else {
        l
    }
}

/// The lines of `s` (`str::lines`): split at each `\n`, a `\r` that precedes it removed,
/// and no empty line after a final line feed.
pub open spec fn lines_of(s: Seq<char>) -> Seq<Seq<char>>
    decreases s.len(),
{
    if s.len() == 0 {
        seq![]
    } else {
        let k = line_len(s);
        if k >= s.len() {
            seq![s]
        } else {
            seq![strip_cr(s.take(k as int))] + lines_of(s.skip(k + 1 as int))
        }
    }
}

/// Where the line that starts at `start` ends: the index of the next line feed, or the length.
fn line_end(cs: &Vec<char>, start: usize) -> (e: usize)
    requires
        start <= cs@.len(),
    ensures
        e == start + line_len(cs@.skip(start as int)),
        e <= cs@.len(),
        e < cs@.len() ==> cs@[e as int] == '\n',
{
    let mut j = start;
    assert(cs@.skip(start as int).skip(0) =~= cs@.skip(start as int));
    while j < cs.len() && cs[j] != '\n'
        invariant
            start <= j <= cs@.len(),
            line_len(cs@.skip(start as int)) == (j - start) + line_len(cs@.skip(j as int)),
        decreases cs@.len() - j,
    {
        assert(cs@.skip(j as int).drop_first() =~= cs@.skip(j + 1));
        j = j + 1;
    }
    j
}

/// The lines of `s` (`str::lines`).
pub fn split_lines(s: &str) -> (res: Vec<String>)
    ensures
        views(res@) == lines_of(s@),
{
    let cs = chars_of(s);
    let n = cs.len();
    let mut res: Vec<String> = Vec::new();
    let mut start: usize = 0;
    assert(s@.skip(0) =~= s@);
    while start < n
        invariant
            n == cs@.len(),
            cs@ == s@,
            start <= n,
            lines_of(s@) == views(res@) + lines_of(s@.skip(start as int)),
        decreases n - start,
    {
        let ghost rest = s@.skip(start as int);
        let e = line_end(&cs, start);
        let ghost old_res = res@;
        if e >= n {
            let line = s.substring_char(start, n).to_owned();
            assert(line@ =~= rest);
            res.push(line);
            assert(views(res@) =~= views(old_res).push(line@));
            assert(s@.skip(n as int) =~= Seq::<char>::empty());
            start = n;
        } else {
            let mut end = e;
            if e > start && cs[e - 1] == '\r' {
                end = e - 1;
            }
            let line = s.substring_char(start, end).to_owned();
            assert(rest.take(e - start) =~= s@.subrange(start as int, e as int));
            assert(line@ =~= strip_cr(rest.take(e - start)));
            assert(rest.skip(e - start + 1) =~= s@.skip(e + 1));
            res.push(line);
            assert(views(res@) =~= views(old_res).push(line@));
            start = e + 1;
        }
    }
    assert(s@.skip(n as int) =~= Seq::<char>::empty());
    assert(views(res@) + Seq::<Seq<char>>::empty() =~= views(res@));
    res
}

// ---------------------------------------------------------------------------
// Words
// ---------------------------------------------------------------------------

/// The number of leading non-whitespace characters of `s`.
pub open spec fn word_len(s: Seq<char>) -> nat
    decreases s.len(),
{
    if s.len() == 0 || is_white_space(s[0]) {
        0
    } else {
        1 + word_len(s.drop_first())
    }
}

/// A run of non-whitespace characters is no longer than the text.
pub proof fn lemma_word_len_bound(s: Seq<char>)
    ensures
        word_len(s) <= s.len(),
        forall|j: int| 0 <= j < word_len(s) ==> !is_white_space(#[trigger] s[j]),
        word_len(s) < s.len() ==> is_white_space(s[word_len(s) as int]),
    decreases s.len(),
{
    if s.len() > 0 && !is_white_space(s[0]) {
        lemma_word_len_bound(s.drop_first());
        assert forall|j: int| 0 <= j < word_len(s) implies !is_white_space(#[trigger] s[j]) by {
            if j > 0 {
                assert(s[j] == s.drop_first()[j - 1]);
            }
        }
        if word_len(s) < s.len() {
            assert(s[word_len(s) as int] == s.drop_first()[word_len(s.drop_first()) as int]);
        }
    }
}

/// The whitespace-separated words of `s` (`str::split_whitespace`).
pub open spec fn words_of(s: Seq<char>) -> Seq<Seq<char>>
    decreases s.len(),
{
    if s.len() == 0 {
        seq![]
    } else if is_white_space(s[0]) {
        words_of(s.drop_first())
    } else {
        let k = word_len(s);
        proof {
            lemma_word_len_bound(s);
        }
        seq![s.take(k as int)] + words_of(s.skip(k as int))
    }
}

/// The whitespace-separated words of `s` (`str::split_whitespace`).
pub fn split_words(s: &str) -> (res: Vec<String>)
    ensures
        views(res@) == words_of(s@),
{
    let cs = chars_of(s);
    let n = cs.len();
    let mut res: Vec<String> = Vec::new();
    let mut i: usize = 0;
    assert(s@.skip(0) =~= s@);
    while i < n
        invariant
            n == cs@.len(),
            cs@ == s@,
            i <= n,
            words_of(s@) == views(res@) + words_of(s@.skip(i as int)),
        decreases n - i,
    {
        let ghost rest = s@.skip(i as int);
        if is_whitespace_char(cs[i]) {
            assert(rest.drop_first() =~= s@.skip(i + 1));
            i = i + 1;
        } else {
            let mut j = i + 1;
            assert(rest.drop_first() =~= s@.skip(i + 1));
            assert(s@.skip(i + 1).skip(0) =~= s@.skip(i + 1));
            while j < n && !is_whitespace_char(cs[j])
                invariant
                    n == cs@.len(),
                    cs@ == s@,
                    i < j <= n,
                    word_len(rest) == (j - i) + word_len(s@.skip(j as int)),
                decreases n - j,
            {
                assert(s@.skip(j as int).drop_first() =~= s@.skip(j + 1));
                j = j + 1;
            }
            let ghost old_res = res@;
            let w = s.substring_char(i, j).to_owned();
            assert(rest.take(j - i) =~= w@);
            assert(rest.skip(j - i) =~= s@.skip(j as int));
            res.push(w);
            assert(views(res@) =~= views(old_res).push(w@));
            i = j;
        }
    }
    assert(s@.skip(n as int) =~= Seq::<char>::empty());
    assert(views(res@) + Seq::<Seq<char>>::empty() =~= views(res@));
    res
}

/// `parts` joined with `sep` between neighbours (`[&str]::join`).
pub open spec fn joined(parts: Seq<Seq<char>>, sep: Seq<char>) -> Seq<char>
    decreases parts.len(),
{
    if parts.len() == 0 {
        seq![]
    } else if parts.len() == 1 {
        parts[0]
    } else {
        joined(parts.drop_last(), sep) + sep + parts.last()
    }
}

/// The strings `parts[start..]` joined with `sep` between neighbours.
pub fn join_from(parts: &Vec<String>, start: usize, sep: &str) -> (res: String)
    requires
        start <= parts@.len(),
    ensures
        res@ == joined(views(parts@).skip(start as int), sep@),
{
    let mut res = String::new();
    let n = parts.len();
    let mut i = start;
    assert(views(parts@).skip(start as int).take(0) =~= Seq::<Seq<char>>::empty());
    while i < n
        invariant
            n == parts@.len(),
            start <= i <= n,
            res@ == joined(views(parts@).skip(start as int).take(i - start), sep@),
        decreases n - i,
    {
        let ghost pre = views(parts@).skip(start as int).take(i - start);
        let ghost next = views(parts@).skip(start as int).take(i + 1 - start);
        assert(next.drop_last() =~= pre);
        assert(next.last() == parts@[i as int]@);
        if i > start {
            res.append(sep);
        } else {
            assert(next =~= seq![parts@[i as int]@]);
        }
        res.append(parts[i].as_str());
        i = i + 1;
    }
    assert(views(parts@).skip(start as int).take(n - start) =~= views(parts@).skip(start as int));
    res
}

// ---------------------------------------------------------------------------
// Unsigned decimal numbers
// ---------------------------------------------------------------------------

/// The value of an ASCII digit.
pub open spec fn digit_value(c: char) -> nat {
    (c as int - '0' as int) as nat
}

/// Every character of `d` is an ASCII digit.
pub open spec fn all_digits(d: Seq<char>) -> bool {
    forall|i: int| 0 <= i < d.len() ==> is_ascii_digit(#[trigger] d[i])
}

/// The value of the decimal numeral `d`.
pub open spec fn decimal_value(d: Seq<char>) -> nat
    decreases d.len(),
{
    if d.len() == 0 {
        0
    } else {
        decimal_value(d.drop_last()) * 10 + digit_value(d.last())
    }
}

/// The digits of an unsigned numeral: the text after an optional leading `+`.
pub open spec fn unsigned_digits(s: Seq<char>) -> Seq<char> {
    if s.len() > 0 && s[0] == '+' {
        s.drop_first()
    } else {
        s
    }
}

/// What `str::parse` gives for an unsigned integer type whose largest value is `max`:
/// an optional `+`, then one or more ASCII digits whose value is at most `max`.
pub open spec fn parse_unsigned(s: Seq<char>, max: nat) -> Option<nat> {
    let d = unsigned_digits(s);
    if d.len() > 0 && all_digits(d) && decimal_value(d) <= max {
        Some(decimal_value(d))
    } else {
        None
    }
}

/// A numeral never has a smaller value than one of its prefixes.
pub proof fn lemma_decimal_value_prefix(d: Seq<char>, k: int)
    requires
        0 <= k <= d.len(),
        all_digits(d),
    ensures
        decimal_value(d.take(k)) <= decimal_value(d),
    decreases d.len(),
{
    if k < d.len() {
        assert(d.drop_last().take(k) =~= d.take(k));
        assert(all_digits(d.drop_last())) by {
            assert forall|i: int| 0 <= i < d.drop_last().len() implies is_ascii_digit(
                #[trigger] d.drop_last()[i],
            ) by {
                assert(d.drop_last()[i] == d[i]);
            }
        }
        lemma_decimal_value_prefix(d.drop_last(), k);
    } else {
        assert(d.take(k) =~= d);
    }
}

/// The value of `s` read as an unsigned integer no larger than `max` (`str::parse`).
pub fn parse_unsigned_text(s: &str, max: u64) -> (res: Option<u64>)
    ensures
        match res {
            Some(v) => parse_unsigned(s@, max as nat) == Some(v as nat),
            None => parse_unsigned(s@, max as nat) is None,
        },
{
    let cs = chars_of(s);
    let n = cs.len();
    let mut i: usize = 0;
    if n > 0 && cs[0] == '+' {
        i = 1;
    }
    let ghost d = unsigned_digits(s@);
    assert(d =~= s@.skip(i as int));
    if i == n {
        return None;
    }
    let mut acc: u64 = 0;
    let mut k = i;
    assert(d.take(0) =~= Seq::<char>::empty());
    while k < n
        invariant
            n == cs@.len(),
            cs@ == s@,
            i <= k <= n,
            d == unsigned_digits(s@),
            d =~= s@.skip(i as int),
            all_digits(d.take(k - i)),
            acc as nat == decimal_value(d.take(k - i)),
            acc <= max,
        decreases n - k,
    {
        let c = cs[k];
        let ghost pre = d.take(k - i);
        let ghost next = d.take(k + 1 - i);
        assert(next.drop_last() =~= pre);
        assert(next.last() == c);
        if !('0' <= c && c <= '9') {
            assert(!is_ascii_digit(d[k - i]));
            return None;
        }
        let digit = (c as u32 - '0' as u32) as u64;
        let wide: u128 = acc as u128 * 10 + digit as u128;
        assert(wide == decimal_value(next));
        assert(all_digits(next)) by {
            assert forall|q: int| 0 <= q < next.len() implies is_ascii_digit(#[trigger] next[q]) by {
                if q < next.len() - 1 {
                    assert(next[q] == pre[q]);
                }
            }
        }
        if wide > max as u128 {
            proof {
                if all_digits(d) {
                    lemma_decimal_value_prefix(d, k + 1 - i);
                }
            }
            return None;
        }
        acc = wide as u64;
        k = k + 1;
    }
    assert(d.take(n - i) =~= d);
    Some(acc)
}

// ---------------------------------------------------------------------------
// Building strings
// ---------------------------------------------------------------------------

/// `a` followed by `b`.
pub fn concat2(a: &str, b: &str) -> (res: String)
    ensures
        res@ == a@ + b@,
{
    let mut res = String::from_str(a);
    res.append(b);
    res
}

/// `a`, `b` and `c` in a row.
pub fn concat3(a: &str, b: &str, c: &str) -> (res: String)
    ensures
        res@ == a@ + b@ + c@,
{
    let mut res = String::from_str(a);
    res.append(b);
    res.append(c);
    res
}

/// `a`, `b`, `c`, `d` and `e` in a row.
pub fn concat5(a: &str, b: &str, c: &str, d: &str, e: &str) -> (res: String)
    ensures
        res@ == a@ + b@ + c@ + d@ + e@,
{
    let mut res = String::from_str(a);
    res.append(b);
    res.append(c);
    res.append(d);
    res.append(e);
    res
}

/// An owned copy of `s`.
pub fn owned(s: &str) -> (res: String)
    ensures
        res@ == s@,
{
    String::from_str(s)
}

// ---------------------------------------------------------------------------
// Facts about words, joining and trimming
// ---------------------------------------------------------------------------

/// A word: non-empty, without whitespace.
pub open spec fn is_word(w: Seq<char>) -> bool {
    w.len() > 0 && forall|i: int| 0 <= i < w.len() ==> !is_white_space(#[trigger] w[i])
}

/// The leading run of non-whitespace of a concatenation.
pub proof fn lemma_word_len_concat(x: Seq<char>, y: Seq<char>)
    ensures
        word_len(x) < x.len() ==> word_len(x + y) == word_len(x),
        word_len(x) == x.len() ==> word_len(x + y) == x.len() + word_len(y),
    decreases x.len(),
{
    lemma_word_len_bound(x);
    if x.len() == 0 {
        assert(x + y =~= y);
    } else if is_white_space(x[0]) {
        assert((x + y)[0] == x[0]);
    } else {
        assert((x + y).drop_first() =~= x.drop_first() + y);
        lemma_word_len_concat(x.drop_first(), y);
    }
}

/// A whitespace character separates the words before it from those after it.
pub proof fn lemma_words_of_split(a: Seq<char>, c: char, b: Seq<char>)
    requires
        is_white_space(c),
    ensures
        words_of(a + seq![c] + b) == words_of(a) + words_of(b),
    decreases a.len(),
{
    let s = a + seq![c] + b;
    if a.len() == 0 {
        assert(s.drop_first() =~= b);
        assert(words_of(a) =~= Seq::<Seq<char>>::empty());
        assert(Seq::<Seq<char>>::empty() + words_of(b) =~= words_of(b));
    } else if is_white_space(a[0]) {
        assert(s.drop_first() =~= a.drop_first() + seq![c] + b);
        lemma_words_of_split(a.drop_first(), c, b);
    } else {
        lemma_word_len_bound(a);
        lemma_word_len_concat(a, seq![c] + b);
        assert(s =~= a + (seq![c] + b));
        let k = word_len(a);
        if k == a.len() {
            assert(word_len(seq![c] + b) == 0);
        }
        assert(word_len(s) == k);
        assert(s.take(k as int) =~= a.take(k as int));
        assert(s.skip(k as int) =~= a.skip(k as int) + seq![c] + b);
        lemma_words_of_split(a.skip(k as int), c, b);
        assert(words_of(a) == seq![a.take(k as int)] + words_of(a.skip(k as int)));
        assert(words_of(s) == seq![s.take(k as int)] + words_of(s.skip(k as int)));
        assert(words_of(s) =~= words_of(a) + words_of(b));
    }
}

/// A word is its own only word.
pub proof fn lemma_words_of_word(w: Seq<char>)
    requires
        is_word(w),
    ensures
        words_of(w) == seq![w],
{
    lemma_word_len_bound(w);
    let k = word_len(w);
    if k < w.len() {
        assert(!is_white_space(w[k as int]));
    }
    assert(!is_white_space(w[0]));
    assert(w.take(k as int) =~= w);
    assert(w.skip(k as int) =~= Seq::<char>::empty());
    assert(words_of(Seq::<char>::empty()) =~= Seq::<Seq<char>>::empty());
    assert(words_of(w) == seq![w.take(k as int)] + words_of(w.skip(k as int)));
    assert(words_of(w) =~= seq![w]);
}

/// Words joined by single spaces split back into the same words.
pub proof fn lemma_words_of_joined(ws: Seq<Seq<char>>)
    requires
        forall|i: int| 0 <= i < ws.len() ==> is_word(#[trigger] ws[i]),
    ensures
        words_of(joined(ws, seq![' '])) == ws,
    decreases ws.len(),
{
    if ws.len() == 0 {
        assert(words_of(joined(ws, seq![' '])) =~= ws);
    } else if ws.len() == 1 {
        lemma_words_of_word(ws[0]);
        assert(seq![ws[0]] =~= ws);
    } else {
        let pre = ws.drop_last();
        assert forall|i: int| 0 <= i < pre.len() implies is_word(#[trigger] pre[i]) by {
            assert(pre[i] == ws[i]);
        }
        lemma_words_of_joined(pre);
        lemma_words_of_word(ws.last());
        lemma_words_of_split(joined(pre, seq![' ']), ' ', ws.last());
        assert(ws =~= pre + seq![ws.last()]);
    }
}

/// Joined words start with the first word's first character, end with the
/// last word's last character, and contain only word characters and the separator.
pub proof fn lemma_joined_chars(ws: Seq<Seq<char>>)
    requires
        ws.len() > 0,
        forall|i: int| 0 <= i < ws.len() ==> is_word(#[trigger] ws[i]),
    ensures
        joined(ws, seq![' ']).len() > 0,
        joined(ws, seq![' '])[0] == ws[0][0],
        joined(ws, seq![' ']).last() == ws.last().last(),
        forall|i: int|
            0 <= i < joined(ws, seq![' ']).len() ==> #[trigger] joined(ws, seq![' '])[i] == ' '
                || !is_white_space(joined(ws, seq![' '])[i]),
    decreases ws.len(),
{
    if ws.len() > 1 {
        let pre = ws.drop_last();
        assert forall|i: int| 0 <= i < pre.len() implies is_word(#[trigger] pre[i]) by {
            assert(pre[i] == ws[i]);
        }
        lemma_joined_chars(pre);
        let j = joined(ws, seq![' ']);
        let jp = joined(pre, seq![' ']);
        let last = ws.last();
        assert(j == jp + seq![' '] + last);
        assert forall|i: int| 0 <= i < j.len() implies #[trigger] j[i] == ' ' || !is_white_space(
            j[i],
        ) by {
            if i < jp.len() {
                assert(j[i] == jp[i]);
            } else if i > jp.len() {
                assert(j[i] == last[i - jp.len() - 1]);
            }
        }
    }
}

/// Text that starts and ends with a non-whitespace character is its own trimming.
pub proof fn lemma_trimmed_unchanged(s: Seq<char>)
    requires
        s.len() > 0,
        !is_white_space(s[0]),
        !is_white_space(s.last()),
    ensures
        trimmed(s) == s,
{
}

/// Text without a line feed is a single line.
pub proof fn lemma_single_line(s: Seq<char>)
    requires
        s.len() > 0,
        forall|i: int| 0 <= i < s.len() ==> #[trigger] s[i] != '\n',
    ensures
        lines_of(s) == seq![s],
{
    lemma_line_len_full(s);
}

/// Without a line feed, a line runs to the end of the text.
proof fn lemma_line_len_full(s: Seq<char>)
    requires
        forall|i: int| 0 <= i < s.len() ==> #[trigger] s[i] != '\n',
    ensures
        line_len(s) == s.len(),
    decreases s.len(),
{
    if s.len() > 0 {
        assert forall|i: int| 0 <= i < s.drop_first().len() implies #[trigger] s.drop_first()[i]
            != '\n' by {
            assert(s.drop_first()[i] == s[i + 1]);
        }
        lemma_line_len_full(s.drop_first());
    }
}

/// Trimming twice is trimming once.
pub proof fn lemma_trimmed_idempotent(s: Seq<char>)
    ensures
        trimmed(trimmed(s)) == trimmed(s),
{
    lemma_trim_front_shape(s);
    let f = trim_front(s);
    lemma_trim_back_shape(f);
    let t = trim_back(f);
    if t.len() > 0 {
        let k = choose|k: int| 0 <= k <= f.len() && trim_back(f) == f.take(k)
            && (forall|j: int| k <= j < f.len() ==> is_white_space(#[trigger] f[j]));
        assert(t[0] == f[0]);
        lemma_trimmed_unchanged(t);
    }
}

} // verus!
