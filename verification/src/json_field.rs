//! Reading one string field out of flat JSON text without a JSON parser.

use vstd::prelude::*;
use crate::text::{
    chars_of, find_chars_from, first_occurrence, first_occurrence_from, has_substring,
    lemma_first_occurrence, lemma_first_occurrence_from, occurs_at,
};

verus! {

/// The text that introduces the string field `key`: `"key":"`.
pub open spec fn field_opening(key: Seq<char>) -> Seq<char> {
    seq!['"'] + key + seq!['"', ':', '"']
}

/// The value of the string field `key` in `json`: the text between the first
/// `"key":"` and the next `"` after it. Only meant for the simple
/// `"Key":"Value"` form; escapes are not decoded.
pub open spec fn json_string_field(json: Seq<char>, key: Seq<char>) -> Option<Seq<char>> {
    let opening = field_opening(key);
    match first_occurrence(json, opening) {
        None => None,
        Some(p) => {
            let start = p + opening.len();
            match first_occurrence(json.skip(start), seq!['"']) {
                None => None,
                Some(q) => Some(json.subrange(start, start + q)),
            }
        },
    }
}

/// Searching from `from` finds what searching the suffix from its start finds, shifted.
pub proof fn lemma_first_occurrence_shift(s: Seq<char>, t: Seq<char>, from: int, j: int)
    requires
        0 <= from <= s.len(),
        0 <= j,
    ensures
        first_occurrence_from(s, t, from + j) == (match first_occurrence_from(
            s.skip(from),
            t,
            j,
        ) {
            Some(q) => Some(q + from),
            None => None,
        }),
    decreases s.len() + 1 - (from + j),
{
    let r = s.skip(from);
    if from + j + t.len() > s.len() {
    } else {
        assert(occurs_at(s, t, from + j) == occurs_at(r, t, j)) by {
            assert(s.subrange(from + j, from + j + t.len()) =~= r.subrange(j, j + t.len()));
        }
        if !occurs_at(s, t, from + j) {
            lemma_first_occurrence_shift(s, t, from, j + 1);
        }
    }
}

/// `"` followed by `key` and `":"`, as a string.
fn opening_text(key: &str) -> (res: String)
    ensures
        res@ == field_opening(key@),
{
    let mut res = String::from_str("\"");
    res.append(key);
    res.append("\":\"");
    proof {
        reveal_strlit("\"");
        reveal_strlit("\":\"");
    }
    assert(res@ =~= field_opening(key@));
    res
}

/// The value of the string field `key` in `json`, for the simple
/// `"Key":"Value"` form.
pub fn extract_json_string_field(json: &str, key: &str) -> (res: Option<String>)
    ensures
        match res {
            Some(v) => json_string_field(json@, key@) == Some(v@),
            None => json_string_field(json@, key@) is None,
        },
{
    let opening = opening_text(key);
    let js = chars_of(json);
    let jl = js.len();
    let op = chars_of(opening.as_str());
    let p = match find_chars_from(&js, &op, 0) {
        Some(p) => p,
        None => return None,
    };
    proof {
        lemma_first_occurrence_from(js@, op@, 0);
        assert(occurs_at(js@, op@, p as int));
        assert(p + op@.len() <= jl);
    }
    let start = p + op.len();
    let mut quote: Vec<char> = Vec::new();
    quote.push('"');
    assert(quote@ =~= seq!['"']);
    let q = find_chars_from(&js, &quote, start);
    proof {
        lemma_first_occurrence_shift(js@, quote@, start as int, 0);
    }
    match q {
        None => None,
        Some(e) => {
            proof {
                lemma_first_occurrence_from(js@, quote@, start as int);
            }
            Some(json.substring_char(start, e).to_owned())
        },
    }
}

/// A field written as `"key":"value"` (with no `"` in the value) and not
/// preceded by an earlier `"key":"` is read back as `value`.
pub proof fn lemma_json_field_roundtrip(
    before: Seq<char>,
    key: Seq<char>,
    value: Seq<char>,
    after: Seq<char>,
)
    requires
        !has_substring(before + field_opening(key).drop_last(), field_opening(key)),
        forall|i: int| 0 <= i < value.len() ==> #[trigger] value[i] != '"',
    ensures
        json_string_field(before + field_opening(key) + value + seq!['"'] + after, key) == Some(
            value,
        ),
{
    let opening = field_opening(key);
    let json = before + opening + value + seq!['"'] + after;
    let b = before.len() as int;
    lemma_first_occurrence(json, opening);
    assert(occurs_at(json, opening, b)) by {
        assert(json.subrange(b, b + opening.len()) =~= opening);
    }
    assert forall|i: int| 0 <= i < b implies !occurs_at(json, opening, i) by {
        let prefix = before + opening.drop_last();
        if occurs_at(json, opening, i) {
            assert(json.subrange(i, i + opening.len()) =~= prefix.subrange(i, i + opening.len()));
            assert(occurs_at(prefix, opening, i));
        }
    }
    assert(first_occurrence(json, opening) == Some(b));
    let start = b + opening.len();
    let rest = json.skip(start);
    let quote = seq!['"'];
    assert(rest =~= value + seq!['"'] + after);
    lemma_first_occurrence(rest, quote);
    assert(occurs_at(rest, quote, value.len() as int)) by {
        assert(rest.subrange(value.len() as int, value.len() + 1 as int) =~= quote);
    }
    assert forall|i: int| 0 <= i < value.len() implies !occurs_at(rest, quote, i) by {
        assert(rest.subrange(i, i + 1)[0] == value[i]);
    }
    assert(first_occurrence(rest, quote) == Some(value.len() as int));
    assert(json.subrange(start, start + value.len()) =~= value);
}

} // verus!
