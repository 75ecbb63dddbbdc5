use vstd::prelude::*;
use crate::text::{chars_of, string_from_chars, append_chars, append_str, chars_between, find_char, first_index_of, lemma_first_index_of, trim_chars, trim_spec};
use crate::json::{Json, VALUE_PREVIEW_LIMIT, clip, render, push_json_preview, append_limited};

verus! {

/// The part of an ISO timestamp before its `T` (the whole text when there is
/// none).
pub open spec fn date_part(v: Seq<char>) -> Seq<char> {
    match first_index_of(v, 'T') {
        Some(i) => v.take(i),
        None => v,
    }
}

/// Date part of an ISO-8601 timestamp: `2026-05-21T10:15:00Z` gives
/// `2026-05-21`.
pub fn format_date(value: &str) -> (r: String)
    ensures
        r@ == date_part(value@),
{
    let cs = chars_of(value);
    proof { lemma_first_index_of(cs@, 'T'); }
    match find_char(&cs, 'T') {
        Some(i) => {
            let head = chars_between(&cs, 0, i);
            assert(cs@.subrange(0, i as int) =~= cs@.take(i as int));
            string_from_chars(&head)
        },
        None => string_from_chars(&cs),
    }
}

/// `s` with every `T` replaced by a space.
pub open spec fn replace_t(s: Seq<char>) -> Seq<char> {
    s.map_values(|c: char| if c == 'T' { ' ' } else { c })
}

/// The text before the first `.`, with `T` turned into a space.
pub open spec fn datetime_text(v: Seq<char>) -> Seq<char> {
    replace_t(
        match first_index_of(v, '.') {
            Some(i) => v.take(i),
            None => v,
        },
    )
}

/// Short form of an RFC 3339 timestamp: fractional seconds dropped and the
/// `T` separator shown as a space.
pub fn format_datetime(value: &str) -> (r: String)
    ensures
        r@ == datetime_text(value@),
{
    let cs = chars_of(value);
    proof { lemma_first_index_of(cs@, '.'); }
    let end = match find_char(&cs, '.') {
        Some(i) => i,
        None => cs.len(),
    };
    let mut out: Vec<char> = Vec::new();
    let mut k: usize = 0;
    let ghost head = match first_index_of(value@, '.') {
        Some(i) => value@.take(i),
        None => value@,
    };
    assert(cs@.take(cs@.len() as int) =~= cs@);
    assert(head == cs@.take(end as int));
    while k < end
        invariant
            k <= end <= cs@.len(),
            head == cs@.take(end as int),
            out@ == replace_t(head.take(k as int)),
        decreases end - k,
    {
        let c = if cs[k] == 'T' { ' ' } else { cs[k] };
        out.push(c);
        k = k + 1;
        assert(replace_t(head.take(k as int)) == replace_t(head.take(k - 1)).push(c));
    }
    assert(head.take(end as int) == head);
    string_from_chars(&out)
}

/// Is `c` a marker that starts a timezone suffix?
pub open spec fn is_zone_marker(c: char) -> bool {
    c == 'Z' || c == '+' || c == '-'
}

/// Index of the first zone marker in `s`.
pub open spec fn first_zone_marker(s: Seq<char>) -> Option<int>
    decreases s.len(),
{
    if s.len() == 0 {
        None
    } else if is_zone_marker(s[0]) {
        Some(0)
    } else {
        match first_zone_marker(s.drop_first()) {
            Some(i) => Some(i + 1),
            None => None,
        }
    }
}

/// A timestamp with its fractional seconds removed: the text before the
/// first `.`, followed by the zone suffix that starts at the first `Z`, `+`
/// or `-` after that `.`, if any.
pub open spec fn timestamp_text(raw: Seq<char>) -> Seq<char> {
    match first_index_of(raw, '.') {
        Some(i) => raw.take(i) + match first_zone_marker(raw.skip(i)) {
            Some(j) => raw.skip(i + j),
            None => Seq::empty(),
        },
        None => raw,
    }
}

/// Drops fractional seconds from an ISO-8601 timestamp, keeping any zone
/// suffix: `2026-05-21T10:15:00.123456Z` gives `2026-05-21T10:15:00Z`.
pub fn format_timestamp(raw: &str) -> (r: String)
    ensures
        r@ == timestamp_text(raw@),
{
    let cs = chars_of(raw);
    proof { lemma_first_index_of(cs@, '.'); }
    match find_char(&cs, '.') {
        Some(idx) => {
            let mut out = chars_between(&cs, 0, idx);
            assert(cs@.subrange(0, idx as int) =~= cs@.take(idx as int));
            let mut j: usize = idx;
            assert(cs@.skip(idx as int).skip(0) == cs@.skip(idx as int));
            while j < cs.len() && !(cs[j] == 'Z' || cs[j] == '+' || cs[j] == '-')
                invariant
                    idx <= j <= cs@.len(),
                    first_zone_marker(cs@.skip(idx as int)) == (match first_zone_marker(cs@.skip(j as int)) {
                        Some(t) => Some(t + (j - idx)),
                        None => None::<int>,
                    }),
                decreases cs.len() - j,
            {
                assert(cs@.skip(j as int).drop_first() == cs@.skip(j + 1));
                j = j + 1;
            }
            proof {
                if j == cs@.len() {
                    assert(cs@.skip(j as int).len() == 0);
                } else {
                    assert(cs@.skip(j as int)[0] == cs@[j as int]);
                }
            }
            if j < cs.len() {
                let tail = chars_between(&cs, j, cs.len());
                append_chars(&mut out, &tail);
                assert(cs@.subrange(j as int, cs@.len() as int) =~= cs@.skip(j as int));
            }
            proof {
                if j == cs@.len() {
                    assert(first_zone_marker(cs@.skip(idx as int)) is None);
                } else {
                    assert(first_zone_marker(cs@.skip(idx as int)) == Some((j - idx) as int));
                    assert(idx + (j - idx) == j);
                }
            }
            string_from_chars(&out)
        },
        None => string_from_chars(&cs),
    }
}

/// At most `VALUE_PREVIEW_LIMIT` characters of a text, with `…` when cut.
pub open spec fn text_preview(t: Seq<char>) -> Seq<char> {
    if t.len() > 240 {
        t.take(240) + "…"@
    } else {
        t
    }
}

/// Preview of a long text value.
pub fn value_preview(text: &str) -> (r: String)
    ensures
        r@ == text_preview(text@),
{
    let cs = chars_of(text);
    if cs.len() > VALUE_PREVIEW_LIMIT {
        let mut out = chars_between(&cs, 0, VALUE_PREVIEW_LIMIT);
        append_str(&mut out, "…");
        string_from_chars(&out)
    } else {
        string_from_chars(&cs)
    }
}

/// Preview of a JSON value, cut at 240 characters; a preview that reaches
/// the limit ends in `…`.
pub open spec fn json_preview_text(v: Json) -> Seq<char> {
    let r = clip(render(v, 0), 240);
    if r.len() >= 240 {
        r + "…"@
    } else {
        r
    }
}

/// Compact preview of a JSON value for an audit cell.
pub fn json_preview(value: &Json) -> (r: String)
    ensures
        r@ == json_preview_text(*value),
{
    let mut out: Vec<char> = Vec::new();
    push_json_preview(value, &mut out, 0, VALUE_PREVIEW_LIMIT);
    assert(Seq::<char>::empty() + render(*value, 0) == render(*value, 0));
    if out.len() >= VALUE_PREVIEW_LIMIT {
        append_limited(&mut out, "…", VALUE_PREVIEW_LIMIT + 1);
        proof {
            reveal_strlit("…");
        }
    }
    string_from_chars(&out)
}

/// Display text of an audit value: `—` for null, a cut preview for strings,
/// numbers and booleans as written, containers as a JSON preview.
pub open spec fn pretty_value_text(v: Json) -> Seq<char> {
    match v {
        Json::Null => "—"@,
        Json::Str(s) => text_preview(s@),
        Json::Number(n) => n.text@,
        Json::Bool(b) => if b { "true"@ } else { "false"@ },
        _ => json_preview_text(v),
    }
}

/// Display text of an audit value.
pub fn pretty_value(value: &Json) -> (r: String)
    ensures
        r@ == pretty_value_text(*value),
{
    match value {
        Json::Null => crate::text::owned("—"),
        Json::Str(s) => value_preview(s.as_str()),
        Json::Number(n) => n.text.clone(),
        Json::Bool(b) => if *b { crate::text::owned("true") } else { crate::text::owned("false") },
        _ => json_preview(value),
    }
}

/// Plain-text error bodies are shown trimmed and cut to 240 characters (with
/// `...` when cut); blank bodies and bodies that look like JSON are not.
pub open spec fn plain_text_preview_spec(body: Seq<char>) -> Option<Seq<char>> {
    let t = trim_spec(body);
    if t.len() == 0 || t[0] == '{' || t[0] == '[' {
        None
    } else if t.len() > 240 {
        Some(t.take(240) + "..."@)
    } else {
        Some(t)
    }
}

/// Preview of a plain-text error body.
pub fn plain_text_preview(body: &str) -> (r: Option<String>)
    ensures
        match r {
            Some(s) => plain_text_preview_spec(body@) == Some(s@),
            None => plain_text_preview_spec(body@) is None,
        },
{
    let cs = chars_of(body);
    let t = trim_chars(&cs);
    if t.len() == 0 || t[0] == '{' || t[0] == '[' {
        return None;
    }
    if t.len() > 240 {
        let mut out = chars_between(&t, 0, 240);
        append_str(&mut out, "...");
        Some(string_from_chars(&out))
    } else {
        Some(string_from_chars(&t))
    }
}

} // verus!
