use vstd::prelude::*;
use crate::text::chars_of;
use crate::numbers::{parse_i64_str, parse_i64_spec};

verus! {

/// A JSON number: its text as serde_json prints it, and its value where it
/// is an integer that fits in `i64` (serde_json's `as_i64`).
pub struct JsonNumber {
    pub text: String,
    pub as_i64: Option<i64>,
}

/// A JSON document. Object members are kept in the order serde_json
/// iterates them.
pub enum Json {
    Null,
    Bool(bool),
    Number(JsonNumber),
    Str(String),
    Array(Vec<Json>),
    Object(Vec<(String, Json)>),
}

/// The value of the first member named `k`.
pub open spec fn member_lookup(entries: Seq<(String, Json)>, k: Seq<char>) -> Option<Json>
    decreases entries.len(),
{
    if entries.len() == 0 {
        None
    } else if entries[0].0@ == k {
        Some(entries[0].1)
    } else {
        member_lookup(entries.drop_first(), k)
    }
}

/// `value.get(key)`: the member of an object, `None` for anything else.
pub open spec fn json_get_spec(value: Json, key: Seq<char>) -> Option<Json> {
    match value {
        Json::Object(entries) => member_lookup(entries@, key),
        _ => None,
    }
}

/// `value.as_str()`.
pub open spec fn json_as_str(value: Json) -> Option<Seq<char>> {
    match value {
        Json::Str(s) => Some(s@),
        _ => None,
    }
}

/// `value.as_i64()`.
pub open spec fn json_as_i64(value: Json) -> Option<i64> {
    match value {
        Json::Number(n) => n.as_i64,
        _ => None,
    }
}

/// An integer read from a JSON number, or from a string holding a decimal
/// integer.
pub open spec fn value_to_i64_spec(value: Json) -> Option<i64> {
    match json_as_i64(value) {
        Some(v) => Some(v),
        None => match json_as_str(value) {
            Some(s) => match parse_i64_spec(s) {
                Some(v) => Some(v as i64),
                None => None,
            },
            None => None,
        },
    }
}

/// The member named `key` of an object.
pub fn json_get<'a>(value: &'a Json, key: &str) -> (r: Option<&'a Json>)
    ensures
        match r {
            Some(v) => json_get_spec(*value, key@) == Some(*v),
            None => json_get_spec(*value, key@) is None,
        },
{
    match value {
        Json::Object(entries) => {
            let mut i: usize = 0;
            assert(entries@.skip(0) == entries@);
            while i < entries.len()
                invariant
                    i <= entries@.len(),
                    json_get_spec(*value, key@) == member_lookup(entries@, key@),
                    member_lookup(entries@, key@) == member_lookup(entries@.skip(i as int), key@),
                decreases entries.len() - i,
            {
                assert(entries@.skip(i as int)[0] == entries@[i as int]);
                assert(entries@.skip(i as int).drop_first() == entries@.skip(i + 1));
                if crate::text::str_eq(entries[i].0.as_str(), key) {
                    assert(member_lookup(entries@.skip(i as int), key@) == Some(entries@[i as int].1));
                    return Some(&entries[i].1);
                }
                i = i + 1;
            }
            None
        },
        _ => None,
    }
}

/// The text of a JSON string.
pub fn json_str<'a>(value: &'a Json) -> (r: Option<&'a String>)
    ensures
        match r {
            Some(s) => json_as_str(*value) == Some(s@),
            None => json_as_str(*value) is None,
        },
{
    match value {
        Json::Str(s) => Some(s),
        _ => None,
    }
}

/// The elements of a JSON array.
pub fn json_array<'a>(value: &'a Json) -> (r: Option<&'a Vec<Json>>)
    ensures
        match r {
            Some(items) => *value == Json::Array(*items),
            None => !(value is Array),
        },
{
    match value {
        Json::Array(items) => Some(items),
        _ => None,
    }
}

/// An integer from a JSON number or from a string holding one.
pub fn value_to_i64(value: &Json) -> (r: Option<i64>)
    ensures
        r == value_to_i64_spec(*value),
{
    match value {
        Json::Number(n) => {
            if let Some(v) = n.as_i64 {
                return Some(v);
            }
        },
        _ => {},
    }
    match value {
        Json::Str(s) => parse_i64_str(s.as_str()),
        _ => None,
    }
}

/// Longest preview of a value, in characters.
pub const VALUE_PREVIEW_LIMIT: usize = 240;

/// `s` cut to at most `limit` characters.
pub open spec fn clip(s: Seq<char>, limit: int) -> Seq<char> {
    if s.len() <= limit { s } else { s.take(limit) }
}

/// Appends as much of `text` as fits before `out` reaches `limit` characters;
/// `out` stays as it is when it already holds `limit` characters or more.
pub fn append_limited(out: &mut Vec<char>, text: &str, limit: usize)
    ensures
        old(out)@.len() >= limit ==> final(out)@ == old(out)@,
        old(out)@.len() <= limit ==> final(out)@ == clip(old(out)@ + text@, limit as int),
{
    if out.len() >= limit {
        assert(old(out)@.len() <= limit ==> (old(out)@ + text@).take(limit as int) =~= old(out)@);
        return;
    }
    let remaining: usize = limit - out.len();
    let cs = chars_of(text);
    let mut i: usize = 0;
    while i < cs.len() && i < remaining
        invariant
            i <= cs@.len(),
            i <= remaining,
            remaining == limit - old(out)@.len(),
            cs@ == text@,
            out@ == old(out)@ + text@.take(i as int),
        decreases cs.len() - i,
    {
        out.push(cs[i]);
        i = i + 1;
        assert(text@.take(i as int) == text@.take(i - 1).push(text@[i - 1]));
    }
    proof {
        let all = old(out)@ + text@;
        if all.len() <= limit {
            assert(text@.take(i as int) == text@);
        } else {
            assert(out@ =~= all.take(limit as int));
        }
    }
}

/// Unlimited preview text of a JSON value at nesting `depth`: scalars as
/// written, strings quoted, containers bracketed; below depth two an array
/// shows its first six elements and an object its first eight members, with
/// `, …` when there are more; from depth two on a container shows `…`.
pub open spec fn render(v: Json, depth: int) -> Seq<char>
    decreases v, 0int,
{
    match v {
        Json::Null => "—"@,
        Json::Bool(b) => if b { "true"@ } else { "false"@ },
        Json::Number(n) => n.text@,
        Json::Str(s) => "\""@ + s@ + "\""@,
        Json::Array(items) => "["@ + (if depth >= 2 {
            "…"@
        } else {
            render_items(items@, if items@.len() < 6 { items@.len() as int } else { 6 }, depth + 1)
                + (if items@.len() > 6 { ", …"@ } else { Seq::empty() })
        }) + "]"@,
        Json::Object(entries) => "{"@ + (if depth >= 2 {
            "…"@
        } else {
            render_members(entries@, if entries@.len() < 8 { entries@.len() as int } else { 8 }, depth + 1)
                + (if entries@.len() > 8 { ", …"@ } else { Seq::empty() })
        }) + "}"@,
    }
}

/// The first `n` items rendered and separated by `, `.
pub open spec fn render_items(items: Seq<Json>, n: int, depth: int) -> Seq<char>
    decreases items, n,
{
    if n <= 0 || n > items.len() {
        Seq::empty()
    } else if n == 1 {
        render(items[0], depth)
    } else {
        render_items(items, n - 1, depth) + ", "@ + render(items[n - 1], depth)
    }
}

/// The first `n` members rendered as `"key": value` and separated by `, `.
pub open spec fn render_members(entries: Seq<(String, Json)>, n: int, depth: int) -> Seq<char>
    decreases entries, n,
{
    if n <= 0 || n > entries.len() {
        Seq::empty()
    } else if n == 1 {
        "\""@ + entries[0].0@ + "\": "@ + render(entries[0].1, depth)
    } else {
        render_members(entries, n - 1, depth) + ", "@ + "\""@ + entries[n - 1].0@ + "\": "@
            + render(entries[n - 1].1, depth)
    }
}

} // verus!

verus! {

pub proof fn lemma_clip_append(x: Seq<char>, c: Seq<char>, limit: int)
    requires
        0 <= limit,
    ensures
        clip(clip(x, limit) + c, limit) == clip(x + c, limit),
{
    if x.len() > limit {
        assert(clip(x, limit) + c == x.take(limit) + c);
        assert((x.take(limit) + c).take(limit) =~= x.take(limit));
        assert((x + c).take(limit) =~= x.take(limit));
    }
}

pub proof fn lemma_clip_full(x: Seq<char>, c: Seq<char>, limit: int)
    requires
        0 <= limit,
        x.len() >= limit,
        x.len() <= limit,
    ensures
        clip(x + c, limit) == x,
{
    assert((x + c).take(limit) =~= x);
}

/// Appends the preview of `value` (see `render`) to `out`, never letting
/// `out` grow past `limit` characters; `out` stays as it is when it already
/// holds `limit` characters or more.
#[verifier::rlimit(60)]
pub fn push_json_preview(value: &Json, out: &mut Vec<char>, depth: usize, limit: usize)
    ensures
        old(out)@.len() >= limit ==> final(out)@ == old(out)@,
        old(out)@.len() <= limit ==> final(out)@ == clip(old(out)@ + render(*value, depth as int), limit as int),
    decreases *value,
{
    if out.len() >= limit {
        proof {
            if out@.len() <= limit {
                lemma_clip_full(out@, render(*value, depth as int), limit as int);
            }
        }
        return;
    }
    let ghost o = out@;
    let ghost l = limit as int;
    match value {
        Json::Null => append_limited(out, "—", limit),
        Json::Bool(b) => {
            if *b {
                append_limited(out, "true", limit);
            } else {
                append_limited(out, "false", limit);
            }
        },
        Json::Number(n) => append_limited(out, n.text.as_str(), limit),
        Json::Str(s) => {
            append_limited(out, "\"", limit);
            append_limited(out, s.as_str(), limit);
            proof { lemma_clip_append(o + "\""@, s@, l); }
            append_limited(out, "\"", limit);
            proof {
                lemma_clip_append(o + "\""@ + s@, "\""@, l);
                assert(o + "\""@ + s@ + "\""@ == o + ("\""@ + s@ + "\""@));
            }
        },
        Json::Array(items) => {
            append_limited(out, "[", limit);
            let ghost inner: Seq<char>;
            if depth >= 2 {
                append_limited(out, "…", limit);
                proof {
                    lemma_clip_append(o + "["@, "…"@, l);
                    inner = "…"@;
                }
            } else {
                let n: usize = if items.len() < 6 { items.len() } else { 6 };
                let mut idx: usize = 0;
                while idx < n
                    invariant
                        idx <= n <= items@.len(),
                        n == (if items@.len() < 6 { items@.len() as int } else { 6 }),
                        depth < 2,
                        *value == Json::Array(*items),
                        l == limit as int,
                        out@.len() <= limit,
                        out@ == clip(o + "["@ + render_items(items@, idx as int, depth + 1), l),
                    decreases n - idx,
                {
                    if idx > 0 {
                        append_limited(out, ", ", limit);
                        proof { lemma_clip_append(o + "["@ + render_items(items@, idx as int, depth + 1), ", "@, l); }
                    }
                    let ghost before = out@;
                    proof {
                        assert(decreases_to!(*value => (*value)->Array_0));
                        assert((*value)->Array_0 == *items);
                        assert(decreases_to!(*items => items@));
                        assert(decreases_to!(items@ => items@[idx as int]));
                    }
                    push_json_preview(&items[idx], out, depth + 1, limit);
                    proof {
                        let prefix = o + "["@ + render_items(items@, idx as int, depth + 1);
                        let item = render(items@[idx as int], depth + 1);
                        if idx > 0 {
                            lemma_clip_append(prefix + ", "@, item, l);
                            assert(render_items(items@, idx + 1, depth + 1) == render_items(items@, idx as int, depth + 1) + ", "@ + item);
                            assert(prefix + ", "@ + item == o + "["@ + render_items(items@, idx + 1, depth + 1));
                        } else {
                            lemma_clip_append(prefix, item, l);
                            assert(render_items(items@, 0, depth + 1) == Seq::<char>::empty());
                            assert(render_items(items@, 1, depth + 1) == item);
                            assert(prefix + item == o + "["@ + render_items(items@, 1, depth + 1));
                        }
                    }
                    idx = idx + 1;
                }
                if items.len() > 6 {
                    append_limited(out, ", …", limit);
                    proof { lemma_clip_append(o + "["@ + render_items(items@, n as int, depth + 1), ", …"@, l); }
                }
                proof {
                    inner = render_items(items@, n as int, depth + 1) + (if items@.len() > 6 { ", …"@ } else { Seq::empty() });
                    if items@.len() <= 6 {
                        assert(o + "["@ + render_items(items@, n as int, depth + 1) == o + "["@ + inner);
                    } else {
                        assert(o + "["@ + render_items(items@, n as int, depth + 1) + ", …"@ == o + "["@ + inner);
                    }
                }
            }
            append_limited(out, "]", limit);
            proof {
                lemma_clip_append(o + "["@ + inner, "]"@, l);
                assert(render(*value, depth as int) == "["@ + inner + "]"@);
                assert(o + "["@ + inner + "]"@ == o + render(*value, depth as int));
            }
        },
        Json::Object(entries) => {
            append_limited(out, "{", limit);
            let ghost inner: Seq<char>;
            if depth >= 2 {
                append_limited(out, "…", limit);
                proof {
                    lemma_clip_append(o + "{"@, "…"@, l);
                    inner = "…"@;
                }
            } else {
                let n: usize = if entries.len() < 8 { entries.len() } else { 8 };
                let mut idx: usize = 0;
                while idx < n
                    invariant
                        idx <= n <= entries@.len(),
                        n == (if entries@.len() < 8 { entries@.len() as int } else { 8 }),
                        depth < 2,
                        *value == Json::Object(*entries),
                        l == limit as int,
                        out@.len() <= limit,
                        out@ == clip(o + "{"@ + render_members(entries@, idx as int, depth + 1), l),
                    decreases n - idx,
                {
                    let ghost prefix = o + "{"@ + render_members(entries@, idx as int, depth + 1);
                    let ghost sep: Seq<char> = if idx > 0 { ", "@ } else { Seq::empty() };
                    if idx > 0 {
                        append_limited(out, ", ", limit);
                        proof { lemma_clip_append(prefix, ", "@, l); }
                    } else {
                        assert(prefix + sep == prefix);
                    }
                    append_limited(out, "\"", limit);
                    proof { lemma_clip_append(prefix + sep, "\""@, l); }
                    append_limited(out, entries[idx].0.as_str(), limit);
                    proof { lemma_clip_append(prefix + sep + "\""@, entries@[idx as int].0@, l); }
                    append_limited(out, "\": ", limit);
                    proof { lemma_clip_append(prefix + sep + "\""@ + entries@[idx as int].0@, "\": "@, l); }
                    proof {
                        assert(decreases_to!(*value => (*value)->Object_0));
                        assert((*value)->Object_0 == *entries);
                        assert(decreases_to!(*entries => entries@));
                        assert(decreases_to!(entries@ => entries@[idx as int]));
                        assert(decreases_to!(entries@[idx as int] => entries@[idx as int].1));
                    }
                    push_json_preview(&entries[idx].1, out, depth + 1, limit);
                    proof {
                        let item = render(entries@[idx as int].1, depth + 1);
                        let head = prefix + sep + "\""@ + entries@[idx as int].0@ + "\": "@;
                        lemma_clip_append(head, item, l);
                        if idx > 0 {
                            assert(render_members(entries@, idx + 1, depth + 1) == render_members(entries@, idx as int, depth + 1) + ", "@ + "\""@ + entries@[idx as int].0@ + "\": "@ + item);
                        } else {
                            assert(render_members(entries@, 0, depth + 1) == Seq::<char>::empty());
                            assert(render_members(entries@, 1, depth + 1) == "\""@ + entries@[0].0@ + "\": "@ + item);
                        }
                        assert(head + item == o + "{"@ + render_members(entries@, idx + 1, depth + 1));
                    }
                    idx = idx + 1;
                }
                if entries.len() > 8 {
                    append_limited(out, ", …", limit);
                    proof { lemma_clip_append(o + "{"@ + render_members(entries@, n as int, depth + 1), ", …"@, l); }
                }
                proof {
                    inner = render_members(entries@, n as int, depth + 1) + (if entries@.len() > 8 { ", …"@ } else { Seq::empty() });
                    if entries@.len() <= 8 {
                        assert(o + "{"@ + render_members(entries@, n as int, depth + 1) == o + "{"@ + inner);
                    } else {
                        assert(o + "{"@ + render_members(entries@, n as int, depth + 1) + ", …"@ == o + "{"@ + inner);
                    }
                }
            }
            append_limited(out, "}", limit);
            proof {
                lemma_clip_append(o + "{"@ + inner, "}"@, l);
                assert(render(*value, depth as int) == "{"@ + inner + "}"@);
                assert(o + "{"@ + inner + "}"@ == o + render(*value, depth as int));
            }
        },
    }
}

} // verus!
