use vstd::prelude::*;
use crate::text::{chars_of, string_from_chars, split_chars, split_spec, trim_chars, trim_spec, join_spec, join_strings, cat, owned};

verus! {

/// What `uuid::Uuid::parse_str` yields for a text, as the UUID's 128-bit
/// value; `None` where it reports an error.
pub uninterp spec fn uuid_parse_spec(s: Seq<char>) -> Option<u128>;

/// Lower-case hexadecimal digit for a value below sixteen.
pub open spec fn hex_char(d: int) -> char {
    if d < 10 {
        ((d + 48) as u8) as char
    } else {
        ((d - 10 + 97) as u8) as char
    }
}

/// Nibble `i` (counting from the most significant, `0 <= i < 32`) of `u`.
pub open spec fn nibble(u: u128, i: int) -> int {
    ((u >> ((4 * (31 - i)) as u128)) & 15u128) as int
}

/// The 32 lower-case hex digits of `u`, most significant first.
pub open spec fn hex32(u: u128) -> Seq<char> {
    Seq::new(32, |i: int| hex_char(nibble(u, i)))
}

/// The hyphenated form `xxxxxxxx-xxxx-xxxx-xxxx-xxxxxxxxxxxx` in lower case,
/// as `uuid::Uuid`'s `Display` prints it.
pub open spec fn uuid_hyphenated(u: u128) -> Seq<char> {
    let h = hex32(u);
    h.subrange(0, 8) + seq!['-'] + h.subrange(8, 12) + seq!['-'] + h.subrange(12, 16) + seq!['-']
        + h.subrange(16, 20) + seq!['-'] + h.subrange(20, 32)
}

/// Hex digits are `0`-`9` and `a`-`f`, one per value.
proof fn lemma_hex_char(d: int, e: int)
    requires
        0 <= d < 16,
        0 <= e < 16,
    ensures
        hex_char(d) != 'h',
        hex_char(d) != '-',
        hex_char(d) == hex_char(e) ==> d == e,
{
}

/// A nibble is a value below sixteen.
pub proof fn lemma_nibble_range(u: u128, i: int)
    requires
        0 <= i < 32,
    ensures
        0 <= nibble(u, i) < 16,
{
    let s: u128 = (4 * (31 - i)) as u128;
    assert((u >> s) & 15u128 <= 15u128) by (bit_vector);
}

/// Two values whose 32 nibbles agree are equal.
proof fn lemma_nibbles_determine(u: u128, v: u128)
    requires
        forall|i: int| 0 <= i < 32 ==> #[trigger] nibble(u, i) == nibble(v, i),
    ensures
        u == v,
{
    assert(nibble(u, 31) == nibble(v, 31));
    assert(nibble(u, 30) == nibble(v, 30));
    assert(nibble(u, 29) == nibble(v, 29));
    assert(nibble(u, 28) == nibble(v, 28));
    assert(nibble(u, 27) == nibble(v, 27));
    assert(nibble(u, 26) == nibble(v, 26));
    assert(nibble(u, 25) == nibble(v, 25));
    assert(nibble(u, 24) == nibble(v, 24));
    assert(nibble(u, 23) == nibble(v, 23));
    assert(nibble(u, 22) == nibble(v, 22));
    assert(nibble(u, 21) == nibble(v, 21));
    assert(nibble(u, 20) == nibble(v, 20));
    assert(nibble(u, 19) == nibble(v, 19));
    assert(nibble(u, 18) == nibble(v, 18));
    assert(nibble(u, 17) == nibble(v, 17));
    assert(nibble(u, 16) == nibble(v, 16));
    assert(nibble(u, 15) == nibble(v, 15));
    assert(nibble(u, 14) == nibble(v, 14));
    assert(nibble(u, 13) == nibble(v, 13));
    assert(nibble(u, 12) == nibble(v, 12));
    assert(nibble(u, 11) == nibble(v, 11));
    assert(nibble(u, 10) == nibble(v, 10));
    assert(nibble(u, 9) == nibble(v, 9));
    assert(nibble(u, 8) == nibble(v, 8));
    assert(nibble(u, 7) == nibble(v, 7));
    assert(nibble(u, 6) == nibble(v, 6));
    assert(nibble(u, 5) == nibble(v, 5));
    assert(nibble(u, 4) == nibble(v, 4));
    assert(nibble(u, 3) == nibble(v, 3));
    assert(nibble(u, 2) == nibble(v, 2));
    assert(nibble(u, 1) == nibble(v, 1));
    assert(nibble(u, 0) == nibble(v, 0));
    assert(u == v) by (bit_vector)
        requires
            (u >> 0u128) & 15u128 == (v >> 0u128) & 15u128,
            (u >> 4u128) & 15u128 == (v >> 4u128) & 15u128,
            (u >> 8u128) & 15u128 == (v >> 8u128) & 15u128,
            (u >> 12u128) & 15u128 == (v >> 12u128) & 15u128,
            (u >> 16u128) & 15u128 == (v >> 16u128) & 15u128,
            (u >> 20u128) & 15u128 == (v >> 20u128) & 15u128,
            (u >> 24u128) & 15u128 == (v >> 24u128) & 15u128,
            (u >> 28u128) & 15u128 == (v >> 28u128) & 15u128,
            (u >> 32u128) & 15u128 == (v >> 32u128) & 15u128,
            (u >> 36u128) & 15u128 == (v >> 36u128) & 15u128,
            (u >> 40u128) & 15u128 == (v >> 40u128) & 15u128,
            (u >> 44u128) & 15u128 == (v >> 44u128) & 15u128,
            (u >> 48u128) & 15u128 == (v >> 48u128) & 15u128,
            (u >> 52u128) & 15u128 == (v >> 52u128) & 15u128,
            (u >> 56u128) & 15u128 == (v >> 56u128) & 15u128,
            (u >> 60u128) & 15u128 == (v >> 60u128) & 15u128,
            (u >> 64u128) & 15u128 == (v >> 64u128) & 15u128,
            (u >> 68u128) & 15u128 == (v >> 68u128) & 15u128,
            (u >> 72u128) & 15u128 == (v >> 72u128) & 15u128,
            (u >> 76u128) & 15u128 == (v >> 76u128) & 15u128,
            (u >> 80u128) & 15u128 == (v >> 80u128) & 15u128,
            (u >> 84u128) & 15u128 == (v >> 84u128) & 15u128,
            (u >> 88u128) & 15u128 == (v >> 88u128) & 15u128,
            (u >> 92u128) & 15u128 == (v >> 92u128) & 15u128,
            (u >> 96u128) & 15u128 == (v >> 96u128) & 15u128,
            (u >> 100u128) & 15u128 == (v >> 100u128) & 15u128,
            (u >> 104u128) & 15u128 == (v >> 104u128) & 15u128,
            (u >> 108u128) & 15u128 == (v >> 108u128) & 15u128,
            (u >> 112u128) & 15u128 == (v >> 112u128) & 15u128,
            (u >> 116u128) & 15u128 == (v >> 116u128) & 15u128,
            (u >> 120u128) & 15u128 == (v >> 120u128) & 15u128,
            (u >> 124u128) & 15u128 == (v >> 124u128) & 15u128,
    ;
}

/// Position in the hyphenated text of hex digit `i`.
pub open spec fn hyphenated_pos(i: int) -> int {
    if i < 8 { i } else if i < 12 { i + 1 } else if i < 16 { i + 2 } else if i < 20 { i + 3 } else { i + 4 }
}

/// The hyphenated text has 36 characters and starts with a hex digit, so
/// never with `h`.
pub proof fn lemma_uuid_text_shape(u: u128)
    ensures
        uuid_hyphenated(u).len() == 36,
        uuid_hyphenated(u)[0] != 'h',
{
    let h = hex32(u);
    lemma_nibble_range(u, 0);
    lemma_hex_char(nibble(u, 0), 0);
    assert(uuid_hyphenated(u)[0] == h[0]);
}

/// A lower-case hex digit or a hyphen.
pub open spec fn is_uuid_char(c: char) -> bool {
    c == '-' || ('0' <= c && c <= '9') || ('a' <= c && c <= 'f')
}

/// The hyphenated text is made of lower-case hex digits and hyphens.
pub proof fn lemma_uuid_chars(u: u128)
    ensures
        uuid_hyphenated(u).len() == 36,
        forall|i: int| 0 <= i < 36 ==> is_uuid_char(#[trigger] uuid_hyphenated(u)[i]),
{
    let h = hex32(u);
    assert forall|k: int| 0 <= k < 32 implies is_uuid_char(#[trigger] h[k]) by {
        lemma_nibble_range(u, k);
    }
    let s = uuid_hyphenated(u);
    assert forall|i: int| 0 <= i < 36 implies is_uuid_char(#[trigger] s[i]) by {
        if i < 8 { assert(s[i] == h[i]); }
        else if i == 8 || i == 13 || i == 18 || i == 23 { }
        else if i < 13 { assert(s[i] == h[i - 1]); }
        else if i < 18 { assert(s[i] == h[i - 2]); }
        else if i < 23 { assert(s[i] == h[i - 3]); }
        else { assert(s[i] == h[i - 4]); }
    }
}

/// Hex digit `i` of a UUID sits at its position in the hyphenated text.
proof fn lemma_uuid_text_at(u: u128, i: int)
    requires
        0 <= i < 32,
    ensures
        uuid_hyphenated(u)[hyphenated_pos(i)] == hex32(u)[i],
{
}

/// Different UUIDs have different hyphenated texts.
pub proof fn lemma_uuid_text_injective(u: u128, v: u128)
    requires
        uuid_hyphenated(u) == uuid_hyphenated(v),
    ensures
        u == v,
{
    lemma_uuid_text_shape(u);
    lemma_uuid_text_shape(v);
    assert forall|i: int| 0 <= i < 32 implies #[trigger] nibble(u, i) == nibble(v, i) by {
        lemma_uuid_text_at(u, i);
        lemma_uuid_text_at(v, i);
        assert(hex32(u)[i] == hex32(v)[i]);
        lemma_nibble_range(u, i);
        lemma_nibble_range(v, i);
        lemma_hex_char(nibble(u, i), nibble(v, i));
    }
    lemma_nibbles_determine(u, v);
}

/// Parses a UUID with `uuid::Uuid::parse_str` (simple, hyphenated, braced or
/// URN form), giving its 128-bit value. The result is the named
/// `uuid_parse_spec`; the one fact stated besides is that the hyphenated
/// text of a parsed UUID parses back to the same value.
#[verifier::external_body]
pub(crate) fn parse_uuid(s: &str) -> (r: Option<u128>)
    ensures
        r == uuid_parse_spec(s@),
        r matches Some(u) ==> uuid_parse_spec(uuid_hyphenated(u)) == Some(u),
{
    uuid::Uuid::parse_str(s).ok().map(|u| u.as_u128())
}

/// Hyphenated lower-case text of a UUID (`uuid::Uuid`'s `Display`, through
/// `to_string`).
#[verifier::external_body]
pub(crate) fn uuid_text(u: u128) -> (r: String)
    ensures
        r@ == uuid_hyphenated(u),
{
    uuid::Uuid::from_u128(u).to_string()
}

/// A resource id is usable as a link target exactly when it parses as a UUID.
pub fn valid_resource_id(id: &str) -> (r: bool)
    ensures
        r == (uuid_parse_spec(id@) is Some),
{
    parse_uuid(id).is_some()
}

/// Most distinct employee ids a validation sample may name.
pub const MAX_SAMPLED_EMPLOYEE_IDS: usize = 200;

/// The trimmed, non-empty comma-separated tokens of `raw`.
pub open spec fn sample_tokens(raw: Seq<char>) -> Seq<Seq<char>> {
    split_spec(raw, ',').map_values(|t: Seq<char>| trim_spec(t)).filter(|t: Seq<char>| t.len() > 0)
}

/// Error text for a token that is not a UUID.
pub open spec fn invalid_id_message(token: Seq<char>) -> Seq<char> {
    "Invalid employee ID UUID: "@ + token
}

/// Error text for a sample with too many distinct ids.
pub open spec fn too_many_ids_message() -> Seq<char> {
    "Employee sample may contain at most 200 distinct IDs"@
}

/// Reads the tokens in order, collecting distinct parsed ids; stops at the
/// first token that does not parse, or as soon as more than the allowed
/// number of distinct ids has been seen.
pub open spec fn collect_sample_ids(toks: Seq<Seq<char>>, ids: Seq<u128>) -> Result<Seq<u128>, Seq<char>>
    decreases toks.len(),
{
    if toks.len() == 0 {
        Ok(ids)
    } else {
        match uuid_parse_spec(toks[0]) {
            None => Err(invalid_id_message(toks[0])),
            Some(u) => {
                let ids2 = if ids.contains(u) { ids } else { ids.push(u) };
                if ids2.len() > 200 {
                    Err(too_many_ids_message())
                } else {
                    collect_sample_ids(toks.drop_first(), ids2)
                }
            },
        }
    }
}

/// The normalized sample: `None` when no token is given, else the distinct ids
/// in first-seen order, hyphenated and comma-joined.
pub open spec fn normalize_sample_spec(raw: Seq<char>) -> Result<Option<Seq<char>>, Seq<char>> {
    match collect_sample_ids(sample_tokens(raw), Seq::empty()) {
        Err(e) => Err(e),
        Ok(ids) => if ids.len() == 0 {
            Ok(None)
        } else {
            Ok(Some(join_spec(ids.map_values(|u: u128| uuid_hyphenated(u)), ","@)))
        },
    }
}

/// Does `ids` hold `u`?
fn ids_contain(ids: &Vec<u128>, u: u128) -> (r: bool)
    ensures
        r == ids@.contains(u),
{
    let mut i: usize = 0;
    while i < ids.len()
        invariant
            i <= ids.len(),
            forall|k: int| 0 <= k < i ==> ids@[k] != u,
        decreases ids.len() - i,
    {
        if ids[i] == u {
            return true;
        }
        i = i + 1;
    }
    false
}

/// The trimmed, non-empty tokens of a comma-separated list.
pub fn split_trimmed_tokens(raw: &str) -> (r: Vec<Vec<char>>)
    ensures
        r@.len() == sample_tokens(raw@).len(),
        forall|i: int| 0 <= i < r@.len() ==> #[trigger] r@[i]@ == sample_tokens(raw@)[i],
{
    let cs = chars_of(raw);
    let pieces = split_chars(&cs, ',');
    let ghost views = split_spec(raw@, ',').map_values(|t: Seq<char>| trim_spec(t));
    let mut out: Vec<Vec<char>> = Vec::new();
    let mut i: usize = 0;
    while i < pieces.len()
        invariant
            i <= pieces@.len(),
            pieces@.len() == split_spec(raw@, ',').len(),
            forall|k: int| 0 <= k < pieces@.len() ==> #[trigger] pieces@[k]@ == split_spec(raw@, ',')[k],
            views == split_spec(raw@, ',').map_values(|t: Seq<char>| trim_spec(t)),
            out@.len() == views.take(i as int).filter(|t: Seq<char>| t.len() > 0).len(),
            forall|k: int| 0 <= k < out@.len() ==> #[trigger] out@[k]@ == views.take(i as int).filter(|t: Seq<char>| t.len() > 0)[k],
        decreases pieces.len() - i,
    {
        let t = trim_chars(&pieces[i]);
        proof {
            assert(views.take(i + 1).drop_last() == views.take(i as int));
            reveal_with_fuel(Seq::filter, 1);
        }
        if t.len() > 0 {
            out.push(t);
        }
        i = i + 1;
    }
    assert(views.take(pieces@.len() as int) == views);
    out
}

/// Cleans a comma-separated list of employee UUIDs for a validation sample:
/// tokens are trimmed and empty ones skipped; each must parse as a UUID;
/// repeats collapse; more than 200 distinct ids is an error. An empty list
/// gives `None`; otherwise the canonical hyphenated ids, in first-seen order,
/// joined by commas.
pub fn normalize_sample_employee_ids(raw: &str) -> (r: Result<Option<String>, String>)
    ensures
        match (r, normalize_sample_spec(raw@)) {
            (Ok(None), Ok(None)) => true,
            (Ok(Some(s)), Ok(Some(t))) => s@ == t,
            (Err(e), Err(t)) => e@ == t,
            _ => false,
        },
{
    let toks = split_trimmed_tokens(raw);
    let ghost all = sample_tokens(raw@);
    let mut ids: Vec<u128> = Vec::new();
    let mut i: usize = 0;
    assert(all.skip(0) == all);
    while i < toks.len()
        invariant
            all == sample_tokens(raw@),
            i <= toks@.len() == all.len(),
            forall|k: int| 0 <= k < toks@.len() ==> #[trigger] toks@[k]@ == all[k],
            collect_sample_ids(all, Seq::empty()) == collect_sample_ids(all.skip(i as int), ids@),
            ids@.len() <= 200,
        decreases toks.len() - i,
    {
        let tok = string_from_chars(&toks[i]);
        proof {
            assert(toks@[i as int]@ == all[i as int]);
            assert(tok@ == all[i as int]);
            assert(all.skip(i as int)[0] == all[i as int]);
            assert(all.skip(i as int).drop_first() == all.skip(i + 1));
        }
        match parse_uuid(tok.as_str()) {
            None => {
                let msg = cat("Invalid employee ID UUID: ", tok.as_str());
                return Err(msg);
            },
            Some(u) => {
                if !ids_contain(&ids, u) {
                    ids.push(u);
                }
                if ids.len() > MAX_SAMPLED_EMPLOYEE_IDS {
                    return Err(owned("Employee sample may contain at most 200 distinct IDs"));
                }
            },
        }
        i = i + 1;
    }
    if ids.len() == 0 {
        return Ok(None);
    }
    let mut texts: Vec<String> = Vec::new();
    let mut j: usize = 0;
    while j < ids.len()
        invariant
            j <= ids@.len(),
            texts@.len() == j,
            forall|k: int| 0 <= k < j ==> #[trigger] texts@[k]@ == uuid_hyphenated(ids@[k]),
        decreases ids.len() - j,
    {
        texts.push(uuid_text(ids[j]));
        j = j + 1;
    }
    assert(texts@.map_values(|p: String| p@) == ids@.map_values(|u: u128| uuid_hyphenated(u)));
    Ok(Some(join_strings(&texts, ",")))
}

} // verus!
