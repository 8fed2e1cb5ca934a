//! The attribute extractor: collects flat `identifier = "value"` pairs from
//! a block body into an ordered mapping with unique keys.
//!
//! An identifier starts with an ASCII letter or underscore and continues
//! with word characters. A value is any run of characters other than a
//! double quote. Non-string attribute values (numbers, booleans, lists,
//! nested objects) are outside the supported subset and are silently
//! omitted. A duplicate key keeps its first position in the mapping; its
//! value is the last occurrence's.

use vstd::prelude::*;
use crate::scan::{
    is_ident_start, is_ident_start_char, lemma_skip_ws_bounds, lemma_word_end_bounds, skip_ws,
    spec_skip_ws, spec_word_end, str_eq_str, word_end,
};

verus! {

/// First index at or after `i` holding a double quote, or the length of
/// `s` if none follows.
pub open spec fn spec_value_end(s: Seq<char>, i: int) -> int
    decreases s.len() - i,
{
    if i < 0 {
        i
    } else if i >= s.len() || s[i] == '"' {
        i
    } else {
        spec_value_end(s, i + 1)
    }
}

pub proof fn lemma_value_end_bounds(s: Seq<char>, i: int)
    requires
        0 <= i <= s.len(),
    ensures
        i <= spec_value_end(s, i) <= s.len(),
    decreases s.len() - i,
{
    if i < s.len() && s[i] != '"' {
        lemma_value_end_bounds(s, i + 1);
    }
}

fn value_end(s: &str, len: usize, i: usize) -> (j: usize)
    requires
        len == s@.len(),
        i <= len,
    ensures
        j == spec_value_end(s@, i as int),
        i <= j <= len,
{
    let mut cur: usize = i;
    while cur < len && s.get_char(cur) != '"'
        invariant
            len == s@.len(),
            i <= cur <= len,
            spec_value_end(s@, i as int) == spec_value_end(s@, cur as int),
        decreases len - cur,
    {
        cur = cur + 1;
    }
    cur
}

/// The attribute pair matched at position `i`, if any: an identifier, then
/// optional whitespace, `=`, optional whitespace, and a double-quoted
/// value. Yields the key, the value, and the position just after the
/// closing quote.
pub open spec fn spec_attr_at(s: Seq<char>, i: int) -> Option<(Seq<char>, Seq<char>, int)> {
    if 0 <= i && i < s.len() && is_ident_start_char(s[i]) {
        let e = spec_word_end(s, i);
        let p = spec_skip_ws(s, e);
        if p < s.len() && s[p] == '=' {
            let q = spec_skip_ws(s, p + 1);
            if q < s.len() && s[q] == '"' {
                let v_end = spec_value_end(s, q + 1);
                if v_end < s.len() {
                    Some((s.subrange(i, e), s.subrange(q + 1, v_end), v_end + 1))
                } else {
                    None
                }
            } else {
                None
            }
        } else {
            None
        }
    } else {
        None
    }
}

pub proof fn lemma_attr_at_bounds(s: Seq<char>, i: int)
    requires
        0 <= i <= s.len(),
    ensures
        spec_attr_at(s, i) matches Some(t) ==> i < t.2 <= s.len(),
{
    if i < s.len() && is_ident_start_char(s[i]) {
        lemma_word_end_bounds(s, i);
        let e = spec_word_end(s, i);
        lemma_skip_ws_bounds(s, e);
        let p = spec_skip_ws(s, e);
        if p < s.len() && s[p] == '=' {
            lemma_skip_ws_bounds(s, p + 1);
            let q = spec_skip_ws(s, p + 1);
            if q < s.len() && s[q] == '"' {
                lemma_value_end_bounds(s, q + 1);
            }
        }
    }
}

fn attr_at(s: &str, len: usize, i: usize) -> (r: Option<(String, String, usize)>)
    requires
        len == s@.len(),
        i <= len,
    ensures
        match r {
            Some(t) => spec_attr_at(s@, i as int) == Some((t.0@, t.1@, t.2 as int)) && i < t.2
                <= len,
            None => spec_attr_at(s@, i as int) is None,
        },
{
    proof {
        lemma_attr_at_bounds(s@, i as int);
    }
    if i < len && is_ident_start(s.get_char(i)) {
        let e = word_end(s, len, i);
        let p = skip_ws(s, len, e);
        if p < len && s.get_char(p) == '=' {
            let q = skip_ws(s, len, p + 1);
            if q < len && s.get_char(q) == '"' {
                let v_end = value_end(s, len, q + 1);
                if v_end < len {
                    let key = s.substring_char(i, e).to_owned();
                    let value = s.substring_char(q + 1, v_end).to_owned();
                    Some((key, value, v_end + 1))
                } else {
                    None
                }
            } else {
                None
            }
        } else {
            None
        }
    } else {
        None
    }
}

/// Inserts or replaces a key in an ordered mapping: a present key keeps its
/// position and takes the new value; an absent key is appended.
pub open spec fn spec_upsert(
    m: Seq<(Seq<char>, Seq<char>)>,
    k: Seq<char>,
    v: Seq<char>,
) -> Seq<(Seq<char>, Seq<char>)>
    decreases m.len(),
{
    if m.len() == 0 {
        seq![(k, v)]
    } else if m[0].0 == k {
        seq![(k, v)] + m.drop_first()
    } else {
        seq![m[0]] + spec_upsert(m.drop_first(), k, v)
    }
}

/// The value under a key, by first (and with unique keys, only) match.
pub open spec fn spec_attr_lookup(m: Seq<(Seq<char>, Seq<char>)>, k: Seq<char>) -> Option<
    Seq<char>,
>
    decreases m.len(),
{
    if m.len() == 0 {
        None::<Seq<char>>
    } else if m[0].0 == k {
        Some(m[0].1)
    } else {
        spec_attr_lookup(m.drop_first(), k)
    }
}

proof fn lemma_upsert_found(m: Seq<(Seq<char>, Seq<char>)>, k: Seq<char>, v: Seq<char>, idx: int)
    requires
        0 <= idx < m.len(),
        m[idx].0 == k,
        forall|j: int| 0 <= j < idx ==> m[j].0 != k,
    ensures
        spec_upsert(m, k, v) =~= m.update(idx, (k, v)),
    decreases m.len(),
{
    if idx == 0 {
        assert(spec_upsert(m, k, v) =~= m.update(0, (k, v)));
    } else {
        lemma_upsert_found(m.drop_first(), k, v, idx - 1);
        assert(seq![m[0]] + m.drop_first().update(idx - 1, (k, v)) =~= m.update(idx, (k, v)));
    }
}

proof fn lemma_upsert_absent(m: Seq<(Seq<char>, Seq<char>)>, k: Seq<char>, v: Seq<char>)
    requires
        forall|j: int| 0 <= j < m.len() ==> m[j].0 != k,
    ensures
        spec_upsert(m, k, v) =~= m.push((k, v)),
    decreases m.len(),
{
    if m.len() > 0 {
        lemma_upsert_absent(m.drop_first(), k, v);
        assert(seq![m[0]] + m.drop_first().push((k, v)) =~= m.push((k, v)));
    }
}

/// Index of the first entry whose key equals `k`, if any.
fn find_key(m: &Vec<(String, String)>, k: &str) -> (r: Option<usize>)
    ensures
        match r {
            Some(i) => i < m.len() && m.deep_view()[i as int].0 == k@ && (forall|j: int|
                0 <= j < i ==> m.deep_view()[j].0 != k@),
            None => forall|j: int| 0 <= j < m.len() ==> m.deep_view()[j].0 != k@,
        },
{
    let n = m.len();
    let mut idx: usize = 0;
    while idx < n
        invariant
            n == m.len(),
            idx <= n,
            forall|j: int| 0 <= j < idx ==> m.deep_view()[j].0 != k@,
        decreases n - idx,
    {
        if str_eq_str(m[idx].0.as_str(), k) {
            return Some(idx);
        }
        idx = idx + 1;
    }
    None
}

fn upsert(m: &mut Vec<(String, String)>, k: String, v: String)
    ensures
        final(m).deep_view() == spec_upsert(old(m).deep_view(), k@, v@),
{
    let ghost m0 = old(m).deep_view();
    match find_key(m, k.as_str()) {
        Some(idx) => {
            proof {
                lemma_upsert_found(m0, k@, v@, idx as int);
            }
            let ghost kv = k@;
            let ghost vv = v@;
            m[idx] = (k, v);
            proof {
                assert(m.deep_view() =~= m0.update(idx as int, (kv, vv)));
            }
        },
        None => {
            proof {
                lemma_upsert_absent(m0, k@, v@);
            }
            m.push((k, v));
            proof {
                assert(m.deep_view() =~= m0.push((k@, v@)));
            }
        },
    }
}

/// Returns a copy of the value under `key`, or `None` if the key is absent.
pub fn attr_lookup(m: &Vec<(String, String)>, key: &str) -> (r: Option<String>)
    ensures
        match r {
            Some(v) => spec_attr_lookup(m.deep_view(), key@) == Some(v@),
            None => spec_attr_lookup(m.deep_view(), key@) is None,
        },
{
    let n = m.len();
    let mut idx: usize = 0;
    while idx < n
        invariant
            n == m.len(),
            idx <= n,
            forall|j: int| 0 <= j < idx ==> m.deep_view()[j].0 != key@,
        decreases n - idx,
    {
        if str_eq_str(m[idx].0.as_str(), key) {
            proof {
                lemma_lookup_found(m.deep_view(), key@, idx as int);
            }
            return Some(m[idx].1.clone());
        }
        idx = idx + 1;
    }
    proof {
        lemma_lookup_absent(m.deep_view(), key@);
    }
    None
}

proof fn lemma_lookup_found(m: Seq<(Seq<char>, Seq<char>)>, k: Seq<char>, idx: int)
    requires
        0 <= idx < m.len(),
        m[idx].0 == k,
        forall|j: int| 0 <= j < idx ==> m[j].0 != k,
    ensures
        spec_attr_lookup(m, k) == Some(m[idx].1),
    decreases m.len(),
{
    if idx > 0 {
        lemma_lookup_found(m.drop_first(), k, idx - 1);
    }
}

proof fn lemma_lookup_absent(m: Seq<(Seq<char>, Seq<char>)>, k: Seq<char>)
    requires
        forall|j: int| 0 <= j < m.len() ==> m[j].0 != k,
    ensures
        spec_attr_lookup(m, k) is None,
    decreases m.len(),
{
    if m.len() > 0 {
        lemma_lookup_absent(m.drop_first(), k);
    }
}

/// The attribute scan from position `i` on, with the mapping built so far:
/// at each position, either a matched attribute (upsert it, resume just
/// after its closing quote) or no match (advance one character).
pub open spec fn spec_attrs_from(
    s: Seq<char>,
    i: int,
    acc: Seq<(Seq<char>, Seq<char>)>,
) -> Seq<(Seq<char>, Seq<char>)>
    decreases s.len() - i,
        via spec_attrs_from_dec
{
    if i < 0 || i >= s.len() {
        acc
    } else {
        match spec_attr_at(s, i) {
            Some(t) => spec_attrs_from(s, t.2, spec_upsert(acc, t.0, t.1)),
            None => spec_attrs_from(s, i + 1, acc),
        }
    }
}

#[via_fn]
proof fn spec_attrs_from_dec(s: Seq<char>, i: int, acc: Seq<(Seq<char>, Seq<char>)>) {
    if 0 <= i && i < s.len() {
        lemma_attr_at_bounds(s, i);
    }
}

/// The ordered attribute mapping of a whole block body.
pub open spec fn spec_attributes(s: Seq<char>) -> Seq<(Seq<char>, Seq<char>)> {
    spec_attrs_from(s, 0, Seq::empty())
}

/// Extracts the flat `identifier = "value"` pairs of a block body, in order
/// of first occurrence, each key unique with its last occurrence's value.
pub fn extract_attributes(body: &str) -> (r: Vec<(String, String)>)
    ensures
        r.deep_view() == spec_attributes(body@),
{
    let len = body.unicode_len();
    let mut attrs: Vec<(String, String)> = Vec::new();
    let mut i: usize = 0;
    proof {
        assert(attrs.deep_view() =~= Seq::<(Seq<char>, Seq<char>)>::empty());
    }
    while i < len
        invariant
            len == body@.len(),
            i <= len,
            spec_attributes(body@) == spec_attrs_from(body@, i as int, attrs.deep_view()),
        decreases len - i,
    {
        match attr_at(body, len, i) {
            Some((k, v, next)) => {
                upsert(&mut attrs, k, v);
                i = next;
            },
            None => {
                i = i + 1;
            },
        }
    }
    attrs
}

} // verus!
