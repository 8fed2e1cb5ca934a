//! Low-level character scanning: character classes, whitespace skipping,
//! word runs, quoted labels, and brace-depth matching.

use vstd::prelude::*;

verus! {

/// Whitespace characters recognized between tokens: space, tab, line feed,
/// carriage return, vertical tab, form feed.
pub open spec fn is_space_char(c: char) -> bool {
    c == ' ' || c == '\t' || c == '\n' || c == '\r' || c == '\u{b}' || c == '\u{c}'
}

/// Word characters: ASCII letters, digits, and underscore. Labels are
/// nonempty runs of these.
pub open spec fn is_word_char(c: char) -> bool {
    ('a' <= c && c <= 'z') || ('A' <= c && c <= 'Z') || ('0' <= c && c <= '9') || c == '_'
}

/// Characters that may open an identifier: ASCII letters and underscore.
pub open spec fn is_ident_start_char(c: char) -> bool {
    ('a' <= c && c <= 'z') || ('A' <= c && c <= 'Z') || c == '_'
}

pub fn is_space(c: char) -> (r: bool)
    ensures
        r == is_space_char(c),
{
    c == ' ' || c == '\t' || c == '\n' || c == '\r' || c == '\u{b}' || c == '\u{c}'
}

pub fn is_word(c: char) -> (r: bool)
    ensures
        r == is_word_char(c),
{
    ('a' <= c && c <= 'z') || ('A' <= c && c <= 'Z') || ('0' <= c && c <= '9') || c == '_'
}

pub fn is_ident_start(c: char) -> (r: bool)
    ensures
        r == is_ident_start_char(c),
{
    ('a' <= c && c <= 'z') || ('A' <= c && c <= 'Z') || c == '_'
}

/// Index of the first non-whitespace character at or after `i`, or the
/// length of `s` if none follows.
pub open spec fn spec_skip_ws(s: Seq<char>, i: int) -> int
    decreases s.len() - i,
{
    if i < 0 {
        i
    } else if i >= s.len() || !is_space_char(s[i]) {
        i
    } else {
        spec_skip_ws(s, i + 1)
    }
}

pub proof fn lemma_skip_ws_bounds(s: Seq<char>, i: int)
    requires
        0 <= i <= s.len(),
    ensures
        i <= spec_skip_ws(s, i) <= s.len(),
    decreases s.len() - i,
{
    if i < s.len() && is_space_char(s[i]) {
        lemma_skip_ws_bounds(s, i + 1);
    }
}

pub fn skip_ws(s: &str, len: usize, i: usize) -> (j: usize)
    requires
        len == s@.len(),
        i <= len,
    ensures
        j == spec_skip_ws(s@, i as int),
        i <= j <= len,
{
    let mut cur: usize = i;
    while cur < len && is_space(s.get_char(cur))
        invariant
            len == s@.len(),
            i <= cur <= len,
            spec_skip_ws(s@, i as int) == spec_skip_ws(s@, cur as int),
        decreases len - cur,
    {
        cur = cur + 1;
    }
    cur
}

/// End of the run of word characters starting at `i`: the first index at or
/// after `i` whose character is not a word character.
pub open spec fn spec_word_end(s: Seq<char>, i: int) -> int
    decreases s.len() - i,
{
    if i < 0 {
        i
    } else if i >= s.len() || !is_word_char(s[i]) {
        i
    } else {
        spec_word_end(s, i + 1)
    }
}

pub proof fn lemma_word_end_bounds(s: Seq<char>, i: int)
    requires
        0 <= i <= s.len(),
    ensures
        i <= spec_word_end(s, i) <= s.len(),
    decreases s.len() - i,
{
    if i < s.len() && is_word_char(s[i]) {
        lemma_word_end_bounds(s, i + 1);
    }
}

pub fn word_end(s: &str, len: usize, i: usize) -> (j: usize)
    requires
        len == s@.len(),
        i <= len,
    ensures
        j == spec_word_end(s@, i as int),
        i <= j <= len,
{
    let mut cur: usize = i;
    while cur < len && is_word(s.get_char(cur))
        invariant
            len == s@.len(),
            i <= cur <= len,
            spec_word_end(s@, i as int) == spec_word_end(s@, cur as int),
        decreases len - cur,
    {
        cur = cur + 1;
    }
    cur
}

/// Position of the closing brace matching an already-open brace, scanning
/// from `i` with `depth` braces currently open. Braces are counted without
/// regard to quoting, so nested `{ }` content is captured whole.
pub open spec fn spec_find_close(s: Seq<char>, i: int, depth: int) -> Option<int>
    decreases s.len() - i,
{
    if i < 0 || i >= s.len() {
        None::<int>
    } else if s[i] == '}' {
        if depth <= 1 {
            Some(i)
        } else {
            spec_find_close(s, i + 1, depth - 1)
        }
    } else if s[i] == '{' {
        spec_find_close(s, i + 1, depth + 1)
    } else {
        spec_find_close(s, i + 1, depth)
    }
}

pub proof fn lemma_find_close_bounds(s: Seq<char>, i: int, depth: int)
    requires
        0 <= i <= s.len(),
    ensures
        spec_find_close(s, i, depth) matches Some(j) ==> i <= j < s.len(),
    decreases s.len() - i,
{
    if i < s.len() {
        if s[i] == '}' && depth <= 1 {
        } else if s[i] == '}' {
            lemma_find_close_bounds(s, i + 1, depth - 1);
        } else if s[i] == '{' {
            lemma_find_close_bounds(s, i + 1, depth + 1);
        } else {
            lemma_find_close_bounds(s, i + 1, depth);
        }
    }
}

pub fn find_close(s: &str, len: usize, i: usize) -> (r: Option<usize>)
    requires
        len == s@.len(),
        i <= len,
    ensures
        match r {
            Some(j) => spec_find_close(s@, i as int, 1) == Some(j as int) && i <= j < len,
            None => spec_find_close(s@, i as int, 1) == None::<int>,
        },
{
    let mut cur: usize = i;
    let mut depth: u128 = 1;
    while cur < len
        invariant
            len == s@.len(),
            i <= cur <= len,
            1 <= depth <= 1 + cur - i,
            spec_find_close(s@, i as int, 1) == spec_find_close(s@, cur as int, depth as int),
        decreases len - cur,
    {
        let c = s.get_char(cur);
        if c == '}' {
            if depth == 1 {
                return Some(cur);
            }
            depth = depth - 1;
        } else if c == '{' {
            depth = depth + 1;
        }
        cur = cur + 1;
    }
    None
}

/// Character-wise equality of two string slices.
pub fn str_eq_str(a: &str, b: &str) -> (r: bool)
    ensures
        r == (a@ == b@),
{
    let alen = a.unicode_len();
    let blen = b.unicode_len();
    if alen != blen {
        return false;
    }
    let mut k: usize = 0;
    while k < alen
        invariant
            alen == a@.len(),
            alen == b@.len(),
            k <= alen,
            forall|m: int| 0 <= m < k ==> a@[m] == b@[m],
        decreases alen - k,
    {
        if a.get_char(k) != b.get_char(k) {
            return false;
        }
        k = k + 1;
    }
    proof {
        assert(a@ =~= b@);
    }
    true
}

} // verus!
