//! The lexical block extractor: a single forward scan over the source text
//! that recognizes `resource "<type>" "<name>" { ... }`,
//! `module "<name>" { ... }`, and `variable "<name>" { ... }` headers,
//! captures each body by brace-depth counting, and skips everything else.

use vstd::prelude::*;
use crate::scan::{
    find_close, is_space, is_space_char, is_word_char, lemma_find_close_bounds,
    lemma_skip_ws_bounds, lemma_word_end_bounds, skip_ws, spec_find_close, spec_skip_ws,
    spec_word_end, word_end,
};
use crate::warnings::{ParseWarning, WarningModel};

verus! {

/// The kind of a top-level block. `Unknown` is never produced by the
/// extractor (unrecognized constructs are skipped), but a raw block of that
/// kind is accepted by the interpreter and yields no semantic block.
#[derive(Clone, Copy, Debug, PartialEq, Eq, Structural)]
pub enum BlockKind {
    Resource,
    Module,
    Variable,
    Unknown,
}

/// A raw top-level block: its kind, the labels that appeared between double
/// quotes in its header (two for a resource, one otherwise), and its body
/// text between the outermost braces.
#[derive(Debug, Clone, PartialEq, Eq)]
pub struct RawBlock {
    pub kind: BlockKind,
    pub labels: Vec<String>,
    pub body: String,
}

/// Mathematical model of a raw block.
pub struct RawBlockModel {
    pub kind: BlockKind,
    pub labels: Seq<Seq<char>>,
    pub body: Seq<char>,
}

impl DeepView for RawBlock {
    type V = RawBlockModel;

    open spec fn deep_view(&self) -> RawBlockModel {
        RawBlockModel { kind: self.kind, labels: self.labels.deep_view(), body: self.body@ }
    }
}

/// The keyword `resource` starts at position `i`.
pub open spec fn kw_resource_at(s: Seq<char>, i: int) -> bool {
    &&& 0 <= i
    &&& i + 8 <= s.len()
    &&& s[i] == 'r'
    &&& s[i + 1] == 'e'
    &&& s[i + 2] == 's'
    &&& s[i + 3] == 'o'
    &&& s[i + 4] == 'u'
    &&& s[i + 5] == 'r'
    &&& s[i + 6] == 'c'
    &&& s[i + 7] == 'e'
}

/// The keyword `module` starts at position `i`.
pub open spec fn kw_module_at(s: Seq<char>, i: int) -> bool {
    &&& 0 <= i
    &&& i + 6 <= s.len()
    &&& s[i] == 'm'
    &&& s[i + 1] == 'o'
    &&& s[i + 2] == 'd'
    &&& s[i + 3] == 'u'
    &&& s[i + 4] == 'l'
    &&& s[i + 5] == 'e'
}

/// The keyword `variable` starts at position `i`.
pub open spec fn kw_variable_at(s: Seq<char>, i: int) -> bool {
    &&& 0 <= i
    &&& i + 8 <= s.len()
    &&& s[i] == 'v'
    &&& s[i + 1] == 'a'
    &&& s[i + 2] == 'r'
    &&& s[i + 3] == 'i'
    &&& s[i + 4] == 'a'
    &&& s[i + 5] == 'b'
    &&& s[i + 6] == 'l'
    &&& s[i + 7] == 'e'
}

fn kw_resource(s: &str, len: usize, i: usize) -> (r: bool)
    requires
        len == s@.len(),
        i <= len,
    ensures
        r == kw_resource_at(s@, i as int),
{
    len - i >= 8 && s.get_char(i) == 'r' && s.get_char(i + 1) == 'e' && s.get_char(i + 2) == 's'
        && s.get_char(i + 3) == 'o' && s.get_char(i + 4) == 'u' && s.get_char(i + 5) == 'r'
        && s.get_char(i + 6) == 'c' && s.get_char(i + 7) == 'e'
}

fn kw_module(s: &str, len: usize, i: usize) -> (r: bool)
    requires
        len == s@.len(),
        i <= len,
    ensures
        r == kw_module_at(s@, i as int),
{
    len - i >= 6 && s.get_char(i) == 'm' && s.get_char(i + 1) == 'o' && s.get_char(i + 2) == 'd'
        && s.get_char(i + 3) == 'u' && s.get_char(i + 4) == 'l' && s.get_char(i + 5) == 'e'
}

fn kw_variable(s: &str, len: usize, i: usize) -> (r: bool)
    requires
        len == s@.len(),
        i <= len,
    ensures
        r == kw_variable_at(s@, i as int),
{
    len - i >= 8 && s.get_char(i) == 'v' && s.get_char(i + 1) == 'a' && s.get_char(i + 2) == 'r'
        && s.get_char(i + 3) == 'i' && s.get_char(i + 4) == 'a' && s.get_char(i + 5) == 'b'
        && s.get_char(i + 6) == 'l' && s.get_char(i + 7) == 'e'
}

/// A quoted label at position `i`: a double quote, a nonempty run of word
/// characters, and a closing double quote. Yields the label and the
/// position just after the closing quote.
pub open spec fn spec_quoted(s: Seq<char>, i: int) -> Option<(Seq<char>, int)> {
    if 0 <= i && i < s.len() && s[i] == '"' {
        let e = spec_word_end(s, i + 1);
        if e > i + 1 && e < s.len() && s[e] == '"' {
            Some((s.subrange(i + 1, e), e + 1))
        } else {
            None
        }
    } else {
        None
    }
}

pub proof fn lemma_quoted_bounds(s: Seq<char>, i: int)
    requires
        0 <= i <= s.len(),
    ensures
        spec_quoted(s, i) matches Some(p) ==> i + 2 < p.1 <= s.len(),
{
    if i < s.len() && s[i] == '"' {
        lemma_word_end_bounds(s, i + 1);
    }
}

fn quoted(s: &str, len: usize, i: usize) -> (r: Option<(String, usize)>)
    requires
        len == s@.len(),
        i <= len,
    ensures
        match r {
            Some(p) => spec_quoted(s@, i as int) == Some((p.0@, p.1 as int)) && i < p.1 <= len,
            None => spec_quoted(s@, i as int) is None,
        },
{
    if i < len && s.get_char(i) == '"' {
        let e = word_end(s, len, i + 1);
        if e > i + 1 && e < len && s.get_char(e) == '"' {
            let lab = s.substring_char(i + 1, e).to_owned();
            Some((lab, e + 1))
        } else {
            None
        }
    } else {
        None
    }
}

/// A recognized block header and where its body starts (just after the
/// opening brace).
pub struct HeaderModel {
    pub kind: BlockKind,
    pub labels: Seq<Seq<char>>,
    pub body_start: int,
}

/// Header tail for the one-label kinds: at least one whitespace character,
/// the quoted label, optional whitespace, and an opening brace.
pub open spec fn spec_header_one(s: Seq<char>, kw_end: int, kind: BlockKind) -> Option<
    HeaderModel,
> {
    if kw_end < s.len() && is_space_char(s[kw_end]) {
        let b = spec_skip_ws(s, kw_end);
        match spec_quoted(s, b) {
            Some((l1, c)) => {
                let f = spec_skip_ws(s, c);
                if f < s.len() && s[f] == '{' {
                    Some(HeaderModel { kind, labels: seq![l1], body_start: f + 1 })
                } else {
                    None
                }
            },
            None => None,
        }
    } else {
        None
    }
}

/// Header tail for resources: two quoted labels separated by at least one
/// whitespace character, then optional whitespace and an opening brace.
pub open spec fn spec_header_two(s: Seq<char>, kw_end: int, kind: BlockKind) -> Option<
    HeaderModel,
> {
    if kw_end < s.len() && is_space_char(s[kw_end]) {
        let b = spec_skip_ws(s, kw_end);
        match spec_quoted(s, b) {
            Some((l1, c)) => {
                if c < s.len() && is_space_char(s[c]) {
                    let d = spec_skip_ws(s, c);
                    match spec_quoted(s, d) {
                        Some((l2, e)) => {
                            let f = spec_skip_ws(s, e);
                            if f < s.len() && s[f] == '{' {
                                Some(HeaderModel { kind, labels: seq![l1, l2], body_start: f + 1 })
                            } else {
                                None
                            }
                        },
                        None => None,
                    }
                } else {
                    None
                }
            },
            None => None,
        }
    } else {
        None
    }
}

/// The block header recognized at position `i`, if any.
pub open spec fn spec_header_at(s: Seq<char>, i: int) -> Option<HeaderModel> {
    if kw_resource_at(s, i) {
        spec_header_two(s, i + 8, BlockKind::Resource)
    } else if kw_module_at(s, i) {
        spec_header_one(s, i + 6, BlockKind::Module)
    } else if kw_variable_at(s, i) {
        spec_header_one(s, i + 8, BlockKind::Variable)
    } else {
        None
    }
}

pub proof fn lemma_header_one_bounds(s: Seq<char>, kw_end: int, kind: BlockKind)
    requires
        0 <= kw_end <= s.len(),
    ensures
        spec_header_one(s, kw_end, kind) matches Some(h) ==> kw_end < h.body_start <= s.len(),
{
    if kw_end < s.len() && is_space_char(s[kw_end]) {
        lemma_skip_ws_bounds(s, kw_end);
        let b = spec_skip_ws(s, kw_end);
        lemma_quoted_bounds(s, b);
        if let Some((l1, c)) = spec_quoted(s, b) {
            lemma_skip_ws_bounds(s, c);
        }
    }
}

pub proof fn lemma_header_two_bounds(s: Seq<char>, kw_end: int, kind: BlockKind)
    requires
        0 <= kw_end <= s.len(),
    ensures
        spec_header_two(s, kw_end, kind) matches Some(h) ==> kw_end < h.body_start <= s.len(),
{
    if kw_end < s.len() && is_space_char(s[kw_end]) {
        lemma_skip_ws_bounds(s, kw_end);
        let b = spec_skip_ws(s, kw_end);
        lemma_quoted_bounds(s, b);
        if let Some((l1, c)) = spec_quoted(s, b) {
            if c < s.len() && is_space_char(s[c]) {
                lemma_skip_ws_bounds(s, c);
                let d = spec_skip_ws(s, c);
                lemma_quoted_bounds(s, d);
                if let Some((l2, e)) = spec_quoted(s, d) {
                    lemma_skip_ws_bounds(s, e);
                }
            }
        }
    }
}

pub proof fn lemma_header_at_bounds(s: Seq<char>, i: int)
    requires
        0 <= i <= s.len(),
    ensures
        spec_header_at(s, i) matches Some(h) ==> i < h.body_start <= s.len(),
{
    if kw_resource_at(s, i) {
        lemma_header_two_bounds(s, i + 8, BlockKind::Resource);
    } else if kw_module_at(s, i) {
        lemma_header_one_bounds(s, i + 6, BlockKind::Module);
    } else if kw_variable_at(s, i) {
        lemma_header_one_bounds(s, i + 8, BlockKind::Variable);
    }
}

struct Header {
    kind: BlockKind,
    labels: Vec<String>,
    body_start: usize,
}

fn header_tail_one(s: &str, len: usize, kw_end: usize, kind: BlockKind) -> (r: Option<Header>)
    requires
        len == s@.len(),
        kw_end <= len,
    ensures
        match r {
            Some(h) => spec_header_one(s@, kw_end as int, kind) == Some(
                HeaderModel {
                    kind: h.kind,
                    labels: h.labels.deep_view(),
                    body_start: h.body_start as int,
                },
            ) && h.body_start <= len && h.kind == kind,
            None => spec_header_one(s@, kw_end as int, kind) is None,
        },
{
    if kw_end < len && is_space(s.get_char(kw_end)) {
        let b = skip_ws(s, len, kw_end);
        match quoted(s, len, b) {
            Some((l1, c)) => {
                let f = skip_ws(s, len, c);
                if f < len && s.get_char(f) == '{' {
                    let h = Header { kind, labels: vec![l1], body_start: f + 1 };
                    proof {
                        assert(h.labels.deep_view() =~= seq![l1@]);
                    }
                    Some(h)
                } else {
                    None
                }
            },
            None => None,
        }
    } else {
        None
    }
}

fn header_tail_two(s: &str, len: usize, kw_end: usize, kind: BlockKind) -> (r: Option<Header>)
    requires
        len == s@.len(),
        kw_end <= len,
    ensures
        match r {
            Some(h) => spec_header_two(s@, kw_end as int, kind) == Some(
                HeaderModel {
                    kind: h.kind,
                    labels: h.labels.deep_view(),
                    body_start: h.body_start as int,
                },
            ) && h.body_start <= len && h.kind == kind,
            None => spec_header_two(s@, kw_end as int, kind) is None,
        },
{
    if kw_end < len && is_space(s.get_char(kw_end)) {
        let b = skip_ws(s, len, kw_end);
        match quoted(s, len, b) {
            Some((l1, c)) => {
                if c < len && is_space(s.get_char(c)) {
                    let d = skip_ws(s, len, c);
                    match quoted(s, len, d) {
                        Some((l2, e)) => {
                            let f = skip_ws(s, len, e);
                            if f < len && s.get_char(f) == '{' {
                                let h = Header { kind, labels: vec![l1, l2], body_start: f + 1 };
                                proof {
                                    assert(h.labels.deep_view() =~= seq![l1@, l2@]);
                                }
                                Some(h)
                            } else {
                                None
                            }
                        },
                        None => None,
                    }
                } else {
                    None
                }
            },
            None => None,
        }
    } else {
        None
    }
}

fn header_at(s: &str, len: usize, i: usize) -> (r: Option<Header>)
    requires
        len == s@.len(),
        i <= len,
    ensures
        match r {
            Some(h) => spec_header_at(s@, i as int) == Some(
                HeaderModel {
                    kind: h.kind,
                    labels: h.labels.deep_view(),
                    body_start: h.body_start as int,
                },
            ) && i < h.body_start <= len,
            None => spec_header_at(s@, i as int) is None,
        },
{
    proof {
        lemma_header_at_bounds(s@, i as int);
    }
    if kw_resource(s, len, i) {
        header_tail_two(s, len, i + 8, BlockKind::Resource)
    } else if kw_module(s, len, i) {
        header_tail_one(s, len, i + 6, BlockKind::Module)
    } else if kw_variable(s, len, i) {
        header_tail_one(s, len, i + 8, BlockKind::Variable)
    } else {
        None
    }
}

/// The blocks and warnings the extractor produces.
pub struct ExtractModel {
    pub blocks: Seq<RawBlockModel>,
    pub warnings: Seq<WarningModel>,
}

/// The extraction scan from position `i` on: at each position, either a
/// recognized header whose body closes (one block, resume after the closing
/// brace), a recognized header whose body never closes (one warning, resume
/// just after the opening brace), or no header (advance one character).
pub open spec fn spec_extract_from(s: Seq<char>, i: int) -> ExtractModel
    decreases s.len() - i,
        via spec_extract_from_dec
{
    if i < 0 || i >= s.len() {
        ExtractModel { blocks: seq![], warnings: seq![] }
    } else {
        match spec_header_at(s, i) {
            Some(h) => match spec_find_close(s, h.body_start, 1) {
                Some(j) => {
                    let rest = spec_extract_from(s, j + 1);
                    ExtractModel {
                        blocks: seq![
                            RawBlockModel {
                                kind: h.kind,
                                labels: h.labels,
                                body: s.subrange(h.body_start, j),
                            },
                        ] + rest.blocks,
                        warnings: rest.warnings,
                    }
                },
                None => {
                    let rest = spec_extract_from(s, h.body_start);
                    ExtractModel {
                        blocks: rest.blocks,
                        warnings: seq![WarningModel::Unterminated { kind: h.kind }]
                            + rest.warnings,
                    }
                },
            },
            None => spec_extract_from(s, i + 1),
        }
    }
}

#[via_fn]
proof fn spec_extract_from_dec(s: Seq<char>, i: int) {
    if 0 <= i && i < s.len() {
        lemma_header_at_bounds(s, i);
        if let Some(h) = spec_header_at(s, i) {
            lemma_find_close_bounds(s, h.body_start, 1);
        }
    }
}

/// The full extraction scan of a source text.
pub open spec fn spec_extract(s: Seq<char>) -> ExtractModel {
    spec_extract_from(s, 0)
}

/// Splits the source text into its recognized top-level blocks, in source
/// order, with one warning for each recognized header whose body never
/// closes. Everything outside recognized blocks is skipped silently.
pub fn extract(source: &str) -> (r: (Vec<RawBlock>, Vec<ParseWarning>))
    ensures
        r.0.deep_view() == spec_extract(source@).blocks,
        r.1.deep_view() == spec_extract(source@).warnings,
{
    let len = source.unicode_len();
    let mut blocks: Vec<RawBlock> = Vec::new();
    let mut warns: Vec<ParseWarning> = Vec::new();
    let mut i: usize = 0;
    while i < len
        invariant
            len == source@.len(),
            i <= len,
            spec_extract(source@).blocks == blocks.deep_view() + spec_extract_from(
                source@,
                i as int,
            ).blocks,
            spec_extract(source@).warnings == warns.deep_view() + spec_extract_from(
                source@,
                i as int,
            ).warnings,
        decreases len - i,
    {
        let ghost prev: int = i as int;
        let ghost old_deep = blocks.deep_view();
        let ghost old_wdeep = warns.deep_view();
        match header_at(source, len, i) {
            Some(h) => {
                match find_close(source, len, h.body_start) {
                    Some(j) => {
                        let body = source.substring_char(h.body_start, j).to_owned();
                        let rb = RawBlock { kind: h.kind, labels: h.labels, body };
                        blocks.push(rb);
                        i = j + 1;
                        proof {
                            assert(blocks.deep_view() =~= old_deep.push(rb.deep_view()));
                            assert(spec_extract(source@).blocks =~= blocks.deep_view()
                                + spec_extract_from(source@, i as int).blocks);
                        }
                    },
                    None => {
                        let w = ParseWarning::Unterminated { kind: h.kind };
                        warns.push(w);
                        i = h.body_start;
                        proof {
                            assert(warns.deep_view() =~= old_wdeep.push(w.deep_view()));
                            assert(spec_extract(source@).warnings =~= warns.deep_view()
                                + spec_extract_from(source@, i as int).warnings);
                        }
                    },
                }
            },
            None => {
                i = i + 1;
            },
        }
    }
    proof {
        assert(blocks.deep_view() =~= spec_extract(source@).blocks);
        assert(warns.deep_view() =~= spec_extract(source@).warnings);
    }
    (blocks, warns)
}

} // verus!
