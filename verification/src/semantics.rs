//! The block interpreter: classifies each raw block by kind, applies the
//! kind-specific field rules, and resolves identity-key collisions.
//!
//! A resource needs both labels; a module needs its label and a `source`
//! attribute (kept with an empty source, under a warning, when the
//! attribute is absent); a variable needs only its label, with `default`
//! and `description` each independently optional. Two blocks sharing the
//! identity key `<kind>.<name>` resolve deterministically: the later one in
//! source order overwrites the earlier one in place.

use vstd::prelude::*;
use crate::attrs::{attr_lookup, extract_attributes, spec_attr_lookup, spec_attributes};
use crate::blocks::{extract, spec_extract, BlockKind, RawBlock, RawBlockModel};
use crate::scan::str_eq_str;
use crate::warnings::{ParseWarning, WarningModel};

verus! {

/// A declared resource: its type, its name, and its attributes in order of
/// first occurrence.
#[derive(Debug, Clone, PartialEq, Eq)]
pub struct Resource {
    pub resource_type: String,
    pub name: String,
    pub attributes: Vec<(String, String)>,
}

/// A declared module: its name, its `source` attribute (empty when the
/// attribute is absent), and all its attributes in order of first
/// occurrence (`source` included, when present).
#[derive(Debug, Clone, PartialEq, Eq)]
pub struct Module {
    pub name: String,
    pub source: String,
    pub variables: Vec<(String, String)>,
}

/// A declared variable: its name and its two optional fields.
#[derive(Debug, Clone, PartialEq, Eq)]
pub struct Variable {
    pub name: String,
    pub default: Option<String>,
    pub description: Option<String>,
}

/// A semantic block: one of the three declared block kinds.
#[derive(Debug, Clone, PartialEq, Eq)]
pub enum TerraformBlock {
    Resource(Resource),
    Module(Module),
    Variable(Variable),
}

/// Mathematical model of a resource.
pub struct ResourceModel {
    pub resource_type: Seq<char>,
    pub name: Seq<char>,
    pub attributes: Seq<(Seq<char>, Seq<char>)>,
}

/// Mathematical model of a module.
pub struct ModuleModel {
    pub name: Seq<char>,
    pub source: Seq<char>,
    pub variables: Seq<(Seq<char>, Seq<char>)>,
}

/// Mathematical model of a variable.
pub struct VariableModel {
    pub name: Seq<char>,
    pub default: Option<Seq<char>>,
    pub description: Option<Seq<char>>,
}

/// Mathematical model of a semantic block.
pub enum BlockModel {
    Resource(ResourceModel),
    Module(ModuleModel),
    Variable(VariableModel),
}

impl DeepView for Resource {
    type V = ResourceModel;

    open spec fn deep_view(&self) -> ResourceModel {
        ResourceModel {
            resource_type: self.resource_type@,
            name: self.name@,
            attributes: self.attributes.deep_view(),
        }
    }
}

impl DeepView for Module {
    type V = ModuleModel;

    open spec fn deep_view(&self) -> ModuleModel {
        ModuleModel {
            name: self.name@,
            source: self.source@,
            variables: self.variables.deep_view(),
        }
    }
}

impl DeepView for Variable {
    type V = VariableModel;

    open spec fn deep_view(&self) -> VariableModel {
        VariableModel {
            name: self.name@,
            default: self.default.deep_view(),
            description: self.description.deep_view(),
        }
    }
}

impl DeepView for TerraformBlock {
    type V = BlockModel;

    open spec fn deep_view(&self) -> BlockModel {
        match self {
            TerraformBlock::Resource(r) => BlockModel::Resource(r.deep_view()),
            TerraformBlock::Module(m) => BlockModel::Module(m.deep_view()),
            TerraformBlock::Variable(v) => BlockModel::Variable(v.deep_view()),
        }
    }
}

/// The kind half of a semantic block's identity key.
pub open spec fn spec_block_kind(b: BlockModel) -> BlockKind {
    match b {
        BlockModel::Resource(_) => BlockKind::Resource,
        BlockModel::Module(_) => BlockKind::Module,
        BlockModel::Variable(_) => BlockKind::Variable,
    }
}

/// The name half of a semantic block's identity key.
pub open spec fn spec_block_name(b: BlockModel) -> Seq<char> {
    match b {
        BlockModel::Resource(r) => r.name,
        BlockModel::Module(m) => m.name,
        BlockModel::Variable(v) => v.name,
    }
}

/// Two semantic blocks share the identity key `<kind>.<name>`.
pub open spec fn spec_ident_eq(a: BlockModel, b: BlockModel) -> bool {
    spec_block_kind(a) == spec_block_kind(b) && spec_block_name(a) == spec_block_name(b)
}

impl TerraformBlock {
    /// The kind half of this block's identity key.
    pub fn kind(&self) -> (k: BlockKind)
        ensures
            k == spec_block_kind(self.deep_view()),
    {
        match self {
            TerraformBlock::Resource(_) => BlockKind::Resource,
            TerraformBlock::Module(_) => BlockKind::Module,
            TerraformBlock::Variable(_) => BlockKind::Variable,
        }
    }

    /// The name half of this block's identity key.
    pub fn name(&self) -> (n: &str)
        ensures
            n@ == spec_block_name(self.deep_view()),
    {
        match self {
            TerraformBlock::Resource(r) => r.name.as_str(),
            TerraformBlock::Module(m) => m.name.as_str(),
            TerraformBlock::Variable(v) => v.name.as_str(),
        }
    }
}

/// What interpreting one raw block yields: at most one semantic block and
/// at most one warning.
pub open spec fn spec_interpret(b: RawBlockModel) -> (Option<BlockModel>, Option<WarningModel>) {
    match b.kind {
        BlockKind::Resource => {
            if b.labels.len() >= 2 {
                (
                    Some(
                        BlockModel::Resource(
                            ResourceModel {
                                resource_type: b.labels[0],
                                name: b.labels[1],
                                attributes: spec_attributes(b.body),
                            },
                        ),
                    ),
                    None,
                )
            } else {
                (None, Some(WarningModel::MissingLabel { kind: BlockKind::Resource }))
            }
        },
        BlockKind::Module => {
            if b.labels.len() >= 1 {
                let attrs = spec_attributes(b.body);
                match spec_attr_lookup(attrs, "source"@) {
                    Some(src) => (
                        Some(
                            BlockModel::Module(
                                ModuleModel { name: b.labels[0], source: src, variables: attrs },
                            ),
                        ),
                        None,
                    ),
                    None => (
                        Some(
                            BlockModel::Module(
                                ModuleModel {
                                    name: b.labels[0],
                                    source: Seq::empty(),
                                    variables: attrs,
                                },
                            ),
                        ),
                        Some(WarningModel::MissingSource { module_name: b.labels[0] }),
                    ),
                }
            } else {
                (None, Some(WarningModel::MissingLabel { kind: BlockKind::Module }))
            }
        },
        BlockKind::Variable => {
            if b.labels.len() >= 1 {
                let attrs = spec_attributes(b.body);
                (
                    Some(
                        BlockModel::Variable(
                            VariableModel {
                                name: b.labels[0],
                                default: spec_attr_lookup(attrs, "default"@),
                                description: spec_attr_lookup(attrs, "description"@),
                            },
                        ),
                    ),
                    None,
                )
            } else {
                (None, Some(WarningModel::MissingLabel { kind: BlockKind::Variable }))
            }
        },
        BlockKind::Unknown => (None, None),
    }
}

/// Interprets one raw block: dispatches on its kind and applies the
/// kind-specific field rules. A block whose labels are missing yields no
/// semantic block and one warning; a module without `source` is kept with
/// an empty source and one warning; a block of unknown kind yields nothing.
pub fn interpret(block: &RawBlock) -> (r: (Option<TerraformBlock>, Option<ParseWarning>))
    ensures
        r.0.deep_view() == spec_interpret(block.deep_view()).0,
        r.1.deep_view() == spec_interpret(block.deep_view()).1,
{
    match block.kind {
        BlockKind::Resource => {
            if block.labels.len() >= 2 {
                let attributes = extract_attributes(block.body.as_str());
                let r = Resource {
                    resource_type: block.labels[0].clone(),
                    name: block.labels[1].clone(),
                    attributes,
                };
                (Some(TerraformBlock::Resource(r)), None)
            } else {
                (None, Some(ParseWarning::MissingLabel { kind: BlockKind::Resource }))
            }
        },
        BlockKind::Module => {
            if block.labels.len() >= 1 {
                let variables = extract_attributes(block.body.as_str());
                let name = block.labels[0].clone();
                match attr_lookup(&variables, "source") {
                    Some(src) => {
                        let m = Module { name, source: src, variables };
                        (Some(TerraformBlock::Module(m)), None)
                    },
                    None => {
                        let warn = ParseWarning::MissingSource { module_name: name.clone() };
                        let m = Module { name, source: String::new(), variables };
                        (Some(TerraformBlock::Module(m)), Some(warn))
                    },
                }
            } else {
                (None, Some(ParseWarning::MissingLabel { kind: BlockKind::Module }))
            }
        },
        BlockKind::Variable => {
            if block.labels.len() >= 1 {
                let attrs = extract_attributes(block.body.as_str());
                let v = Variable {
                    name: block.labels[0].clone(),
                    default: attr_lookup(&attrs, "default"),
                    description: attr_lookup(&attrs, "description"),
                };
                (Some(TerraformBlock::Variable(v)), None)
            } else {
                (None, Some(ParseWarning::MissingLabel { kind: BlockKind::Variable }))
            }
        },
        BlockKind::Unknown => (None, None),
    }
}

/// Placing a block into the deduplicated sequence: a block whose identity
/// key is already present overwrites the holder of that key in place (the
/// flag reports the collision); otherwise the block is appended.
pub open spec fn spec_place(acc: Seq<BlockModel>, b: BlockModel) -> (Seq<BlockModel>, bool)
    decreases acc.len(),
{
    if acc.len() == 0 {
        (seq![b], false)
    } else if spec_ident_eq(acc[0], b) {
        (seq![b] + acc.drop_first(), true)
    } else {
        let rest = spec_place(acc.drop_first(), b);
        (seq![acc[0]] + rest.0, rest.1)
    }
}

proof fn lemma_place_found(acc: Seq<BlockModel>, b: BlockModel, idx: int)
    requires
        0 <= idx < acc.len(),
        spec_ident_eq(acc[idx], b),
        forall|j: int| 0 <= j < idx ==> !spec_ident_eq(acc[j], b),
    ensures
        spec_place(acc, b).0 =~= acc.update(idx, b),
        spec_place(acc, b).1 == true,
    decreases acc.len(),
{
    if idx == 0 {
        assert(spec_place(acc, b).0 =~= acc.update(0, b));
    } else {
        lemma_place_found(acc.drop_first(), b, idx - 1);
        assert(seq![acc[0]] + acc.drop_first().update(idx - 1, b) =~= acc.update(idx, b));
    }
}

proof fn lemma_place_absent(acc: Seq<BlockModel>, b: BlockModel)
    requires
        forall|j: int| 0 <= j < acc.len() ==> !spec_ident_eq(acc[j], b),
    ensures
        spec_place(acc, b).0 =~= acc.push(b),
        spec_place(acc, b).1 == false,
    decreases acc.len(),
{
    if acc.len() > 0 {
        lemma_place_absent(acc.drop_first(), b);
        assert(seq![acc[0]] + acc.drop_first().push(b) =~= acc.push(b));
    }
}

fn ident_eq(a: &TerraformBlock, b: &TerraformBlock) -> (r: bool)
    ensures
        r == spec_ident_eq(a.deep_view(), b.deep_view()),
{
    if a.kind() == b.kind() {
        str_eq_str(a.name(), b.name())
    } else {
        false
    }
}

/// Index of the block sharing `b`'s identity key, if any.
fn find_ident(out: &Vec<TerraformBlock>, b: &TerraformBlock) -> (r: Option<usize>)
    ensures
        match r {
            Some(i) => i < out.len() && spec_ident_eq(out.deep_view()[i as int], b.deep_view())
                && (forall|j: int|
                0 <= j < i ==> !spec_ident_eq(out.deep_view()[j], b.deep_view())),
            None => forall|j: int|
                0 <= j < out.len() ==> !spec_ident_eq(out.deep_view()[j], b.deep_view()),
        },
{
    let n = out.len();
    let mut idx: usize = 0;
    while idx < n
        invariant
            n == out.len(),
            idx <= n,
            forall|j: int| 0 <= j < idx ==> !spec_ident_eq(out.deep_view()[j], b.deep_view()),
        decreases n - idx,
    {
        if ident_eq(&out[idx], b) {
            return Some(idx);
        }
        idx = idx + 1;
    }
    None
}

fn place(out: &mut Vec<TerraformBlock>, b: TerraformBlock) -> (collided: bool)
    ensures
        final(out).deep_view() == spec_place(old(out).deep_view(), b.deep_view()).0,
        collided == spec_place(old(out).deep_view(), b.deep_view()).1,
{
    let ghost acc0 = old(out).deep_view();
    let ghost bm = b.deep_view();
    match find_ident(out, &b) {
        Some(idx) => {
            proof {
                lemma_place_found(acc0, bm, idx as int);
            }
            out[idx] = b;
            proof {
                assert(out.deep_view() =~= acc0.update(idx as int, bm));
            }
            true
        },
        None => {
            proof {
                lemma_place_absent(acc0, bm);
            }
            out.push(b);
            proof {
                assert(out.deep_view() =~= acc0.push(bm));
            }
            false
        },
    }
}

/// Interpreting a sequence of raw blocks from index `i` on, threading the
/// deduplicated output and the warning list: each raw block contributes at
/// most one semantic block (placed with last-wins collision resolution) and
/// its warnings in order.
pub open spec fn spec_interpret_fold(
    raws: Seq<RawBlockModel>,
    i: int,
    acc: Seq<BlockModel>,
    warns: Seq<WarningModel>,
) -> (Seq<BlockModel>, Seq<WarningModel>)
    decreases raws.len() - i,
{
    if i < 0 || i >= raws.len() {
        (acc, warns)
    } else {
        let step = spec_interpret(raws[i]);
        let warns1 = match step.1 {
            Some(w) => warns.push(w),
            None => warns,
        };
        match step.0 {
            Some(b) => {
                let placed = spec_place(acc, b);
                let warns2 = if placed.1 {
                    warns1.push(
                        WarningModel::DuplicateIdentity {
                            kind: spec_block_kind(b),
                            name: spec_block_name(b),
                        },
                    )
                } else {
                    warns1
                };
                spec_interpret_fold(raws, i + 1, placed.0, warns2)
            },
            None => spec_interpret_fold(raws, i + 1, acc, warns1),
        }
    }
}

/// The whole parse of a source text: extraction, interpretation, and
/// deduplication, with every warning the three stages record.
pub open spec fn spec_parse(s: Seq<char>) -> (Seq<BlockModel>, Seq<WarningModel>) {
    let ex = spec_extract(s);
    spec_interpret_fold(ex.blocks, 0, Seq::empty(), ex.warnings)
}

/// Parses a source text into its semantic blocks, in source order after
/// last-wins deduplication by the identity key `<kind>.<name>`, together
/// with the warnings recorded along the way. Malformed input never aborts
/// the parse: unrecognized constructs are skipped, and each per-block
/// failure is one warning.
pub fn parse(code: &str) -> (r: (Vec<TerraformBlock>, Vec<ParseWarning>))
    ensures
        r.0.deep_view() == spec_parse(code@).0,
        r.1.deep_view() == spec_parse(code@).1,
{
    let (raws, mut warns) = extract(code);
    let ghost raws_m = spec_extract(code@).blocks;
    let mut out: Vec<TerraformBlock> = Vec::new();
    let mut i: usize = 0;
    let n = raws.len();
    proof {
        assert(out.deep_view() =~= Seq::<BlockModel>::empty());
    }
    while i < n
        invariant
            n == raws.len(),
            i <= n,
            raws.deep_view() == raws_m,
            spec_parse(code@) == spec_interpret_fold(
                raws_m,
                i as int,
                out.deep_view(),
                warns.deep_view(),
            ),
        decreases n - i,
    {
        let ghost warns0 = warns.deep_view();
        let (ob, ow) = interpret(&raws[i]);
        match ow {
            Some(w) => {
                warns.push(w);
                proof {
                    assert(warns.deep_view() =~= warns0.push(w.deep_view()));
                }
            },
            None => {},
        }
        match ob {
            Some(b) => {
                let ghost bm = b.deep_view();
                let k = b.kind();
                let nm = b.name().to_owned();
                let collided = place(&mut out, b);
                if collided {
                    let ghost warns2 = warns.deep_view();
                    let dup = ParseWarning::DuplicateIdentity { kind: k, name: nm };
                    warns.push(dup);
                    proof {
                        assert(warns.deep_view() =~= warns2.push(dup.deep_view()));
                    }
                }
            },
            None => {},
        }
        i = i + 1;
    }
    (out, warns)
}

} // verus!
