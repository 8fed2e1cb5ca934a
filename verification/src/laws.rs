//! Library-level laws: properties of the parsing pipeline that hold for
//! every input, proved from the specifications the functions carry.

use vstd::prelude::*;
use crate::entity::{
    spec_build, spec_entities, spec_entity_of, spec_field_entity, spec_opt_or_empty,
    EntityModel, EntityTypeModel,
};
use crate::semantics::{
    spec_block_name, spec_ident_eq, spec_interpret_fold, spec_parse, spec_place, BlockModel,
    VariableModel,
};
use crate::warnings::WarningModel;

verus! {

broadcast use vstd::seq::group_seq_axioms;

/// No two blocks of the sequence share an identity key.
pub open spec fn unique_idents(s: Seq<BlockModel>) -> bool {
    forall|i: int, j: int|
        0 <= i < j < s.len() ==> !spec_ident_eq(s[i], s[j])
}

/// Round-trip shape: building entities from N semantic blocks yields
/// exactly N `Struct` entities, in block order, each labeled with its
/// block's name.
pub proof fn lemma_build_shape(blocks: Seq<BlockModel>)
    ensures
        spec_build(blocks).len() == blocks.len(),
        forall|i: int|
            0 <= i < blocks.len() ==> #[trigger] spec_build(blocks)[i].kind
                == EntityTypeModel::Struct,
        forall|i: int|
            0 <= i < blocks.len() ==> #[trigger] spec_build(blocks)[i].label == spec_block_name(
                blocks[i],
            ),
{
    assert forall|i: int| 0 <= i < blocks.len() implies #[trigger] spec_build(blocks)[i].kind
        == EntityTypeModel::Struct && spec_build(blocks)[i].label == spec_block_name(
        blocks[i],
    ) by {
        assert(spec_build(blocks)[i] == spec_entity_of(blocks[i]));
    }
}

/// Variable fixed arity: every variable block builds an entity with
/// exactly two `Field` children, `default` then `description`, the empty
/// string standing in for an absent field.
pub proof fn lemma_variable_fixed_arity(v: VariableModel)
    ensures
        spec_entity_of(BlockModel::Variable(v)).children.len() == 2,
        spec_entity_of(BlockModel::Variable(v)).children[0] == spec_field_entity(
            "default"@,
            spec_opt_or_empty(v.default),
        ),
        spec_entity_of(BlockModel::Variable(v)).children[1] == spec_field_entity(
            "description"@,
            spec_opt_or_empty(v.description),
        ),
{
}

/// Duplicate identity, content half: placing a block into a sequence whose
/// identity keys are unique keeps them unique, puts the placed block itself
/// into the result, and leaves it the only block under its key — so when
/// two blocks collide, the later-placed one's content is what the key
/// holds.
pub proof fn lemma_place_last_wins(acc: Seq<BlockModel>, b: BlockModel)
    requires
        unique_idents(acc),
    ensures
        unique_idents(spec_place(acc, b).0),
        exists|k: int|
            0 <= k < spec_place(acc, b).0.len() && #[trigger] spec_place(acc, b).0[k] == b,
        forall|j: int|
            0 <= j < spec_place(acc, b).0.len() && spec_ident_eq(
                #[trigger] spec_place(acc, b).0[j],
                b,
            ) ==> spec_place(acc, b).0[j] == b,
    decreases acc.len(),
{
    if acc.len() == 0 {
        assert(spec_place(acc, b).0[0] == b);
    } else if spec_ident_eq(acc[0], b) {
        let r = spec_place(acc, b).0;
        assert(r =~= seq![b] + acc.drop_first());
        assert(r[0] == b);
        assert forall|i: int, j: int| 0 <= i < j < r.len() implies !spec_ident_eq(
            r[i],
            r[j],
        ) by {
            if i == 0 {
                assert(r[j] == acc[j]);
                assert(!spec_ident_eq(acc[0], acc[j]));
            } else {
                assert(r[i] == acc[i] && r[j] == acc[j]);
            }
        }
        assert forall|j: int| 0 <= j < r.len() && spec_ident_eq(r[j], b) implies r[j] == b by {
            if j != 0 {
                assert(r[j] == acc[j]);
                assert(!spec_ident_eq(acc[0], acc[j]));
            }
        }
    } else {
        assert(unique_idents(acc.drop_first())) by {
            assert(forall|i: int, j: int|
                0 <= i < j < acc.drop_first().len() ==> acc.drop_first()[i] == acc[i + 1]
                    && acc.drop_first()[j] == acc[j + 1]);
        }
        lemma_place_last_wins(acc.drop_first(), b);
        let rest = spec_place(acc.drop_first(), b).0;
        let r = spec_place(acc, b).0;
        assert(r =~= seq![acc[0]] + rest);
        let k0 = choose|k: int| 0 <= k < rest.len() && rest[k] == b;
        assert(r[k0 + 1] == b);
        assert forall|i: int, j: int| 0 <= i < j < r.len() implies !spec_ident_eq(
            r[i],
            r[j],
        ) by {
            if i == 0 {
                // acc[0] does not share b's key; every key of `rest` is a
                // key of acc.drop_first() or b's own.
                if rest[j - 1] == b {
                    assert(!spec_ident_eq(acc[0], b));
                } else {
                    lemma_place_keys(acc.drop_first(), b, j - 1);
                }
            } else {
                assert(rest[i - 1] == r[i] && rest[j - 1] == r[j]);
            }
        }
        assert forall|j: int| 0 <= j < r.len() && spec_ident_eq(r[j], b) implies r[j] == b by {
            if j == 0 {
                assert(!spec_ident_eq(acc[0], b));
            } else {
                assert(r[j] == rest[j - 1]);
            }
        }
    }
}

/// Every element of a placed sequence either came from the original
/// sequence or is the placed block itself.
proof fn lemma_place_keys(acc: Seq<BlockModel>, b: BlockModel, j: int)
    requires
        0 <= j < spec_place(acc, b).0.len(),
    ensures
        spec_place(acc, b).0[j] == b || exists|i: int|
            0 <= i < acc.len() && #[trigger] acc[i] == spec_place(acc, b).0[j],
    decreases acc.len(),
{
    if acc.len() == 0 {
    } else if spec_ident_eq(acc[0], b) {
        if j > 0 {
            assert(spec_place(acc, b).0[j] == acc[j]);
        }
    } else {
        if j > 0 {
            lemma_place_keys(acc.drop_first(), b, j - 1);
            let r = spec_place(acc, b).0;
            assert(r[j] == spec_place(acc.drop_first(), b).0[j - 1]);
            if r[j] != b {
                let i0 = choose|i: int|
                    0 <= i < acc.drop_first().len() && #[trigger] acc.drop_first()[i] == r[j];
                assert(acc[i0 + 1] == r[j]);
            }
        }
    }
}

proof fn lemma_fold_unique(
    raws: Seq<crate::blocks::RawBlockModel>,
    i: int,
    acc: Seq<BlockModel>,
    warns: Seq<WarningModel>,
)
    requires
        unique_idents(acc),
    ensures
        unique_idents(spec_interpret_fold(raws, i, acc, warns).0),
    decreases raws.len() - i,
{
    if 0 <= i && i < raws.len() {
        let step = crate::semantics::spec_interpret(raws[i]);
        let warns1 = match step.1 {
            Some(w) => warns.push(w),
            None => warns,
        };
        match step.0 {
            Some(b) => {
                lemma_place_last_wins(acc, b);
                let placed = spec_place(acc, b);
                let warns2 = if placed.1 {
                    warns1.push(
                        WarningModel::DuplicateIdentity {
                            kind: crate::semantics::spec_block_kind(b),
                            name: spec_block_name(b),
                        },
                    )
                } else {
                    warns1
                };
                lemma_fold_unique(raws, i + 1, placed.0, warns2);
            },
            None => {
                lemma_fold_unique(raws, i + 1, acc, warns1);
            },
        }
    }
}

/// Duplicate identity: whatever the source text, no two blocks of the
/// parse output share the identity key `<kind>.<name>`; a later block with
/// an already-seen key has overwritten the earlier one in place.
pub proof fn lemma_parse_unique_idents(s: Seq<char>)
    ensures
        unique_idents(spec_parse(s).0),
{
    let ex = crate::blocks::spec_extract(s);
    lemma_fold_unique(ex.blocks, 0, Seq::empty(), ex.warnings);
}

/// The block is what interpreting one of the raw blocks yields.
pub open spec fn from_raws(raws: Seq<crate::blocks::RawBlockModel>, b: BlockModel) -> bool {
    exists|i0: int|
        0 <= i0 < raws.len() && #[trigger] crate::semantics::spec_interpret(raws[i0]).0 == Some(b)
}

proof fn lemma_fold_provenance(
    raws: Seq<crate::blocks::RawBlockModel>,
    i: int,
    acc: Seq<BlockModel>,
    warns: Seq<WarningModel>,
)
    requires
        forall|j: int| 0 <= j < acc.len() ==> from_raws(raws, #[trigger] acc[j]),
    ensures
        forall|j: int|
            0 <= j < spec_interpret_fold(raws, i, acc, warns).0.len() ==> from_raws(
                raws,
                #[trigger] spec_interpret_fold(raws, i, acc, warns).0[j],
            ),
    decreases raws.len() - i,
{
    let out = spec_interpret_fold(raws, i, acc, warns).0;
    if 0 <= i && i < raws.len() {
        let step = crate::semantics::spec_interpret(raws[i]);
        let warns1 = match step.1 {
            Some(w) => warns.push(w),
            None => warns,
        };
        match step.0 {
            Some(b) => {
                let placed = spec_place(acc, b);
                assert forall|j: int| 0 <= j < placed.0.len() implies from_raws(
                    raws,
                    #[trigger] placed.0[j],
                ) by {
                    lemma_place_keys(acc, b, j);
                    if placed.0[j] == b {
                        assert(crate::semantics::spec_interpret(raws[i]).0 == Some(placed.0[j]));
                    } else {
                        let j0 = choose|j0: int| 0 <= j0 < acc.len() && #[trigger] acc[j0]
                            == placed.0[j];
                        assert(from_raws(raws, acc[j0]));
                    }
                }
                let warns2 = if placed.1 {
                    warns1.push(
                        WarningModel::DuplicateIdentity {
                            kind: crate::semantics::spec_block_kind(b),
                            name: spec_block_name(b),
                        },
                    )
                } else {
                    warns1
                };
                lemma_fold_provenance(raws, i + 1, placed.0, warns2);
                assert(out == spec_interpret_fold(raws, i + 1, placed.0, warns2).0);
            },
            None => {
                lemma_fold_provenance(raws, i + 1, acc, warns1);
                assert(out == spec_interpret_fold(raws, i + 1, acc, warns1).0);
            },
        }
    } else {
        assert forall|j: int| 0 <= j < out.len() implies from_raws(raws, #[trigger] out[j]) by {
            assert(out[j] == acc[j]);
        }
    }
}

/// Duplicate identity, provenance half: every block of the parse output is
/// the interpretation of one of the extracted raw blocks; deduplication
/// only selects among them, it never fabricates content.
pub proof fn lemma_parse_provenance(s: Seq<char>)
    ensures
        forall|j: int|
            0 <= j < spec_parse(s).0.len() ==> from_raws(
                crate::blocks::spec_extract(s).blocks,
                #[trigger] spec_parse(s).0[j],
            ),
{
    let ex = crate::blocks::spec_extract(s);
    lemma_fold_provenance(ex.blocks, 0, Seq::empty(), ex.warnings);
}

/// The identity key of `b` is held by some block of `s`.
pub open spec fn ident_present(s: Seq<BlockModel>, b: BlockModel) -> bool {
    exists|j: int| 0 <= j < s.len() && spec_ident_eq(#[trigger] s[j], b)
}

/// Placing a block keeps every identity key that was present, and makes
/// the placed block's key present.
proof fn lemma_place_covers(acc: Seq<BlockModel>, b: BlockModel, x: BlockModel)
    requires
        ident_present(acc, x) || spec_ident_eq(b, x),
    ensures
        ident_present(spec_place(acc, b).0, x),
    decreases acc.len(),
{
    let r = spec_place(acc, b).0;
    if acc.len() == 0 {
        assert(spec_ident_eq(r[0], x));
    } else if spec_ident_eq(acc[0], b) {
        if spec_ident_eq(b, x) || spec_ident_eq(acc[0], x) {
            assert(spec_ident_eq(r[0], x));
        } else {
            let j = choose|j: int| 0 <= j < acc.len() && spec_ident_eq(#[trigger] acc[j], x);
            assert(r[j] == acc[j]);
            assert(spec_ident_eq(r[j], x));
        }
    } else {
        let rest = spec_place(acc.drop_first(), b).0;
        if spec_ident_eq(acc[0], x) {
            assert(spec_ident_eq(r[0], x));
        } else if spec_ident_eq(b, x) {
            lemma_place_covers(acc.drop_first(), b, x);
            let j = choose|j: int| 0 <= j < rest.len() && spec_ident_eq(#[trigger] rest[j], x);
            assert(r[j + 1] == rest[j]);
            assert(spec_ident_eq(r[j + 1], x));
        } else {
            let j = choose|j: int| 0 <= j < acc.len() && spec_ident_eq(#[trigger] acc[j], x);
            assert(acc.drop_first()[j - 1] == acc[j]);
            assert(ident_present(acc.drop_first(), x));
            lemma_place_covers(acc.drop_first(), b, x);
            let j2 = choose|j2: int| 0 <= j2 < rest.len() && spec_ident_eq(#[trigger] rest[j2], x);
            assert(r[j2 + 1] == rest[j2]);
            assert(spec_ident_eq(r[j2 + 1], x));
        }
    }
}

proof fn lemma_fold_complete(
    raws: Seq<crate::blocks::RawBlockModel>,
    i: int,
    acc: Seq<BlockModel>,
    warns: Seq<WarningModel>,
    k: int,
    b: BlockModel,
)
    requires
        0 <= i,
        0 <= k < raws.len(),
        crate::semantics::spec_interpret(raws[k]).0 == Some(b),
        k < i ==> ident_present(acc, b),
    ensures
        i <= raws.len() ==> ident_present(spec_interpret_fold(raws, i, acc, warns).0, b),
    decreases raws.len() - i,
{
    if 0 <= i && i < raws.len() {
        let step = crate::semantics::spec_interpret(raws[i]);
        let warns1 = match step.1 {
            Some(w) => warns.push(w),
            None => warns,
        };
        match step.0 {
            Some(placed_b) => {
                let placed = spec_place(acc, placed_b);
                if k < i {
                    lemma_place_covers(acc, placed_b, b);
                } else if k == i {
                    assert(placed_b == b);
                    lemma_place_covers(acc, placed_b, b);
                }
                let warns2 = if placed.1 {
                    warns1.push(
                        WarningModel::DuplicateIdentity {
                            kind: crate::semantics::spec_block_kind(placed_b),
                            name: spec_block_name(placed_b),
                        },
                    )
                } else {
                    warns1
                };
                lemma_fold_complete(raws, i + 1, placed.0, warns2, k, b);
            },
            None => {
                if k == i {
                    assert(false);
                }
                lemma_fold_complete(raws, i + 1, acc, warns1, k, b);
            },
        }
    } else if i == raws.len() {
        assert(k < i);
    }
}

/// Duplicate identity, completeness half: every raw block that interprets
/// to a semantic block leaves its identity key present in the parse
/// output. Together with key uniqueness, each declared identity yields
/// exactly one output block.
pub proof fn lemma_parse_complete(s: Seq<char>, k: int, b: BlockModel)
    requires
        0 <= k < crate::blocks::spec_extract(s).blocks.len(),
        crate::semantics::spec_interpret(crate::blocks::spec_extract(s).blocks[k]).0 == Some(b),
    ensures
        ident_present(spec_parse(s).0, b),
{
    let ex = crate::blocks::spec_extract(s);
    lemma_fold_complete(ex.blocks, 0, Seq::empty(), ex.warnings, k, b);
}

/// Round-trip shape at the pipeline level: for any source text, the
/// entity output has exactly one `Struct` entity per parsed block, in
/// block order, labeled with the block's name.
pub proof fn lemma_entities_shape(s: Seq<char>)
    ensures
        spec_entities(s).len() == spec_parse(s).0.len(),
        forall|i: int|
            0 <= i < spec_parse(s).0.len() ==> #[trigger] spec_entities(s)[i].kind
                == EntityTypeModel::Struct,
        forall|i: int|
            0 <= i < spec_parse(s).0.len() ==> #[trigger] spec_entities(s)[i].label
                == spec_block_name(spec_parse(s).0[i]),
{
    lemma_build_shape(spec_parse(s).0);
}

/// Idempotence: the parse result is a pure function of the source text, so
/// parsing the same text twice yields identical block and entity
/// sequences.
pub proof fn lemma_parse_idempotent(
    s: Seq<char>,
    first: (Seq<BlockModel>, Seq<WarningModel>),
    second: (Seq<BlockModel>, Seq<WarningModel>),
)
    requires
        first == spec_parse(s),
        second == spec_parse(s),
    ensures
        first == second,
        spec_build(first.0) == spec_build(second.0),
{
}

/// Idempotence at the entity level: two runs of the full pipeline over the
/// same text yield the same entity sequence.
pub proof fn lemma_entities_idempotent(s: Seq<char>, e1: Seq<EntityModel>, e2: Seq<EntityModel>)
    requires
        e1 == spec_entities(s),
        e2 == spec_entities(s),
    ensures
        e1 == e2,
{
}

} // verus!
