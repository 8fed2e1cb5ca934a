//! The entity model builder: turns semantic blocks into the generic,
//! render-ready entity sequence.
//!
//! Every block yields one `Struct` entity labeled with the block's name.
//! A resource or module entity has one `Field` child per attribute, in the
//! attribute mapping's order, each child labeled with the attribute's value
//! and carrying no children of its own. A variable entity always has
//! exactly two `Field` children, `default` then `description`, with the
//! empty string standing in for an absent field, so the shape is uniform
//! across all variable entities.

use vstd::prelude::*;
use crate::semantics::{
    parse, spec_parse, BlockModel, ModuleModel, ResourceModel, TerraformBlock, VariableModel,
};
use crate::warnings::ParseWarning;

verus! {

broadcast use vstd::std_specs::vec::group_vec_axioms, vstd::seq::group_seq_axioms;

/// What an entity stands for: a whole structure, or one named field of it.
#[derive(Debug, Clone, PartialEq, Eq)]
pub enum EntityType {
    Struct,
    Field(String),
}

/// A structural node of the diagram model: its type, its label, and its
/// ordered children.
#[derive(Debug, PartialEq, Eq)]
pub struct Entity {
    pub kind: EntityType,
    pub label: String,
    pub children: Vec<Entity>,
}

/// Mathematical model of an entity's type.
pub enum EntityTypeModel {
    Struct,
    Field(Seq<char>),
}

/// Mathematical model of an entity.
pub struct EntityModel {
    pub kind: EntityTypeModel,
    pub label: Seq<char>,
    pub children: Seq<EntityModel>,
}

impl DeepView for EntityType {
    type V = EntityTypeModel;

    open spec fn deep_view(&self) -> EntityTypeModel {
        match self {
            EntityType::Struct => EntityTypeModel::Struct,
            EntityType::Field(name) => EntityTypeModel::Field(name@),
        }
    }
}

/// Mathematical model of an entity, recursing through its children.
pub open spec fn entity_model(e: Entity) -> EntityModel
    decreases e,
{
    EntityModel {
        kind: e.kind.deep_view(),
        label: e.label@,
        children: entities_model(e.children@),
    }
}

/// Mathematical model of a sequence of entities, elementwise.
pub open spec fn entities_model(s: Seq<Entity>) -> Seq<EntityModel>
    decreases s,
{
    if s.len() == 0 {
        Seq::empty()
    } else {
        seq![entity_model(s[0])] + entities_model(s.subrange(1, s.len() as int))
    }
}

pub proof fn lemma_entities_model_len(s: Seq<Entity>)
    ensures
        entities_model(s).len() == s.len(),
    decreases s,
{
    if s.len() > 0 {
        lemma_entities_model_len(s.subrange(1, s.len() as int));
    }
}

pub proof fn lemma_entities_model_index(s: Seq<Entity>, i: int)
    requires
        0 <= i < s.len(),
    ensures
        entities_model(s).len() == s.len(),
        entities_model(s)[i] == entity_model(s[i]),
    decreases s,
{
    lemma_entities_model_len(s);
    if i > 0 {
        lemma_entities_model_index(s.subrange(1, s.len() as int), i - 1);
    }
}

pub proof fn lemma_entities_model_push(s: Seq<Entity>, e: Entity)
    ensures
        entities_model(s.push(e)) =~= entities_model(s).push(entity_model(e)),
    decreases s,
{
    lemma_entities_model_len(s);
    lemma_entities_model_len(s.push(e));
    assert forall|i: int| 0 <= i < s.push(e).len() implies entities_model(s.push(e))[i]
        == entities_model(s).push(entity_model(e))[i] by {
        lemma_entities_model_index(s.push(e), i);
        if i < s.len() {
            lemma_entities_model_index(s, i);
            assert(s.push(e)[i] == s[i]);
        } else {
            assert(s.push(e)[i] == e);
        }
    }
}

/// A leaf field entity: type `Field(key)`, label `value`, no children.
pub open spec fn spec_field_entity(key: Seq<char>, value: Seq<char>) -> EntityModel {
    EntityModel { kind: EntityTypeModel::Field(key), label: value, children: Seq::empty() }
}

/// An absent optional field renders as the empty string.
pub open spec fn spec_opt_or_empty(o: Option<Seq<char>>) -> Seq<char> {
    match o {
        Some(s) => s,
        None => Seq::empty(),
    }
}

/// The entity a semantic block builds.
pub open spec fn spec_entity_of(b: BlockModel) -> EntityModel {
    match b {
        BlockModel::Resource(r) => EntityModel {
            kind: EntityTypeModel::Struct,
            label: r.name,
            children: r.attributes.map_values(
                |p: (Seq<char>, Seq<char>)| spec_field_entity(p.0, p.1),
            ),
        },
        BlockModel::Module(m) => EntityModel {
            kind: EntityTypeModel::Struct,
            label: m.name,
            children: m.variables.map_values(
                |p: (Seq<char>, Seq<char>)| spec_field_entity(p.0, p.1),
            ),
        },
        BlockModel::Variable(v) => EntityModel {
            kind: EntityTypeModel::Struct,
            label: v.name,
            children: seq![
                spec_field_entity("default"@, spec_opt_or_empty(v.default)),
                spec_field_entity("description"@, spec_opt_or_empty(v.description)),
            ],
        },
    }
}

/// The entity sequence a block sequence builds: one entity per block, in
/// block order.
pub open spec fn spec_build(blocks: Seq<BlockModel>) -> Seq<EntityModel> {
    blocks.map_values(|b: BlockModel| spec_entity_of(b))
}

/// One `Field` child per attribute, in mapping order.
fn field_children(attrs: &Vec<(String, String)>) -> (r: Vec<Entity>)
    ensures
        entities_model(r@) == attrs.deep_view().map_values(
            |p: (Seq<char>, Seq<char>)| spec_field_entity(p.0, p.1),
        ),
{
    let n = attrs.len();
    let mut children: Vec<Entity> = Vec::new();
    let mut i: usize = 0;
    while i < n
        invariant
            n == attrs.len(),
            i <= n,
            entities_model(children@) =~= attrs.deep_view().subrange(0, i as int).map_values(
                |p: (Seq<char>, Seq<char>)| spec_field_entity(p.0, p.1),
            ),
        decreases n - i,
    {
        let key = attrs[i].0.clone();
        let value = attrs[i].1.clone();
        let child = Entity { kind: EntityType::Field(key), label: value, children: Vec::new() };
        proof {
            assert(entity_model(child).children =~= Seq::<EntityModel>::empty());
        }
        let ghost prev_v = children@;
        children.push(child);
        i = i + 1;
        proof {
            lemma_entities_model_push(prev_v, child);
            assert(entities_model(children@) =~= attrs.deep_view().subrange(0, i as int).map_values(
                |p: (Seq<char>, Seq<char>)| spec_field_entity(p.0, p.1),
            ));
        }
    }
    proof {
        assert(attrs.deep_view().subrange(0, n as int) =~= attrs.deep_view());
    }
    children
}

/// The value an optional field renders as.
fn opt_or_empty(o: &Option<String>) -> (r: String)
    ensures
        r@ == spec_opt_or_empty(o.deep_view()),
{
    match o {
        Some(s) => s.clone(),
        None => String::new(),
    }
}

/// Builds the entity of one semantic block.
pub fn entity_of(block: &TerraformBlock) -> (e: Entity)
    ensures
        entity_model(e) == spec_entity_of(block.deep_view()),
{
    match block {
        TerraformBlock::Resource(r) => {
            let e = Entity {
                kind: EntityType::Struct,
                label: r.name.clone(),
                children: field_children(&r.attributes),
            };
            proof {
                assert(entity_model(e) =~= spec_entity_of(block.deep_view())) by {
                    assert(entity_model(e).children =~= spec_entity_of(
                        block.deep_view(),
                    ).children);
                }
            }
            e
        },
        TerraformBlock::Module(m) => {
            let e = Entity {
                kind: EntityType::Struct,
                label: m.name.clone(),
                children: field_children(&m.variables),
            };
            proof {
                assert(entity_model(e) =~= spec_entity_of(block.deep_view())) by {
                    assert(entity_model(e).children =~= spec_entity_of(
                        block.deep_view(),
                    ).children);
                }
            }
            e
        },
        TerraformBlock::Variable(v) => {
            let mut children: Vec<Entity> = Vec::new();
            let default_label = String::from_str("default");
            let description_label = String::from_str("description");
            children.push(
                Entity {
                    kind: EntityType::Field(default_label),
                    label: opt_or_empty(&v.default),
                    children: Vec::new(),
                },
            );
            children.push(
                Entity {
                    kind: EntityType::Field(description_label),
                    label: opt_or_empty(&v.description),
                    children: Vec::new(),
                },
            );
            let e = Entity { kind: EntityType::Struct, label: v.name.clone(), children };
            proof {
                lemma_entities_model_push(Seq::empty(), e.children[0]);
                lemma_entities_model_push(seq![e.children[0]], e.children[1]);
                assert(e.children@ =~= seq![e.children[0], e.children[1]]);
                assert(seq![e.children[0]] =~= Seq::<Entity>::empty().push(e.children[0]));
                assert(e.children@ =~= seq![e.children[0]].push(e.children[1]));
                assert(entities_model(Seq::<Entity>::empty()) =~= Seq::<EntityModel>::empty());
                assert(entity_model(e.children[0]).children =~= Seq::<EntityModel>::empty());
                assert(entity_model(e.children[1]).children =~= Seq::<EntityModel>::empty());
                assert(entity_model(e) =~= spec_entity_of(block.deep_view())) by {
                    assert(entity_model(e).children =~= spec_entity_of(
                        block.deep_view(),
                    ).children);
                }
            }
            e
        },
    }
}

/// Builds the entity sequence of a block sequence: one `Struct` entity per
/// block, labeled with the block's name, in block order.
pub fn build(blocks: &Vec<TerraformBlock>) -> (r: Vec<Entity>)
    ensures
        entities_model(r@) == spec_build(blocks.deep_view()),
{
    let n = blocks.len();
    let mut entities: Vec<Entity> = Vec::new();
    let mut i: usize = 0;
    while i < n
        invariant
            n == blocks.len(),
            i <= n,
            entities_model(entities@) =~= blocks.deep_view().subrange(0, i as int).map_values(
                |b: BlockModel| spec_entity_of(b),
            ),
        decreases n - i,
    {
        let e = entity_of(&blocks[i]);
        let ghost prev_v = entities@;
        entities.push(e);
        i = i + 1;
        proof {
            lemma_entities_model_push(prev_v, e);
            assert(entities_model(entities@) =~= blocks.deep_view().subrange(0, i as int).map_values(
                |b: BlockModel| spec_entity_of(b),
            ));
        }
    }
    proof {
        assert(blocks.deep_view().subrange(0, n as int) =~= blocks.deep_view());
    }
    entities
}

/// The full pipeline's entity output for a source text.
pub open spec fn spec_entities(s: Seq<char>) -> Seq<EntityModel> {
    spec_build(spec_parse(s).0)
}

/// Parses a source text and builds its entity sequence, with the warnings
/// the parse recorded. The entity sequence is a pure function of the text:
/// the same input always yields the same entities in the same order.
pub fn parse_terraform(code: &str) -> (r: (Vec<Entity>, Vec<ParseWarning>))
    ensures
        entities_model(r.0@) == spec_entities(code@),
        r.1.deep_view() == spec_parse(code@).1,
{
    let (blocks, warns) = parse(code);
    let entities = build(&blocks);
    (entities, warns)
}

} // verus!
