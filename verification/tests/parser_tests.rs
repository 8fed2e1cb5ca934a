use terraform_model::attrs::{attr_lookup, extract_attributes};
use terraform_model::blocks::{extract, BlockKind, RawBlock};
use terraform_model::entity::{build, parse_terraform, Entity, EntityType};
use terraform_model::semantics::{interpret, parse, TerraformBlock};
use terraform_model::warnings::ParseWarning;

fn field(e: &Entity) -> (&str, &str) {
    match &e.kind {
        EntityType::Field(name) => (name.as_str(), e.label.as_str()),
        EntityType::Struct => panic!("expected a field entity"),
    }
}

#[test]
fn attribute_fidelity() {
    let src = r#"resource "aws_instance" "web" { ami = "ami-123" instance_type = "t2.micro" }"#;
    let (entities, warnings) = parse_terraform(src);
    assert_eq!(entities.len(), 1);
    assert!(warnings.is_empty());
    let e = &entities[0];
    assert!(matches!(e.kind, EntityType::Struct));
    assert_eq!(e.label, "web");
    assert_eq!(e.children.len(), 2);
    assert_eq!(field(&e.children[0]), ("ami", "ami-123"));
    assert_eq!(field(&e.children[1]), ("instance_type", "t2.micro"));
    assert!(e.children[0].children.is_empty());
    assert!(e.children[1].children.is_empty());
}

#[test]
fn round_trip_shape() {
    let src = r#"
        resource "aws_instance" "web" { ami = "a" }
        some stray text
        resource "aws_s3_bucket" "store" { bucket = "b" }
        resource "aws_vpc" "net" { cidr_block = "10.0.0.0/16" }
    "#;
    let (entities, warnings) = parse_terraform(src);
    assert!(warnings.is_empty());
    assert_eq!(entities.len(), 3);
    let labels: Vec<&str> = entities.iter().map(|e| e.label.as_str()).collect();
    assert_eq!(labels, vec!["web", "store", "net"]);
    for e in &entities {
        assert!(matches!(e.kind, EntityType::Struct));
    }
}

#[test]
fn variable_fixed_arity() {
    let src = r#"variable "region" { description = "AWS region" }"#;
    let (entities, warnings) = parse_terraform(src);
    assert!(warnings.is_empty());
    assert_eq!(entities.len(), 1);
    let e = &entities[0];
    assert_eq!(e.label, "region");
    assert_eq!(e.children.len(), 2);
    assert_eq!(field(&e.children[0]), ("default", ""));
    assert_eq!(field(&e.children[1]), ("description", "AWS region"));
}

#[test]
fn variable_both_fields_present() {
    let src = r#"variable "region" { default = "us-east-1" description = "AWS region" }"#;
    let (entities, _) = parse_terraform(src);
    let e = &entities[0];
    assert_eq!(e.children.len(), 2);
    assert_eq!(field(&e.children[0]), ("default", "us-east-1"));
    assert_eq!(field(&e.children[1]), ("description", "AWS region"));
}

#[test]
fn nested_brace_robustness() {
    let src = r#"resource "aws_instance" "web" { ami = "a" lifecycle { inner = "deep" } after = "b" }"#;
    let (raws, warnings) = extract(src);
    assert!(warnings.is_empty());
    assert_eq!(raws.len(), 1);
    assert_eq!(raws[0].kind, BlockKind::Resource);
    assert_eq!(raws[0].labels, vec!["aws_instance".to_string(), "web".to_string()]);
    // The body runs to the matching outer brace, past the nested pair.
    assert!(raws[0].body.contains("after"));

    let (entities, warnings) = parse_terraform(src);
    assert!(warnings.is_empty());
    assert_eq!(entities.len(), 1);
    let e = &entities[0];
    // The attribute after the nested construct is not truncated away.
    let names: Vec<&str> = e.children.iter().map(|c| field(c).0).collect();
    assert_eq!(names, vec!["ami", "inner", "after"]);
    assert_eq!(field(&e.children[2]), ("after", "b"));
}

#[test]
fn duplicate_identity_last_wins() {
    let src = r#"
        variable "x" { default = "first" }
        variable "y" { default = "other" }
        variable "x" { default = "second" }
    "#;
    let (entities, warnings) = parse_terraform(src);
    assert_eq!(entities.len(), 2);
    // x keeps its original position; its content is the second block's.
    assert_eq!(entities[0].label, "x");
    assert_eq!(field(&entities[0].children[0]), ("default", "second"));
    assert_eq!(entities[1].label, "y");
    assert_eq!(
        warnings,
        vec![ParseWarning::DuplicateIdentity { kind: BlockKind::Variable, name: "x".to_string() }]
    );
}

#[test]
fn same_name_different_kind_no_collision() {
    let src = r#"
        variable "x" { default = "v" }
        module "x" { source = "./m" }
    "#;
    let (entities, warnings) = parse_terraform(src);
    assert!(warnings.is_empty());
    assert_eq!(entities.len(), 2);
}

#[test]
fn malformed_input_resilience() {
    let src = r#"resource "a" "b" { ami = "x" variable "v" { description = "kept" }"#;
    let (entities, warnings) = parse_terraform(src);
    // The unterminated resource yields nothing; the valid block after its
    // opening brace is still parsed.
    assert_eq!(entities.len(), 1);
    assert_eq!(entities[0].label, "v");
    assert_eq!(
        warnings,
        vec![ParseWarning::Unterminated { kind: BlockKind::Resource }]
    );
}

#[test]
fn unterminated_block_alone() {
    let src = r#"resource "a" "b" { ami = "x""#;
    let (entities, warnings) = parse_terraform(src);
    assert!(entities.is_empty());
    assert_eq!(warnings.len(), 1);
    assert!(matches!(warnings[0], ParseWarning::Unterminated { kind: BlockKind::Resource }));
}

#[test]
fn idempotence() {
    let src = r#"
        variable "region" { description = "where" }
        resource "aws_instance" "web" { ami = "ami-1" tags = "{ Name = web }" }
        module "net" { source = "./net" cidr = "10.0.0.0/16" }
    "#;
    let (e1, w1) = parse_terraform(src);
    let (e2, w2) = parse_terraform(src);
    assert_eq!(e1, e2);
    assert_eq!(w1, w2);
    let (b1, _) = parse(src);
    let (b2, _) = parse(src);
    assert_eq!(b1, b2);
}

#[test]
fn module_missing_source_kept_with_warning() {
    let src = r#"module "net" { region = "eu" }"#;
    let (blocks, warnings) = parse(src);
    assert_eq!(blocks.len(), 1);
    match &blocks[0] {
        TerraformBlock::Module(m) => {
            assert_eq!(m.name, "net");
            assert_eq!(m.source, "");
            assert_eq!(m.variables, vec![("region".to_string(), "eu".to_string())]);
        }
        other => panic!("expected a module, got {:?}", other),
    }
    assert_eq!(
        warnings,
        vec![ParseWarning::MissingSource { module_name: "net".to_string() }]
    );
}

#[test]
fn module_with_source() {
    let src = r#"module "net" { source = "./modules/net" cidr = "10.0.0.0/16" }"#;
    let (blocks, warnings) = parse(src);
    assert!(warnings.is_empty());
    match &blocks[0] {
        TerraformBlock::Module(m) => {
            assert_eq!(m.source, "./modules/net");
            // `source` itself stays in the attribute mapping.
            assert_eq!(
                m.variables,
                vec![
                    ("source".to_string(), "./modules/net".to_string()),
                    ("cidr".to_string(), "10.0.0.0/16".to_string()),
                ]
            );
        }
        other => panic!("expected a module, got {:?}", other),
    }
}

#[test]
fn non_string_attributes_omitted() {
    let src = r#"resource "aws_instance" "web" { count = 3 name = "x" enabled = true }"#;
    let (entities, warnings) = parse_terraform(src);
    assert!(warnings.is_empty());
    let e = &entities[0];
    assert_eq!(e.children.len(), 1);
    assert_eq!(field(&e.children[0]), ("name", "x"));
}

#[test]
fn duplicate_attribute_key_last_value_first_position() {
    let src = r#"resource "a" "b" { x = "1" y = "2" x = "3" }"#;
    let (blocks, _) = parse(src);
    match &blocks[0] {
        TerraformBlock::Resource(r) => {
            assert_eq!(
                r.attributes,
                vec![("x".to_string(), "3".to_string()), ("y".to_string(), "2".to_string())]
            );
        }
        other => panic!("expected a resource, got {:?}", other),
    }
}

#[test]
fn unknown_constructs_skipped() {
    let src = r#"
        terraform { required_version = "1.0" }
        provider "aws" { region = "eu" }
        resource "aws_instance" "web" { ami = "a" }
    "#;
    let (entities, warnings) = parse_terraform(src);
    assert!(warnings.is_empty());
    assert_eq!(entities.len(), 1);
    assert_eq!(entities[0].label, "web");
}

#[test]
fn empty_input() {
    let (entities, warnings) = parse_terraform("");
    assert!(entities.is_empty());
    assert!(warnings.is_empty());
}

#[test]
fn resource_fields_carry_names_and_types() {
    let src = r#"resource "aws_instance" "web" { ami = "a" }"#;
    let (blocks, _) = parse(src);
    match &blocks[0] {
        TerraformBlock::Resource(r) => {
            assert_eq!(r.resource_type, "aws_instance");
            assert_eq!(r.name, "web");
        }
        other => panic!("expected a resource, got {:?}", other),
    }
    assert_eq!(blocks[0].kind(), BlockKind::Resource);
    assert_eq!(blocks[0].name(), "web");
}

#[test]
fn interpret_unknown_yields_nothing() {
    let src = r#"variable "v" { default = "d" }"#;
    let (raws, _) = extract(src);
    let (block, warning) = interpret(&raws[0]);
    assert!(warning.is_none());
    match block {
        Some(TerraformBlock::Variable(v)) => {
            assert_eq!(v.name, "v");
            assert_eq!(v.default.as_deref(), Some("d"));
            assert_eq!(v.description, None);
        }
        other => panic!("expected a variable, got {:?}", other),
    }
}

#[test]
fn build_preserves_block_order() {
    let src = r#"
        module "m" { source = "s" }
        variable "v" { default = "d" }
        resource "r" "n" { a = "1" }
    "#;
    let (blocks, _) = parse(src);
    let entities = build(&blocks);
    assert_eq!(entities.len(), 3);
    let labels: Vec<&str> = entities.iter().map(|e| e.label.as_str()).collect();
    assert_eq!(labels, vec!["m", "v", "n"]);
}

#[test]
fn label_must_be_word_characters() {
    // A header whose label run is empty is not a block header.
    let src = r#"resource "" "web" { ami = "a" }"#;
    let (entities, warnings) = parse_terraform(src);
    assert!(entities.is_empty());
    assert!(warnings.is_empty());
}

#[test]
fn interpret_missing_resource_label() {
    let raw = RawBlock {
        kind: BlockKind::Resource,
        labels: vec!["only_type".to_string()],
        body: "ami = \"x\"".to_string(),
    };
    let (block, warning) = interpret(&raw);
    assert!(block.is_none());
    assert_eq!(warning, Some(ParseWarning::MissingLabel { kind: BlockKind::Resource }));
}

#[test]
fn interpret_unknown_kind() {
    let raw = RawBlock { kind: BlockKind::Unknown, labels: vec![], body: "a = \"1\"".to_string() };
    let (block, warning) = interpret(&raw);
    assert!(block.is_none());
    assert!(warning.is_none());
}

#[test]
fn extract_attributes_direct() {
    let attrs = extract_attributes("  ami=\"a\"  count = 3  name  =  \"web server\" ");
    assert_eq!(
        attrs,
        vec![("ami".to_string(), "a".to_string()), ("name".to_string(), "web server".to_string())]
    );
    assert_eq!(attr_lookup(&attrs, "name"), Some("web server".to_string()));
    assert_eq!(attr_lookup(&attrs, "count"), None);
}

#[test]
fn attribute_value_may_be_empty() {
    let src = r#"variable "v" { default = "" }"#;
    let (entities, warnings) = parse_terraform(src);
    assert!(warnings.is_empty());
    assert_eq!(field(&entities[0].children[0]), ("default", ""));
}

#[test]
fn resource_label_requires_space_after_keyword() {
    // `resource"a" "b"` lacks the whitespace the header grammar requires.
    let src = r#"resource"a" "b" { x = "1" }"#;
    let (entities, _) = parse_terraform(src);
    assert!(entities.is_empty());
}
