use erd::ast::{Cardinality, ErdParseError, OptionGroup, RelationshipOptions};
use erd::options::OptionMap;
use erd::parser::parse_erd;
use erd::render::Renderer;

fn map_from(ps: &[(&str, &str)]) -> OptionMap {
    let mut m = OptionMap::new();
    for (k, v) in ps {
        m.insert(k.to_string(), v.to_string());
    }
    m
}

#[test]
fn blank_lines_and_comments_only() {
    let e = parse_erd("  \n\t\n# one comment\n   # another\n\n").unwrap();
    assert_eq!(e.entities.len(), 0);
    assert_eq!(e.relationships.len(), 0);
}

#[test]
fn marker_repetition_idempotent() {
    let e = parse_erd("[t]\n*foo").unwrap();
    assert_eq!(e.entities[0].attribs[0].field, "foo");
    assert!(e.entities[0].attribs[0].pk);
    assert!(!e.entities[0].attribs[0].fk);

    let e = parse_erd("[t]\n***foo").unwrap();
    assert!(e.entities[0].attribs[0].pk);
    assert!(!e.entities[0].attribs[0].fk);

    let e = parse_erd("[t]\n***++*foo").unwrap();
    assert_eq!(e.entities[0].attribs[0].field, "foo");
    assert!(e.entities[0].attribs[0].pk);
    assert!(e.entities[0].attribs[0].fk);
}

#[test]
fn quoting_equivalence_entity() {
    for src in ["[foo]", "[\"foo\"]", "['foo']", "[`foo`]"] {
        let e = parse_erd(src).unwrap();
        assert_eq!(e.entities.len(), 1);
        assert_eq!(e.entities[0].name, "foo");
    }
    let e = parse_erd("[`foo \"and\" bar`]").unwrap();
    assert_eq!(e.entities[0].name, "foo \"and\" bar");
}

#[test]
fn option_precedence_local_wins() {
    let e = parse_erd("entity {color: \"red\"}\n[e] {color: \"blue\"}").unwrap();
    assert_eq!(e.entities[0].options.color, Some("blue".to_string()));
}

#[test]
fn option_precedence_global_fills_in() {
    let e = parse_erd("entity {color: \"red\"}\n[e]").unwrap();
    assert_eq!(e.entities[0].options.color, Some("red".to_string()));
}

#[test]
fn option_precedence_directive_after_entity() {
    let e = parse_erd("[e]\nentity {color: \"red\"}").unwrap();
    assert_eq!(e.entities[0].options.color, Some("red".to_string()));
}

#[test]
fn relation_cardinalities_and_labels() {
    let e = parse_erd("[E1]\n[E2]\nE1 1--+ E2").unwrap();
    assert_eq!(e.relationships.len(), 1);
    let r = &e.relationships[0];
    assert_eq!(r.entity1, "E1");
    assert_eq!(r.entity2, "E2");
    assert_eq!(r.card1, Cardinality::One);
    assert_eq!(r.card2, Cardinality::OnePlus);
    let mut renderer = Renderer::new();
    renderer.render_erd(&e);
    assert!(renderer
        .rendered()
        .contains("\"E1\" -- \"E2\" [ headlabel=\"1..N\", taillabel=\"1\" ];"));
}

#[test]
fn cardinality_glyphs() {
    assert_eq!(Cardinality::ZeroOne.glyph(), "{0,1}");
    assert_eq!(Cardinality::One.glyph(), "1");
    assert_eq!(Cardinality::ZeroPlus.glyph(), "0..N");
    assert_eq!(Cardinality::OnePlus.glyph(), "1..N");
}

#[test]
fn attribute_without_entity_is_an_error() {
    match parse_erd("foo") {
        Err(ErdParseError::AttributeWithoutEntity) => {},
        other => panic!("expected a dangling-attribute error, got {:?}", other),
    }
    match parse_erd("*foo\n[e]") {
        Err(ErdParseError::AttributeWithoutEntity) => {},
        other => panic!("expected a dangling-attribute error, got {:?}", other),
    }
}

#[test]
fn unknown_option_key_is_an_error() {
    match parse_erd("[e] {bogus: \"x\"}") {
        Err(ErdParseError::UnknownOption { group, key }) => {
            assert_eq!(group, OptionGroup::Entity);
            assert_eq!(key, "bogus");
        },
        other => panic!("expected an unknown-option error, got {:?}", other),
    }
}

#[test]
fn unknown_option_message_names_the_key() {
    let err = parse_erd("[e] {bogus: \"x\"}").unwrap_err();
    assert_eq!(err.message(), "invalid entity option: bogus");
}

#[test]
fn bad_numeric_option_is_an_error() {
    match parse_erd("[e] {size: \"abc\"}") {
        Err(ErdParseError::InvalidNumber { group, key, value }) => {
            assert_eq!(group, OptionGroup::Entity);
            assert_eq!(key, "size");
            assert_eq!(value, "abc");
        },
        other => panic!("expected a bad-number error, got {:?}", other),
    }
    let err = parse_erd("[e] {size: \"abc\"}").unwrap_err();
    assert_eq!(err.message(), "could not parse entity option size as integer: abc");
}

#[test]
fn numeric_option_range() {
    let e = parse_erd("[e] {size: \"255\"}").unwrap();
    assert_eq!(e.entities[0].options.size, Some(255));
    assert!(matches!(
        parse_erd("[e] {size: \"256\"}"),
        Err(ErdParseError::InvalidNumber { .. })
    ));
    let e = parse_erd("[e] {size: \"+17\"}").unwrap();
    assert_eq!(e.entities[0].options.size, Some(17));
}

#[test]
fn syntax_error_reports_position() {
    match parse_erd("  [") {
        Err(ErdParseError::Syntax { pos }) => {
            assert_eq!(pos, 2);
            let err = ErdParseError::Syntax { pos };
            assert_eq!(err.message(), "syntax error in the input at character 2");
        },
        other => panic!("expected a syntax error, got {:?}", other),
    }
}

#[test]
fn title_options_resolve() {
    let e = parse_erd("title {label: \"T\", size: \"12\"}").unwrap();
    assert_eq!(e.title_options.label, Some("T".to_string()));
    assert_eq!(e.title_options.size, 12);

    let e = parse_erd("").unwrap();
    assert_eq!(e.title_options.label, None);
    assert_eq!(e.title_options.size, 30);
}

#[test]
fn directives_accumulate_last_write_wins() {
    let e = parse_erd("entity {color: \"red\"}\nentity {color: \"green\", font: \"F\"}\n[e]")
        .unwrap();
    assert_eq!(e.entities[0].options.color, Some("green".to_string()));
    assert_eq!(e.entities[0].options.font, "F");
}

#[test]
fn header_and_entity_groups_share_the_block() {
    let e = parse_erd("[e] {size: \"10\", bgcolor: \"azure\"}").unwrap();
    assert_eq!(e.entities[0].header_options.size, 10);
    assert_eq!(e.entities[0].options.size, Some(10));
    assert_eq!(e.entities[0].options.background_color, Some("azure".to_string()));
    assert_eq!(
        e.entities[0].header_options.background_color,
        Some("azure".to_string())
    );
}

#[test]
fn attributes_attach_in_order_to_latest_entity() {
    let e = parse_erd("[a]\nx\ny\n[b]\nz").unwrap();
    assert_eq!(e.entities.len(), 2);
    assert_eq!(e.entities[0].attribs.len(), 2);
    assert_eq!(e.entities[0].attribs[0].field, "x");
    assert_eq!(e.entities[0].attribs[1].field, "y");
    assert_eq!(e.entities[1].attribs.len(), 1);
    assert_eq!(e.entities[1].attribs[0].field, "z");
}

#[test]
fn relation_endpoints_need_not_exist() {
    let e = parse_erd("x 1--1 y").unwrap();
    assert_eq!(e.entities.len(), 0);
    assert_eq!(e.relationships.len(), 1);
    assert_eq!(e.relationships[0].entity1, "x");
    assert_eq!(e.relationships[0].entity2, "y");
}

#[test]
fn duplicate_entities_are_kept() {
    let e = parse_erd("[a]\n[a]").unwrap();
    assert_eq!(e.entities.len(), 2);
}

#[test]
fn attribute_markup_in_rendered_rows() {
    let e = parse_erd("[t]\n*pk_field\n+fk_field\n*+both {label: \"l\"}").unwrap();
    let mut renderer = Renderer::new();
    renderer.render_erd(&e);
    let out = renderer.rendered();
    assert!(out.contains("<TD ALIGN=\"LEFT\"><U>pk_field</U></TD>"));
    assert!(out.contains("<TD ALIGN=\"LEFT\"><I>fk_field</I></TD>"));
    assert!(out.contains("<TD ALIGN=\"LEFT\"><I><U>both</U></I> [l]</TD>"));
}

#[test]
fn relationship_directive_applies_to_relations() {
    let e = parse_erd("[a]\n[b]\nrelationship {size: \"2\"}\na 1--1 b {color: \"red\"}").unwrap();
    assert_eq!(e.relationships.len(), 1);
    let expected =
        RelationshipOptions::from_hashmap(&map_from(&[("color", "red"), ("size", "2")])).unwrap();
    assert_eq!(e.relationships[0].options, expected);
    let mut renderer = Renderer::new();
    renderer.render_erd(&e);
    assert!(renderer.rendered().contains("\"a\" -- \"b\""));
}

#[test]
fn relationship_local_option_wins_over_directive() {
    let e = parse_erd("relationship {color: \"blue\"}\na 1--1 b {color: \"red\"}").unwrap();
    let expected = RelationshipOptions::from_hashmap(&map_from(&[("color", "red")])).unwrap();
    assert_eq!(e.relationships[0].options, expected);
}

#[test]
fn empty_option_value_is_rejected() {
    assert!(matches!(parse_erd("[e] {color: \"\"}"), Err(ErdParseError::Syntax { .. })));
}
