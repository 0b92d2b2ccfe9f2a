use erd::ast::{
    Attribute, AttributeOptions, Entity, EntityOptions, GlobalOptionType, HeaderOptions, Relation,
    RelationshipOptions, Cardinality,
};
use erd::options::OptionMap;
use erd::parser::{
    attribute, blank_or_comment, comment, entity, global_option, ident, ident_no_space,
    ident_quoted, option, options, parse_erd, relation, Step,
};

fn chars(s: &str) -> Vec<char> {
    s.chars().collect()
}

fn pairs(ps: &[(&str, &str)]) -> Vec<(String, String)> {
    ps.iter().map(|(k, v)| (k.to_string(), v.to_string())).collect()
}

fn map_of(ps: &[(&str, &str)]) -> OptionMap {
    let mut m = OptionMap::new();
    for (k, v) in ps {
        m.insert(k.to_string(), v.to_string());
    }
    m
}

const SIMPLE_ER: &str = "# Entities are declared between square brackets; the attribute lines\n\
# that follow an entity belong to it.\n\
[Person]\n\
name\n\
height\n\
weight\n\
`birth date`\n\
birth_place_id\n\
\n\
[`Birth Place`]\n\
id\n\
`birth city`\n\
`birth state`\n\
`birth country`\n\
\n\
# Each relationship has a cardinality on both sides.\n\
Person *--1 `Birth Place`\n";

const NFLDB_ER: &str = r##"title {label: "nfldb Entity-Relationship diagram (condensed)", size: "20"}

[player] {bgcolor: "#d0e0d0"}
  *player_id {label: "varchar, not null"}
  full_name {label: "varchar, null"}
  team {label: "varchar, not null"}
  position {label: "player_pos, not null"}
  status {label: "player_status, not null"}

[team] {bgcolor: "#d0e0d0"}
  *team_id {label: "varchar, not null"}
  city {label: "varchar, not null"}
  name {label: "varchar, not null"}

[game] {bgcolor: "#ececfc"}
  *gsis_id {label: "gameid, not null"}
  start_time {label: "utctime, not null"}
  week {label: "usmallint, not null"}
  season_year {label: "usmallint, not null"}
  season_type {label: "season_phase, not null"}
  finished {label: "boolean, not null"}

[drive] {bgcolor: "#ececfc"}
  *+gsis_id {label: "gameid, not null"}
  *drive_id {label: "usmallint, not null"}
  start_field {label: "field_pos, null"}
  end_field {label: "field_pos, null"}
  pos_team {label: "varchar, not null"}

[play] {bgcolor: "#ececfc"}
  *+gsis_id {label: "gameid, not null"}
  *+drive_id {label: "usmallint, not null"}
  *play_id {label: "usmallint, not null"}
  time {label: "game_time, not null"}
  yardline {label: "field_pos, null"}

[play_player] {bgcolor: "#ececfc"}
  *+gsis_id {label: "gameid, not null"}
  *+drive_id {label: "usmallint, not null"}
  *+play_id {label: "usmallint, not null"}
  *+player_id {label: "varchar, not null"}
  team {label: "varchar, not null"}

[meta] {bgcolor: "#fcecec"}
  version {label: "smallint, null"}
  season_type {label: "season_phase, null"}
  week {label: "usmallint, null"}

# Relationships

player      *--1 team
game        *--1 team {label: "home"}
game        *--1 team {label: "away"}
drive       *--1 game
drive       *--1 team
play        *--1 game
play        *--1 drive
play        *--1 team
play_player *--1 game
play_player *--1 drive
play_player *--1 play
play_player *--1 player
play_player *--1 team
"##;

#[test]
fn test_parse_empty() {
    let s = "";
    let e = parse_erd(s).unwrap();
    assert_eq!(e.entities.len(), 0);
    assert_eq!(e.relationships.len(), 0);
}

#[test]
fn test_parse_single_comment() {
    let s = "# Comment.";
    let e = parse_erd(s).unwrap();
    assert_eq!(e.entities.len(), 0);
    assert_eq!(e.relationships.len(), 0);
}

#[test]
fn test_parse_simple() {
    let e = parse_erd(SIMPLE_ER).unwrap();
    assert_eq!(e.entities.len(), 2);
    assert_eq!(e.relationships.len(), 1);
}

#[test]
fn test_parse_nfldb() {
    let e = parse_erd(NFLDB_ER).unwrap();
    assert_eq!(e.entities.len(), 7);
    assert_eq!(e.relationships.len(), 13);
}

#[test]
fn test_blank_or_comment_empty() {
    let s = chars("");
    blank_or_comment(&s, 0);
}

#[test]
fn test_blank_or_comment_no_eol() {
    let s = chars("# comment");
    blank_or_comment(&s, 0);
}

#[test]
fn test_blank_or_comment_eol() {
    let s = chars("# comment\n");
    blank_or_comment(&s, 0);
}

#[test]
fn test_blank_or_comment_whitespace() {
    let s = chars("  # comment \n  ");
    blank_or_comment(&s, 0);
}

#[test]
fn test_comments() {
    let s = chars("# foo\r\n");
    let (text, rest) = comment(&s, 0).unwrap();
    assert_eq!(text, " foo");
    assert_eq!(rest, s.len());
}

#[test]
fn test_entity_simple() {
    let s = chars("[foo]");
    match entity(&s, 0) {
        Step::Found(e, i) => {
            assert_eq!(i, s.len());
            assert_eq!(e, Entity::new("foo"));
        },
        _ => panic!("entity did not match"),
    }
}

#[test]
fn test_entity_quoted() {
    let s = chars("[\"foo bar\"]");
    match entity(&s, 0) {
        Step::Found(e, i) => {
            assert_eq!(i, s.len());
            assert_eq!(e, Entity::new("foo bar"));
        },
        _ => panic!("entity did not match"),
    }
}

#[test]
fn test_entity_with_option() {
    let s = chars("[foo] {color: \"#1234AA\"}");
    match entity(&s, 0) {
        Step::Found(e, i) => {
            assert_eq!(i, s.len());
            let o = map_of(&[("color", "#1234AA")]);
            let mut expected = Entity::new("foo");
            expected.options = EntityOptions::from_hashmap(&o).unwrap();
            expected.header_options = HeaderOptions::from_hashmap(&o).unwrap();
            expected.local_options = o;
            assert_eq!(e, expected);
        },
        _ => panic!("entity did not match"),
    }
}

#[test]
fn test_entity_quoted_with_multiple_options() {
    let s = chars("[`foo - bar`] {size: \"10\", font: \"Equity\"}");
    match entity(&s, 0) {
        Step::Found(e, i) => {
            assert_eq!(i, s.len());
            let o = map_of(&[("size", "10"), ("font", "Equity")]);
            let mut expected = Entity::new("foo - bar");
            expected.options = EntityOptions::from_hashmap(&o).unwrap();
            expected.header_options = HeaderOptions::from_hashmap(&o).unwrap();
            expected.local_options = o;
            assert_eq!(e, expected);
        },
        _ => panic!("entity did not match"),
    }
}

#[test]
fn test_attribute_simple() {
    let s = chars("foo");
    match attribute(&s, 0) {
        Step::Found(attr, i) => {
            assert_eq!(attr, Attribute::with_field("foo"));
            assert_eq!(i, s.len());
        },
        _ => panic!("attribute did not match"),
    }
}

#[test]
fn test_attribute_pk() {
    let s = chars("*foo");
    match attribute(&s, 0) {
        Step::Found(attr, i) => {
            assert_eq!(attr, Attribute { field: "foo".to_owned(), pk: true, ..Default::default() });
            assert_eq!(i, s.len());
        },
        _ => panic!("attribute did not match"),
    }
}

#[test]
fn test_attribute_multiple_pk() {
    let s = chars("***foo");
    match attribute(&s, 0) {
        Step::Found(attr, i) => {
            assert_eq!(attr, Attribute { field: "foo".to_owned(), pk: true, ..Default::default() });
            assert_eq!(i, s.len());
        },
        _ => panic!("attribute did not match"),
    }
}

#[test]
fn test_attribute_fk() {
    let s = chars("+foo");
    match attribute(&s, 0) {
        Step::Found(attr, i) => {
            assert_eq!(attr, Attribute { field: "foo".to_owned(), fk: true, ..Default::default() });
            assert_eq!(i, s.len());
        },
        _ => panic!("attribute did not match"),
    }
}

#[test]
fn test_attribute_pk_fk() {
    let s = chars("+*foo");
    match attribute(&s, 0) {
        Step::Found(attr, i) => {
            assert_eq!(
                attr,
                Attribute { field: "foo".to_owned(), pk: true, fk: true, ..Default::default() }
            );
            assert_eq!(i, s.len());
        },
        _ => panic!("attribute did not match"),
    }
}

#[test]
fn test_attribute_multiple_pk_fk() {
    let s = chars("***++*foo");
    match attribute(&s, 0) {
        Step::Found(attr, i) => {
            assert_eq!(
                attr,
                Attribute { field: "foo".to_owned(), pk: true, fk: true, ..Default::default() }
            );
            assert_eq!(i, s.len());
        },
        _ => panic!("attribute did not match"),
    }
}

#[test]
fn test_attribute_whitespace() {
    let s = chars("  \t foo");
    match attribute(&s, 0) {
        Step::Found(attr, i) => {
            assert_eq!(attr, Attribute { field: "foo".to_owned(), ..Default::default() });
            assert_eq!(i, s.len());
        },
        _ => panic!("attribute did not match"),
    }
}

#[test]
fn test_attribute_with_options() {
    let s = chars("*foo {label:\"b\", border : \"3\"}");
    match attribute(&s, 0) {
        Step::Found(attr, i) => {
            assert_eq!(
                attr,
                Attribute {
                    field: "foo".to_owned(),
                    pk: true,
                    fk: false,
                    options: AttributeOptions::from_hashmap(
                        &map_of(&[("label", "b"), ("border", "3")])
                    )
                    .unwrap(),
                }
            );
            assert_eq!(i, s.len());
        },
        _ => panic!("attribute did not match"),
    }
}

#[test]
fn test_attribute_with_multiline_options() {
    let s = chars(
        r#"*foo {
            label:"b",
            border : "3"
        }"#,
    );
    match attribute(&s, 0) {
        Step::Found(attr, i) => {
            assert_eq!(
                attr,
                Attribute {
                    field: "foo".to_owned(),
                    pk: true,
                    fk: false,
                    options: AttributeOptions::from_hashmap(
                        &map_of(&[("label", "b"), ("border", "3")])
                    )
                    .unwrap(),
                }
            );
            assert_eq!(i, s.len());
        },
        _ => panic!("attribute did not match"),
    }
}

#[test]
fn test_attribute_with_multiline_options_trailing_comments() {
    let s = chars(
        r#"*foo {
            label:"b",
            border : "3", # comment
        }"#,
    );
    match attribute(&s, 0) {
        Step::Found(attr, i) => {
            assert_eq!(
                attr,
                Attribute {
                    field: "foo".to_owned(),
                    pk: true,
                    fk: false,
                    options: AttributeOptions::from_hashmap(
                        &map_of(&[("label", "b"), ("border", "3")])
                    )
                    .unwrap(),
                }
            );
            assert_eq!(i, s.len());
        },
        _ => panic!("attribute did not match"),
    }
}

#[test]
fn test_relation_one_oneplus() {
    let s = chars("E1 1--+ E2");
    match relation(&s, 0) {
        Step::Found(rel, i) => {
            assert_eq!(i, s.len());
            assert_eq!(
                rel,
                Relation {
                    entity1: "E1".to_owned(),
                    entity2: "E2".to_owned(),
                    card1: Cardinality::One,
                    card2: Cardinality::OnePlus,
                    options: RelationshipOptions::default(),
                    local_options: OptionMap::new(),
                }
            );
        },
        _ => panic!("relation did not match"),
    }
}

#[test]
fn test_relation_zeroplus_zeroone() {
    let s = chars("`Entity 1` *--? 'Entity 2'");
    match relation(&s, 0) {
        Step::Found(rel, i) => {
            assert_eq!(i, s.len());
            assert_eq!(
                rel,
                Relation {
                    entity1: "Entity 1".to_owned(),
                    entity2: "Entity 2".to_owned(),
                    card1: Cardinality::ZeroPlus,
                    card2: Cardinality::ZeroOne,
                    options: RelationshipOptions::default(),
                    local_options: OptionMap::new(),
                }
            );
        },
        _ => panic!("relation did not match"),
    }
}

#[test]
fn test_relation_with_options() {
    let s = chars(r##"E1 1--1 E2 {color:"#000000", size: "1"}"##);
    match relation(&s, 0) {
        Step::Found(rel, i) => {
            assert_eq!(i, s.len());
            let o = map_of(&[("color", "#000000"), ("size", "1")]);
            assert_eq!(
                rel,
                Relation {
                    entity1: "E1".to_owned(),
                    entity2: "E2".to_owned(),
                    card1: Cardinality::One,
                    card2: Cardinality::One,
                    options: RelationshipOptions::from_hashmap(&o).unwrap(),
                    local_options: o,
                }
            );
        },
        _ => panic!("relation did not match"),
    }
}

#[test]
fn test_ident_no_space() {
    let s = chars("foo");
    let (id, i) = ident_no_space(&s, 0).unwrap();
    assert_eq!(i, s.len());
    assert_eq!(id, "foo");

    let s = chars("foo_BAR");
    let (id, i) = ident_no_space(&s, 0).unwrap();
    assert_eq!(i, s.len());
    assert_eq!(id, "foo_BAR");
}

#[test]
fn test_ident_quoted() {
    let s = chars("\"foo\"");
    let (id, i) = ident_quoted(&s, 0).unwrap();
    assert_eq!(i, s.len());
    assert_eq!(id, "foo");

    let s = chars("'foo'");
    let (id, i) = ident_quoted(&s, 0).unwrap();
    assert_eq!(i, s.len());
    assert_eq!(id, "foo");

    let s = chars("`foo`");
    let (id, i) = ident_quoted(&s, 0).unwrap();
    assert_eq!(i, s.len());
    assert_eq!(id, "foo");

    let s = chars("\"foo_BAR\"");
    let (id, i) = ident_quoted(&s, 0).unwrap();
    assert_eq!(i, s.len());
    assert_eq!(id, "foo_BAR");

    let s = chars("\"foo - 'foo@bar' BAR\"");
    let (id, i) = ident_quoted(&s, 0).unwrap();
    assert_eq!(i, s.len());
    assert_eq!(id, "foo - 'foo@bar' BAR");
}

#[test]
fn test_ident() {
    let s = chars("\"foo\"");
    let (id, i) = ident(&s, 0).unwrap();
    assert_eq!(i, s.len());
    assert_eq!(id, "foo");

    let s = chars("'foo'");
    let (id, i) = ident(&s, 0).unwrap();
    assert_eq!(i, s.len());
    assert_eq!(id, "foo");

    let s = chars("`foo`");
    let (id, i) = ident(&s, 0).unwrap();
    assert_eq!(i, s.len());
    assert_eq!(id, "foo");

    let s = chars("\"foo_BAR\"");
    let (id, i) = ident(&s, 0).unwrap();
    assert_eq!(i, s.len());
    assert_eq!(id, "foo_BAR");

    let s = chars("\"foo - 'foo@bar' BAR\"");
    let (id, i) = ident(&s, 0).unwrap();
    assert_eq!(i, s.len());
    assert_eq!(id, "foo - 'foo@bar' BAR");

    let s = chars(" foo ");
    let (id, i) = ident(&s, 0).unwrap();
    assert_eq!(i, s.len());
    assert_eq!(id, "foo");

    let s = chars(" \t'foo'\t ");
    let (id, i) = ident(&s, 0).unwrap();
    assert_eq!(i, s.len());
    assert_eq!(id, "foo");

    let s = chars(" \t `foo \"and\" bar` \t ");
    let (id, i) = ident(&s, 0).unwrap();
    assert_eq!(i, s.len());
    assert_eq!(id, "foo \"and\" bar");
}

#[test]
fn test_option() {
    let s = chars(r#"foo: "bar""#);
    let ((key, value), i) = option(&s, 0).unwrap();
    assert_eq!(i, s.len());
    assert_eq!((key.as_str(), value.as_str()), ("foo", "bar"));

    let s = chars(r#"foo:"A longer value?""#);
    let ((key, value), i) = option(&s, 0).unwrap();
    assert_eq!(i, s.len());
    assert_eq!((key.as_str(), value.as_str()), ("foo", "A longer value?"));
}

#[test]
fn test_options() {
    let s = chars(r#"{k:"v"}"#);
    let (opts, i) = options(&s, 0).unwrap();
    assert_eq!(i, s.len());
    assert_eq!(opts, pairs(&[("k", "v")]));

    let s = chars(r#"{ k:"v" }"#);
    let (opts, i) = options(&s, 0).unwrap();
    assert_eq!(i, s.len());
    assert_eq!(opts, pairs(&[("k", "v")]));

    let s = chars(r#"{k1:"v1",k2:"v2"}"#);
    let (opts, i) = options(&s, 0).unwrap();
    assert_eq!(i, s.len());
    assert_eq!(opts, pairs(&[("k1", "v1"), ("k2", "v2")]));

    let s = chars(r#"{k:"v1",k:"v2",k:"v3"}"#);
    let (opts, i) = options(&s, 0).unwrap();
    assert_eq!(i, s.len());
    assert_eq!(opts, pairs(&[("k", "v1"), ("k", "v2"), ("k", "v3")]));

    let s = chars(r#"{  k1:"v1", k2:"v2" ,  k3:"v3"}"#);
    let (opts, i) = options(&s, 0).unwrap();
    assert_eq!(i, s.len());
    assert_eq!(opts, pairs(&[("k1", "v1"), ("k2", "v2"), ("k3", "v3")]));
}

#[test]
fn test_options_trailing_comma() {
    let s = chars(r#"{k1:"v1",}"#);
    let (opts, i) = options(&s, 0).unwrap();
    assert_eq!(i, s.len());
    assert_eq!(opts, pairs(&[("k1", "v1")]));

    let s = chars(r#"{k1:"v1", }"#);
    let (opts, i) = options(&s, 0).unwrap();
    assert_eq!(i, s.len());
    assert_eq!(opts, pairs(&[("k1", "v1")]));

    let s = chars(r#"{k1:"v1" , }"#);
    let (opts, i) = options(&s, 0).unwrap();
    assert_eq!(i, s.len());
    assert_eq!(opts, pairs(&[("k1", "v1")]));
}

#[test]
fn test_options_multiline() {
    let s = chars(
        r##"{
          label: "string",
          color: "#3366ff", # i like bright blue
        }"##,
    );
    let (opts, i) = options(&s, 0).unwrap();
    assert_eq!(i, s.len());
    assert_eq!(opts, pairs(&[("label", "string"), ("color", "#3366ff")]));
}

#[test]
fn test_global_options() {
    let s = chars("title {}");
    match global_option(&s, 0) {
        Step::Found(go, i) => {
            assert_eq!(i, s.len());
            assert_eq!(go.option_type, GlobalOptionType::Title);
            assert!(go.options.is_empty());
        },
        _ => panic!("global option did not match"),
    }

    let s = chars(r#"header {k: "v"}"#);
    match global_option(&s, 0) {
        Step::Found(go, i) => {
            assert_eq!(i, s.len());
            assert_eq!(go.option_type, GlobalOptionType::Header);
            assert_eq!(go.options.len(), 1);
            assert_eq!(go.options.get("k"), Some("v".to_string()));
        },
        _ => panic!("global option did not match"),
    }

    let s = chars(r#"entity {k1: "v1", k2: "v2"}"#);
    match global_option(&s, 0) {
        Step::Found(go, i) => {
            assert_eq!(i, s.len());
            assert_eq!(go.option_type, GlobalOptionType::Entity);
            assert_eq!(go.options.len(), 2);
            assert_eq!(go.options.get("k1"), Some("v1".to_string()));
            assert_eq!(go.options.get("k2"), Some("v2".to_string()));
        },
        _ => panic!("global option did not match"),
    }

    let s = chars(r#"relationship{ k1:"X" , k2 :   "v2", k1:"v1" }"#);
    match global_option(&s, 0) {
        Step::Found(go, i) => {
            assert_eq!(i, s.len());
            assert_eq!(go.option_type, GlobalOptionType::Relationship);
            assert_eq!(go.options.len(), 2);
            assert_eq!(go.options.get("k1"), Some("v1".to_string()));
            assert_eq!(go.options.get("k2"), Some("v2".to_string()));
        },
        _ => panic!("global option did not match"),
    }

    let s = chars(r#"something {}"#);
    assert!(matches!(global_option(&s, 0), Step::NoMatch));
}
