use erd::ast::Erd;
use erd::parser::parse_erd;
use erd::render::Renderer;

const SIMPLE_RENDER_ER: &str = "# Entities are declared between square brackets; the attribute lines\n\
# that follow an entity belong to it.\n\
[Person]\n\
name\n\
height\n\
weight\n\
`birth date`\n\
birth_place_id\n\
\n\
[`Birth Place`]\n\
id\n\
`birth city`\n\
`birth state`\n\
`birth country`\n\
\n\
# Each relationship has a cardinality on both sides.\n\
Person *--1 `Birth Place`\n";

#[test]
fn empty_graph() {
    let erd = Erd::default();
    let mut renderer = Renderer::new();
    renderer.render_erd(&erd);
    assert_eq!(
        renderer.rendered(),
        r#"graph {
    graph [
        rankdir=LR,
        splines=spline,
    ];
    node [
        label="\N",
        shape=plaintext,
    ];
    edge [
        color=gray50,
        minlen=2,
        style=dashed,
    ];
}
"#
    );
}

#[test]
fn title_and_entity() {
    let s = r#"
title {label: "Foo"}

[thing]
"#;
    let erd = parse_erd(s).unwrap();
    let mut renderer = Renderer::new();
    renderer.render_erd(&erd);
    assert_eq!(
        renderer.rendered(),
        r##"graph {
    graph [
        label=<<FONT POINT-SIZE="30">Foo</FONT>>,
        labeljust=l,
        labelloc=t,
        rankdir=LR,
        splines=spline,
    ];
    node [
        label="\N",
        shape=plaintext,
    ];
    edge [
        color=gray50,
        minlen=2,
        style=dashed,
    ];
    "thing" [
        label=<
<FONT FACE="Helvetica">
  <TABLE BORDER="0" CELLBORDER="1" CELLPADDING="4" CELLSPACING="0">
    <TR><TD><B><FONT POINT-SIZE="16">thing</FONT></B></TD></TR>
  </TABLE>
</FONT>
>];
}
"##
    );
}

#[test]
fn simple() {
    let erd = parse_erd(SIMPLE_RENDER_ER).unwrap();
    let mut renderer = Renderer::new();
    renderer.render_erd(&erd);
    assert_eq!(
        renderer.rendered(),
        r##"graph {
    graph [
        rankdir=LR,
        splines=spline,
    ];
    node [
        label="\N",
        shape=plaintext,
    ];
    edge [
        color=gray50,
        minlen=2,
        style=dashed,
    ];
    "Person" [
        label=<
<FONT FACE="Helvetica">
  <TABLE BORDER="0" CELLBORDER="1" CELLPADDING="4" CELLSPACING="0">
    <TR><TD><B><FONT POINT-SIZE="16">Person</FONT></B></TD></TR>
    <TR><TD ALIGN="LEFT">name</TD></TR>
    <TR><TD ALIGN="LEFT">height</TD></TR>
    <TR><TD ALIGN="LEFT">weight</TD></TR>
    <TR><TD ALIGN="LEFT">birth date</TD></TR>
    <TR><TD ALIGN="LEFT">birth_place_id</TD></TR>
  </TABLE>
</FONT>
>];
    "Birth Place" [
        label=<
<FONT FACE="Helvetica">
  <TABLE BORDER="0" CELLBORDER="1" CELLPADDING="4" CELLSPACING="0">
    <TR><TD><B><FONT POINT-SIZE="16">Birth Place</FONT></B></TD></TR>
    <TR><TD ALIGN="LEFT">id</TD></TR>
    <TR><TD ALIGN="LEFT">birth city</TD></TR>
    <TR><TD ALIGN="LEFT">birth state</TD></TR>
    <TR><TD ALIGN="LEFT">birth country</TD></TR>
  </TABLE>
</FONT>
>];

    "Person" -- "Birth Place" [ headlabel="1", taillabel="0..N" ];
}
"##
    );
}

#[test]
fn test_empty_graph_with_opts() {
    let mut renderer = Renderer::new();
    renderer.graph_header();
    renderer.graph_attributes(&vec![
        ("a".to_string(), "b".to_string()),
        ("c".to_string(), "\"d\"".to_string()),
    ]);
    renderer.graph_footer();
    assert_eq!(
        renderer.rendered(),
        r#"graph {
    graph [
        a=b,
        c="d",
    ];
}
"#
    );
}

#[test]
fn render_file() {
}
