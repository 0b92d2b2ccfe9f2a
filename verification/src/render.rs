//! The renderer: walks a resolved diagram and emits the DOT-like graph
//! description, entity tables as HTML-like labels and one edge per
//! relation, into an output buffer.

use vstd::prelude::*;

use crate::ast::{
    card_glyph, Attribute, AttributeV, Entity, EntityV, Erd, ErdV, Relation, RelationV,
    TitleOptionsV,
};
use crate::options::SpecPair;
use crate::text;
use crate::text::dec_chars;

verus! {

/// The rendered form of a tag's attribute list: one ` k="v"` per pair.
pub open spec fn tag_attrs_chars(attrs: Seq<SpecPair>) -> Seq<char>
    decreases attrs.len(),
{
    if attrs.len() == 0 {
        Seq::empty()
    } else {
        tag_attrs_chars(attrs.drop_last()) + " "@ + attrs.last().0 + "=\""@ + attrs.last().1
            + "\""@
    }
}

/// An opening tag with its attributes.
pub open spec fn open_tag_chars(tag: Seq<char>, attrs: Seq<SpecPair>) -> Seq<char> {
    "<"@ + tag + tag_attrs_chars(attrs) + ">"@
}

/// A closing tag.
pub open spec fn close_tag_chars(tag: Seq<char>) -> Seq<char> {
    "</"@ + tag + ">"@
}

/// The body lines of a default-attribute block: one `        k=v,` per pair.
pub open spec fn attr_lines_chars(opts: Seq<SpecPair>) -> Seq<char>
    decreases opts.len(),
{
    if opts.len() == 0 {
        Seq::empty()
    } else {
        attr_lines_chars(opts.drop_last()) + "        "@ + opts.last().0 + "="@ + opts.last().1
            + ",\n"@
    }
}

/// A default-attribute block: `name [` then the pair lines then `];`.
pub open spec fn attributes_chars(name: Seq<char>, opts: Seq<SpecPair>) -> Seq<char> {
    "    "@ + name + " [\n"@ + attr_lines_chars(opts) + "    ];\n"@
}

/// An attribute's field with its key markup: primary keys underlined,
/// foreign keys italicized, both combined italic and underlined.
pub open spec fn field_markup_chars(a: AttributeV) -> Seq<char> {
    if a.pk && a.fk {
        "<I><U>"@ + a.field + "</U></I>"@
    } else if a.pk {
        "<U>"@ + a.field + "</U>"@
    } else if a.fk {
        "<I>"@ + a.field + "</I>"@
    } else {
        a.field
    }
}

/// The marked-up field, with ` [label]` appended when a label override is
/// set.
pub open spec fn field_label_chars(a: AttributeV) -> Seq<char> {
    match a.options.label {
        Some(l) => field_markup_chars(a) + " ["@ + l + "]"@,
        None => field_markup_chars(a),
    }
}

/// One attribute row of an entity's table.
pub open spec fn attr_row_chars(a: AttributeV) -> Seq<char> {
    "    "@ + open_tag_chars("TR"@, Seq::empty()) + open_tag_chars(
        "TD"@,
        seq![("ALIGN"@, "LEFT"@)],
    ) + field_label_chars(a) + close_tag_chars("TD"@) + close_tag_chars("TR"@) + "\n"@
}

/// All attribute rows, in declaration order.
pub open spec fn attr_rows_chars(attrs: Seq<AttributeV>) -> Seq<char>
    decreases attrs.len(),
{
    if attrs.len() == 0 {
        Seq::empty()
    } else {
        attr_rows_chars(attrs.drop_last()) + attr_row_chars(attrs.last())
    }
}

/// The table-level attributes of an entity: borders, padding and spacing
/// from the header options, and the entity's background color when set.
pub open spec fn table_attrs_list(e: EntityV) -> Seq<SpecPair> {
    seq![
        ("BORDER"@, dec_chars(e.header_options.border as int)),
        ("CELLBORDER"@, dec_chars(e.header_options.cell_border as int)),
        ("CELLPADDING"@, dec_chars(e.header_options.cell_padding as int)),
        ("CELLSPACING"@, dec_chars(e.header_options.cell_spacing as int)),
    ] + (match e.options.background_color {
        Some(c) => seq![("BGCOLOR"@, c)],
        None => Seq::<SpecPair>::empty(),
    })
}

/// One entity's node: a quoted node name whose label is an HTML-like
/// table, the header row showing the entity name at its header font size,
/// then one row per attribute.
pub open spec fn entity_chars(e: EntityV) -> Seq<char> {
    "    \""@ + e.name + "\" [\n        label=<\n"@ + open_tag_chars(
        "FONT"@,
        seq![("FACE"@, e.header_options.font)],
    ) + "\n  "@ + open_tag_chars("TABLE"@, table_attrs_list(e))
        + "\n    <TR><TD><B><FONT POINT-SIZE=\""@ + dec_chars(e.header_options.size as int)
        + "\">"@ + e.name + "</FONT></B></TD></TR>\n"@ + attr_rows_chars(e.attribs)
        + "  </TABLE>\n</FONT>\n>];\n"@
}

/// All entity nodes, in declaration order.
pub open spec fn entities_chars(es: Seq<EntityV>) -> Seq<char>
    decreases es.len(),
{
    if es.len() == 0 {
        Seq::empty()
    } else {
        entities_chars(es.drop_last()) + entity_chars(es.last())
    }
}

/// One relation's edge: both entity names quoted, the head label showing
/// the second cardinality's glyph and the tail label the first's.
pub open spec fn relation_chars(r: RelationV) -> Seq<char> {
    "    \""@ + r.entity1 + "\" -- \""@ + r.entity2 + "\" [ headlabel=\""@ + card_glyph(r.card2)
        + "\", taillabel=\""@ + card_glyph(r.card1) + "\" ];\n"@
}

/// All edges, in declaration order.
pub open spec fn relations_chars(rs: Seq<RelationV>) -> Seq<char>
    decreases rs.len(),
{
    if rs.len() == 0 {
        Seq::empty()
    } else {
        relations_chars(rs.drop_last()) + relation_chars(rs.last())
    }
}

/// The graph-level attributes: the title label, justification and
/// location when a title label is set, then direction and spline style.
pub open spec fn graph_attrs_list(t: TitleOptionsV) -> Seq<SpecPair> {
    (match t.label {
        Some(l) => seq![
            (
                "label"@,
                "<<FONT POINT-SIZE=\""@ + dec_chars(t.size as int) + "\">"@ + l + "</FONT>>"@,
            ),
            ("labeljust"@, "l"@),
            ("labelloc"@, "t"@),
        ],
        None => Seq::<SpecPair>::empty(),
    }) + seq![("rankdir"@, "LR"@), ("splines"@, "spline"@)]
}

/// The node-level default attributes.
pub open spec fn node_attrs_list() -> Seq<SpecPair> {
    seq![("label"@, "\"\\N\""@), ("shape"@, "plaintext"@)]
}

/// The edge-level default attributes.
pub open spec fn edge_attrs_list() -> Seq<SpecPair> {
    seq![("color"@, "gray50"@), ("minlen"@, "2"@), ("style"@, "dashed"@)]
}

/// A whole rendered diagram: header, the three default blocks, the entity
/// nodes, the edges (after one separating blank line, when there are
/// any), and the footer.
pub open spec fn render_erd_chars(e: ErdV) -> Seq<char> {
    "graph {\n"@ + attributes_chars("graph"@, graph_attrs_list(e.title_options))
        + attributes_chars("node"@, node_attrs_list()) + attributes_chars(
        "edge"@,
        edge_attrs_list(),
    ) + entities_chars(e.entities) + (if e.relationships.len() > 0 {
        "\n"@ + relations_chars(e.relationships)
    } else {
        Seq::<char>::empty()
    }) + "}\n"@
}

/// Builds the output text of a resolved diagram in an internal buffer.
pub struct Renderer {
    out: String,
}

impl View for Renderer {
    type V = Seq<char>;

    closed spec fn view(&self) -> Seq<char> {
        self.out@
    }
}

/// The decimal rendering of a small number, as an owned string.
fn u8_string(n: u8) -> (r: String)
    ensures
        r@ == dec_chars(n as int),
{
    let mut s = String::new();
    text::append_decimal(&mut s, n as u64);
    s
}

impl Renderer {
    /// A renderer with an empty output buffer.
    pub fn new() -> (r: Renderer)
        ensures
            r@ == Seq::<char>::empty(),
    {
        Renderer { out: String::new() }
    }

    /// The text rendered so far.
    pub fn rendered(&self) -> (r: &str)
        ensures
            r@ == self@,
    {
        self.out.as_str()
    }

    /// Writes the opening line of the graph.
    pub fn graph_header(&mut self)
        ensures
            final(self)@ == old(self)@ + "graph {\n"@,
    {
        self.out.append("graph {\n");
    }

    /// Writes the closing line of the graph.
    pub fn graph_footer(&mut self)
        ensures
            final(self)@ == old(self)@ + "}\n"@,
    {
        self.out.append("}\n");
    }

    /// Writes an opening tag without attributes.
    pub fn open_tag(&mut self, tag: &str)
        ensures
            final(self)@ == old(self)@ + open_tag_chars(tag@, Seq::empty()),
    {
        self.out.append("<");
        self.out.append(tag);
        self.out.append(">");
        proof {
            assert(self.out@ =~= old(self).out@ + open_tag_chars(tag@, Seq::empty()));
        }
    }

    /// Writes an opening tag with a `k="v"` attribute list.
    #[verifier::loop_isolation(false)]
    pub fn open_tag_attrs(&mut self, tag: &str, attrs: &Vec<(String, String)>)
        ensures
            final(self)@ == old(self)@ + open_tag_chars(
                tag@,
                crate::parser::raw_pairs_view(attrs@),
            ),
    {
        let ghost av = crate::parser::raw_pairs_view(attrs@);
        self.out.append("<");
        self.out.append(tag);
        let n = attrs.len();
        let mut i: usize = 0;
        proof {
            assert(tag_attrs_chars(av.take(0)) =~= Seq::<char>::empty());
            assert(self.out@ =~= old(self).out@ + "<"@ + tag@ + tag_attrs_chars(av.take(0)));
        }
        while i < n
            invariant
                i <= n,
                n == attrs@.len(),
                self.out@ == old(self).out@ + "<"@ + tag@ + tag_attrs_chars(av.take(i as int)),
            decreases n - i,
        {
            proof {
                assert(av.take(i as int + 1).drop_last() =~= av.take(i as int));
                assert(av.take(i as int + 1).last() == av[i as int]);
            }
            self.out.append(" ");
            let p = &attrs[i];
            self.out.append(p.0.as_str());
            self.out.append("=\"");
            self.out.append(p.1.as_str());
            self.out.append("\"");
            proof {
                assert(self.out@ =~= old(self).out@ + "<"@ + tag@ + tag_attrs_chars(
                    av.take(i as int + 1),
                ));
            }
            i = i + 1;
        }
        self.out.append(">");
        proof {
            assert(av.take(n as int) =~= av);
            assert(self.out@ =~= old(self).out@ + open_tag_chars(tag@, av));
        }
    }

    /// Writes a closing tag.
    pub fn close_tag(&mut self, tag: &str)
        ensures
            final(self)@ == old(self)@ + close_tag_chars(tag@),
    {
        self.out.append("</");
        self.out.append(tag);
        self.out.append(">");
        proof {
            assert(self.out@ =~= old(self).out@ + close_tag_chars(tag@));
        }
    }

    /// Writes one default-attribute block.
    #[verifier::loop_isolation(false)]
    pub fn attributes(&mut self, name: &str, opts: &Vec<(String, String)>)
        ensures
            final(self)@ == old(self)@ + attributes_chars(
                name@,
                crate::parser::raw_pairs_view(opts@),
            ),
    {
        let ghost ov = crate::parser::raw_pairs_view(opts@);
        self.out.append("    ");
        self.out.append(name);
        self.out.append(" [\n");
        let n = opts.len();
        let mut i: usize = 0;
        proof {
            assert(attr_lines_chars(ov.take(0)) =~= Seq::<char>::empty());
            assert(self.out@ =~= old(self).out@ + "    "@ + name@ + " [\n"@ + attr_lines_chars(
                ov.take(0),
            ));
        }
        while i < n
            invariant
                i <= n,
                n == opts@.len(),
                self.out@ == old(self).out@ + "    "@ + name@ + " [\n"@ + attr_lines_chars(
                    ov.take(i as int),
                ),
            decreases n - i,
        {
            proof {
                assert(ov.take(i as int + 1).drop_last() =~= ov.take(i as int));
                assert(ov.take(i as int + 1).last() == ov[i as int]);
            }
            self.out.append("        ");
            let p = &opts[i];
            self.out.append(p.0.as_str());
            self.out.append("=");
            self.out.append(p.1.as_str());
            self.out.append(",\n");
            proof {
                assert(self.out@ =~= old(self).out@ + "    "@ + name@ + " [\n"@ + attr_lines_chars(
                    ov.take(i as int + 1),
                ));
            }
            i = i + 1;
        }
        self.out.append("    ];\n");
        proof {
            assert(ov.take(n as int) =~= ov);
            assert(self.out@ =~= old(self).out@ + attributes_chars(name@, ov));
        }
    }

    /// Writes the graph-level default-attribute block.
    pub fn graph_attributes(&mut self, opts: &Vec<(String, String)>)
        ensures
            final(self)@ == old(self)@ + attributes_chars(
                "graph"@,
                crate::parser::raw_pairs_view(opts@),
            ),
    {
        self.attributes("graph", opts);
    }

    /// Writes the node-level default-attribute block.
    pub fn node_attributes(&mut self, opts: &Vec<(String, String)>)
        ensures
            final(self)@ == old(self)@ + attributes_chars(
                "node"@,
                crate::parser::raw_pairs_view(opts@),
            ),
    {
        self.attributes("node", opts);
    }

    /// Writes the edge-level default-attribute block.
    pub fn edge_attributes(&mut self, opts: &Vec<(String, String)>)
        ensures
            final(self)@ == old(self)@ + attributes_chars(
                "edge"@,
                crate::parser::raw_pairs_view(opts@),
            ),
    {
        self.attributes("edge", opts);
    }

    /// Writes one attribute row of an entity's table.
    #[verifier::rlimit(50)]
    pub fn render_attribute(&mut self, a: &Attribute)
        ensures
            final(self)@ == old(self)@ + attr_row_chars(a@),
    {
        self.out.append("    ");
        self.open_tag("TR");
        let mut td_attrs: Vec<(String, String)> = Vec::new();
        td_attrs.push((String::from_str("ALIGN"), String::from_str("LEFT")));
        proof {
            assert(crate::parser::raw_pairs_view(td_attrs@) =~= seq![("ALIGN"@, "LEFT"@)]);
        }
        self.open_tag_attrs("TD", &td_attrs);
        if a.pk && a.fk {
            self.out.append("<I><U>");
            self.out.append(a.field.as_str());
            self.out.append("</U></I>");
        } else if a.pk {
            self.out.append("<U>");
            self.out.append(a.field.as_str());
            self.out.append("</U>");
        } else if a.fk {
            self.out.append("<I>");
            self.out.append(a.field.as_str());
            self.out.append("</I>");
        } else {
            self.out.append(a.field.as_str());
        }
        match &a.options.label {
            Some(l) => {
                self.out.append(" [");
                self.out.append(l.as_str());
                self.out.append("]");
            },
            None => {},
        }
        self.close_tag("TD");
        self.close_tag("TR");
        self.out.append("\n");
        proof {
            assert(self.out@ =~= old(self).out@ + attr_row_chars(a@));
        }
    }

    /// Writes one relation's edge line.
    pub fn relationship(&mut self, r: &Relation)
        ensures
            final(self)@ == old(self)@ + relation_chars(r@),
    {
        self.out.append("    \"");
        self.out.append(r.entity1.as_str());
        self.out.append("\" -- \"");
        self.out.append(r.entity2.as_str());
        self.out.append("\" [ headlabel=\"");
        self.out.append(r.card2.glyph());
        self.out.append("\", taillabel=\"");
        self.out.append(r.card1.glyph());
        self.out.append("\" ];\n");
        proof {
            assert(self.out@ =~= old(self).out@ + relation_chars(r@));
        }
    }

    /// Writes one entity's node.
    #[verifier::loop_isolation(false)]
    #[verifier::rlimit(80)]
    pub fn entity(&mut self, e: &Entity)
        ensures
            final(self)@ == old(self)@ + entity_chars(e@),
    {
        self.out.append("    \"");
        self.out.append(e.name.as_str());
        self.out.append("\" [\n        label=<\n");
        let mut font_attrs: Vec<(String, String)> = Vec::new();
        font_attrs.push((String::from_str("FACE"), e.header_options.font.clone()));
        proof {
            assert(crate::parser::raw_pairs_view(font_attrs@) =~= seq![
                ("FACE"@, e.header_options.font@),
            ]);
        }
        self.open_tag_attrs("FONT", &font_attrs);
        self.out.append("\n  ");
        let mut table_attrs: Vec<(String, String)> = Vec::new();
        table_attrs.push((String::from_str("BORDER"), u8_string(e.header_options.border)));
        table_attrs.push((String::from_str("CELLBORDER"), u8_string(e.header_options.cell_border)));
        table_attrs.push(
            (String::from_str("CELLPADDING"), u8_string(e.header_options.cell_padding)),
        );
        table_attrs.push(
            (String::from_str("CELLSPACING"), u8_string(e.header_options.cell_spacing)),
        );
        match &e.options.background_color {
            Some(c) => {
                table_attrs.push((String::from_str("BGCOLOR"), c.clone()));
            },
            None => {},
        }
        proof {
            assert(crate::parser::raw_pairs_view(table_attrs@) =~= table_attrs_list(e@));
        }
        self.open_tag_attrs("TABLE", &table_attrs);
        self.out.append("\n    <TR><TD><B><FONT POINT-SIZE=\"");
        text::append_decimal(&mut self.out, e.header_options.size as u64);
        self.out.append("\">");
        self.out.append(e.name.as_str());
        self.out.append("</FONT></B></TD></TR>\n");
        let ghost before_rows = self.out@;
        let ghost av = e@.attribs;
        let n = e.attribs.len();
        let mut i: usize = 0;
        proof {
            assert(attr_rows_chars(av.take(0)) =~= Seq::<char>::empty());
            assert(before_rows + attr_rows_chars(av.take(0)) =~= before_rows);
        }
        while i < n
            invariant
                i <= n,
                n == e.attribs@.len(),
                av == e@.attribs,
                self.out@ == before_rows + attr_rows_chars(av.take(i as int)),
            decreases n - i,
        {
            proof {
                assert(av.take(i as int + 1).drop_last() =~= av.take(i as int));
                assert(av.take(i as int + 1).last() == av[i as int]);
            }
            self.render_attribute(&e.attribs[i]);
            proof {
                assert(self.out@ =~= before_rows + attr_rows_chars(av.take(i as int + 1)));
            }
            i = i + 1;
        }
        self.out.append("  </TABLE>\n</FONT>\n>];\n");
        proof {
            assert(av.take(n as int) =~= av);
            assert(self.out@ =~= old(self).out@ + entity_chars(e@));
        }
    }

    /// Writes the graph header and the three default-attribute blocks.
    fn render_preamble(&mut self, erd: &Erd)
        ensures
            final(self)@ == old(self)@ + ("graph {\n"@ + attributes_chars(
                "graph"@,
                graph_attrs_list(erd@.title_options),
            ) + attributes_chars("node"@, node_attrs_list()) + attributes_chars(
                "edge"@,
                edge_attrs_list(),
            )),
    {
        self.graph_header();
        let mut graph_attrs: Vec<(String, String)> = Vec::new();
        match &erd.title_options.label {
            Some(label) => {
                let mut title = String::from_str("<<FONT POINT-SIZE=\"");
                text::append_decimal(&mut title, erd.title_options.size as u64);
                title.append("\">");
                title.append(label.as_str());
                title.append("</FONT>>");
                graph_attrs.push((String::from_str("label"), title));
                graph_attrs.push((String::from_str("labeljust"), String::from_str("l")));
                graph_attrs.push((String::from_str("labelloc"), String::from_str("t")));
            },
            None => {},
        }
        graph_attrs.push((String::from_str("rankdir"), String::from_str("LR")));
        graph_attrs.push((String::from_str("splines"), String::from_str("spline")));
        proof {
            assert(crate::parser::raw_pairs_view(graph_attrs@) =~= graph_attrs_list(
                erd@.title_options,
            ));
        }
        self.graph_attributes(&graph_attrs);
        let ghost part1 = "graph {\n"@ + attributes_chars(
            "graph"@,
            graph_attrs_list(erd@.title_options),
        );
        proof {
            assert(self.out@ =~= old(self).out@ + part1);
        }
        let mut node_attrs: Vec<(String, String)> = Vec::new();
        node_attrs.push((String::from_str("label"), String::from_str("\"\\N\"")));
        node_attrs.push((String::from_str("shape"), String::from_str("plaintext")));
        proof {
            assert(crate::parser::raw_pairs_view(node_attrs@) =~= node_attrs_list());
        }
        self.node_attributes(&node_attrs);
        let ghost part2 = part1 + attributes_chars("node"@, node_attrs_list());
        proof {
            assert(self.out@ =~= old(self).out@ + part2);
        }
        let mut edge_attrs: Vec<(String, String)> = Vec::new();
        edge_attrs.push((String::from_str("color"), String::from_str("gray50")));
        edge_attrs.push((String::from_str("minlen"), String::from_str("2")));
        edge_attrs.push((String::from_str("style"), String::from_str("dashed")));
        proof {
            assert(crate::parser::raw_pairs_view(edge_attrs@) =~= edge_attrs_list());
        }
        self.edge_attributes(&edge_attrs);
        proof {
            assert(self.out@ =~= old(self).out@ + (part2 + attributes_chars(
                "edge"@,
                edge_attrs_list(),
            )));
        }
    }

    /// Writes every entity's node, in order.
    #[verifier::loop_isolation(false)]
    fn render_entities(&mut self, entities: &Vec<Entity>)
        ensures
            final(self)@ == old(self)@ + entities_chars(crate::parser::entities_view(entities@)),
    {
        let ghost ev = crate::parser::entities_view(entities@);
        let n = entities.len();
        let mut i: usize = 0;
        proof {
            assert(entities_chars(ev.take(0)) =~= Seq::<char>::empty());
            assert(old(self).out@ + entities_chars(ev.take(0)) =~= old(self).out@);
        }
        while i < n
            invariant
                i <= n,
                n == entities@.len(),
                self.out@ == old(self).out@ + entities_chars(ev.take(i as int)),
            decreases n - i,
        {
            proof {
                assert(ev.take(i as int + 1).drop_last() =~= ev.take(i as int));
                assert(ev.take(i as int + 1).last() == ev[i as int]);
            }
            self.entity(&entities[i]);
            proof {
                assert(self.out@ =~= old(self).out@ + entities_chars(ev.take(i as int + 1)));
            }
            i = i + 1;
        }
        proof {
            assert(ev.take(n as int) =~= ev);
        }
    }

    /// Writes every relation's edge, in order.
    #[verifier::loop_isolation(false)]
    fn render_relationships(&mut self, relationships: &Vec<Relation>)
        ensures
            final(self)@ == old(self)@ + relations_chars(
                crate::parser::relations_view(relationships@),
            ),
    {
        let ghost rv = crate::parser::relations_view(relationships@);
        let m = relationships.len();
        let mut j: usize = 0;
        proof {
            assert(relations_chars(rv.take(0)) =~= Seq::<char>::empty());
            assert(old(self).out@ + relations_chars(rv.take(0)) =~= old(self).out@);
        }
        while j < m
            invariant
                j <= m,
                m == relationships@.len(),
                self.out@ == old(self).out@ + relations_chars(rv.take(j as int)),
            decreases m - j,
        {
            proof {
                assert(rv.take(j as int + 1).drop_last() =~= rv.take(j as int));
                assert(rv.take(j as int + 1).last() == rv[j as int]);
            }
            self.relationship(&relationships[j]);
            proof {
                assert(self.out@ =~= old(self).out@ + relations_chars(rv.take(j as int + 1)));
            }
            j = j + 1;
        }
        proof {
            assert(rv.take(m as int) =~= rv);
        }
    }

    /// Renders a whole resolved diagram into the buffer.
    pub fn render_erd(&mut self, erd: &Erd)
        ensures
            final(self)@ == old(self)@ + render_erd_chars(erd@),
    {
        self.render_preamble(erd);
        let ghost part3 = "graph {\n"@ + attributes_chars(
            "graph"@,
            graph_attrs_list(erd@.title_options),
        ) + attributes_chars("node"@, node_attrs_list()) + attributes_chars(
            "edge"@,
            edge_attrs_list(),
        );
        self.render_entities(&erd.entities);
        let ghost part4 = part3 + entities_chars(erd@.entities);
        proof {
            assert(crate::parser::entities_view(erd.entities@) == erd@.entities);
            assert(self.out@ =~= old(self).out@ + part4);
        }
        if erd.relationships.len() > 0 {
            self.out.append("\n");
            self.render_relationships(&erd.relationships);
        }
        let ghost part5 = part4 + (if erd@.relationships.len() > 0 {
            "\n"@ + relations_chars(erd@.relationships)
        } else {
            Seq::<char>::empty()
        });
        proof {
            assert(crate::parser::relations_view(erd.relationships@) == erd@.relationships);
            assert(self.out@ =~= old(self).out@ + part5);
        }
        self.graph_footer();
        proof {
            assert(self.out@ =~= old(self).out@ + (part5 + "}\n"@));
            assert(part5 + "}\n"@ =~= render_erd_chars(erd@));
        }
    }
}

} // verus!
