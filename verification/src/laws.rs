//! Document-level laws: facts that relate several parts of the library,
//! stated and proved over the same models the parser's and resolver's
//! contracts use.

use vstd::prelude::*;

use crate::ast::{entity_apply, entity_default, AstV, EntityOptionsV};
use crate::options::{distinct_keys, find_key, has_key, seq_minus, SpecPair};
use crate::parser::{
    acc_empty, collect_from, collect_step, is_quote_char, p_boc, p_erd, p_ident,
    p_ident_no_space, p_ident_quoted, p_statements, quoted_end_at, skip_spaces_at, word_end_at,
    AccV,
};
use crate::text::{is_control_char, is_word_char};

verus! {

/// A document of blank lines and comments alone resolves to a diagram with
/// no entities and no relations.
pub proof fn lemma_blank_document_empty(s: Seq<char>)
    requires
        p_boc(s, 0) == s.len(),
    ensures
        p_erd(s) is Ok,
        p_erd(s)->Ok_0.entities.len() == 0,
        p_erd(s)->Ok_0.relationships.len() == 0,
{
    assert(p_statements(s, 0) == Ok::<_, crate::ast::ErdParseErrorV>(Seq::<crate::ast::AstV>::empty()));
    assert(collect_from(acc_empty(), Seq::empty()) == Ok::<_, crate::ast::ErdParseErrorV>(
        acc_empty(),
    ));
}


/// Scanning for the closing quote stops exactly at `b` when everything
/// before `b` is an ordinary character and `b` holds the quote.
proof fn lemma_quoted_end_run(s: Seq<char>, a: int, b: int, q: char)
    requires
        0 <= a <= b < s.len(),
        forall|t: int| a <= t < b ==> #[trigger] s[t] != q && !is_control_char(s[t]),
        s[b] == q,
    ensures
        quoted_end_at(s, a, q) == b,
    decreases b - a,
{
    if a < b {
        lemma_quoted_end_run(s, a + 1, b, q);
    }
}

/// Scanning a bare identifier stops exactly at `b` when everything before
/// `b` is a word character and `b` is not (or is the end of the input).
proof fn lemma_word_end_run(s: Seq<char>, a: int, b: int)
    requires
        0 <= a <= b <= s.len(),
        forall|t: int| a <= t < b ==> is_word_char(#[trigger] s[t]),
        b == s.len() || !is_word_char(s[b]),
    ensures
        word_end_at(s, a) == b,
    decreases b - a,
{
    if a < b {
        lemma_word_end_run(s, a + 1, b);
    }
}

/// Quoting equivalence, quoted side: wrapping any name free of control
/// characters and of the chosen quote in that quote parses back to exactly
/// that name, whichever of the three quotes is used.
pub proof fn lemma_ident_quoted_exact(s: Seq<char>, i: int, name: Seq<char>, q: char)
    requires
        is_quote_char(q),
        0 <= i,
        i + name.len() + 2 <= s.len(),
        s[i] == q,
        s.subrange(i + 1, i + 1 + name.len()) == name,
        forall|t: int| 0 <= t < name.len() ==> #[trigger] name[t] != q && !is_control_char(name[t]),
        s[i + 1 + name.len()] == q,
    ensures
        p_ident_quoted(s, i) == Some((name, i + name.len() + 2)),
{
    assert forall|t: int| i + 1 <= t < i + 1 + name.len() implies #[trigger] s[t] != q
        && !is_control_char(s[t]) by {
        assert(s[t] == name[t - (i + 1)]);
    }
    lemma_quoted_end_run(s, i + 1, i + 1 + name.len(), q);
}

/// Quoting equivalence, bare side: a run of word characters, ended by the
/// end of the input or by anything that is not a word character, parses as
/// a bare identifier to exactly that run.
pub proof fn lemma_ident_bare_exact(s: Seq<char>, i: int, name: Seq<char>)
    requires
        0 <= i,
        i + name.len() <= s.len(),
        name.len() > 0,
        s.subrange(i, i + name.len()) == name,
        forall|t: int| 0 <= t < name.len() ==> is_word_char(#[trigger] name[t]),
        i + name.len() == s.len() || !is_word_char(s[i + name.len()]),
    ensures
        p_ident_no_space(s, i) == Some((name, i + name.len())),
{
    assert forall|t: int| i <= t < i + name.len() implies is_word_char(#[trigger] s[t]) by {
        assert(s[t] == name[t - i]);
    }
    lemma_word_end_run(s, i, i + name.len());
    assert(s[i] == name[0]);
}

/// Quoting equivalence: a name made of word characters parses to the same
/// identifier whether it stands bare or wrapped in any of the three
/// quotes. Word characters are never control characters or quotes, so the
/// premises of the two sides coincide.
pub proof fn lemma_quoting_equivalence(name: Seq<char>, q: char)
    requires
        is_quote_char(q),
        name.len() > 0,
        forall|t: int| 0 <= t < name.len() ==> is_word_char(#[trigger] name[t]),
    ensures
        p_ident(seq![q] + name + seq![q], 0) == Some((name, name.len() as int + 2)),
        p_ident(name, 0) == Some((name, name.len() as int)),
{
    let w = seq![q] + name + seq![q];
    assert(w.len() == name.len() + 2);
    assert(w[0] == q);
    assert(w[name.len() as int + 1] == q);
    assert(w.subrange(1, name.len() as int + 1) =~= name);
    assert forall|t: int| 0 <= t < name.len() implies #[trigger] name[t] != q && !is_control_char(
        name[t],
    ) by {
        assert(is_word_char(name[t]));
    }
    lemma_ident_quoted_exact(w, 0, name, q);
    assert(skip_spaces_at(w, 0) == 0);
    assert(skip_spaces_at(w, name.len() as int + 2) == name.len() + 2);
    assert(p_ident(w, 0) == Some((name, name.len() as int + 2)));
    assert(name.subrange(0, name.len() as int) =~= name);
    lemma_ident_bare_exact(name, 0, name);
    assert(skip_spaces_at(name, 0) == 0) by {
        assert(is_word_char(name[0]));
    }
    assert(p_ident_quoted(name, 0) is None) by {
        assert(is_word_char(name[0]));
    }
    assert(skip_spaces_at(name, name.len() as int) == name.len());
}


/// The entity option keys are pairwise distinct character sequences.
proof fn lemma_key_literals_distinct()
    ensures
        "label"@ != "color"@,
        "size"@ != "font"@,
        "label"@ != "bgcolor"@,
        "label"@ != "size"@,
        "label"@ != "font"@,
        "label"@ != "border-color"@,
        "label"@ != "border"@,
        "color"@ != "bgcolor"@,
        "color"@ != "size"@,
        "color"@ != "font"@,
        "color"@ != "border-color"@,
        "color"@ != "border"@,
        "bgcolor"@ != "size"@,
        "bgcolor"@ != "font"@,
        "bgcolor"@ != "border-color"@,
        "bgcolor"@ != "border"@,
        "size"@ != "border-color"@,
        "size"@ != "border"@,
        "font"@ != "border-color"@,
        "font"@ != "border"@,
        "border-color"@ != "border"@,
{
    reveal_strlit("label");
    reveal_strlit("color");
    reveal_strlit("bgcolor");
    reveal_strlit("size");
    reveal_strlit("font");
    reveal_strlit("border-color");
    reveal_strlit("border");
    assert("label"@[0] == 'l' && "color"@[0] == 'c');
    assert("size"@[0] == 's' && "font"@[0] == 'f');
    assert("label"@.len() == 5 && "color"@.len() == 5 && "bgcolor"@.len() == 7 && "size"@.len()
        == 4 && "font"@.len() == 4 && "border-color"@.len() == 12 && "border"@.len() == 6);
}

/// A key held by no pair of `ps` is not found in `ps`.
proof fn lemma_find_key_absent(ps: Seq<SpecPair>, k: Seq<char>)
    requires
        forall|t: int| 0 <= t < ps.len() ==> (#[trigger] ps[t]).0 != k,
    ensures
        find_key(ps, k) is None,
    decreases ps.len(),
{
    if ps.len() > 0 {
        assert(forall|t: int|
            0 <= t < ps.drop_first().len() ==> (#[trigger] ps.drop_first()[t]).0 != k);
        lemma_find_key_absent(ps.drop_first(), k);
    }
}

/// Finding a key after appending one pair: the old binding wins; the new
/// pair only answers for a key not bound before.
proof fn lemma_find_key_push(ps: Seq<SpecPair>, p: SpecPair, k: Seq<char>)
    ensures
        find_key(ps.push(p), k) == (match find_key(ps, k) {
            Some(v) => Some(v),
            None => if p.0 == k {
                Some(p.1)
            } else {
                None
            },
        }),
    decreases ps.len(),
{
    if ps.len() == 0 {
        assert(ps.push(p)[0] == p);
        assert(ps.push(p).drop_first() =~= Seq::<SpecPair>::empty());
    } else {
        assert(ps.push(p)[0] == ps[0]);
        assert(ps.push(p).drop_first() =~= ps.drop_first().push(p));
        lemma_find_key_push(ps.drop_first(), p, k);
    }
}

/// Finding a key in the difference: a key bound by `qs` is gone; any other
/// key keeps the binding it has in `ps`.
proof fn lemma_seq_minus_find(ps: Seq<SpecPair>, qs: Seq<SpecPair>, k: Seq<char>)
    ensures
        has_key(qs, k) ==> find_key(seq_minus(ps, qs), k) is None,
        !has_key(qs, k) ==> find_key(seq_minus(ps, qs), k) == find_key(ps, k),
    decreases ps.len(),
{
    if ps.len() > 0 {
        lemma_seq_minus_find(ps.drop_last(), qs, k);
        assert(ps.drop_last().push(ps.last()) =~= ps);
        lemma_find_key_push(ps.drop_last(), ps.last(), k);
        if !has_key(qs, ps.last().0) {
            lemma_find_key_push(seq_minus(ps.drop_last(), qs), ps.last(), k);
        } else {
            if has_key(qs, k) {
            } else {
                assert(ps.last().0 != k);
            }
        }
    }
}

/// The difference of a uniquely-keyed mapping keeps its keys unique.
proof fn lemma_seq_minus_distinct(ps: Seq<SpecPair>, qs: Seq<SpecPair>)
    requires
        distinct_keys(ps),
    ensures
        distinct_keys(seq_minus(ps, qs)),
    decreases ps.len(),
{
    if ps.len() > 0 {
        assert(forall|t: int|
            0 <= t < ps.drop_last().len() ==> #[trigger] ps.drop_last()[t] == ps[t]);
        lemma_seq_minus_distinct(ps.drop_last(), qs);
        if !has_key(qs, ps.last().0) {
            let inner = seq_minus(ps.drop_last(), qs);
            let r = inner.push(ps.last());
            assert(forall|t: int|
                0 <= t < ps.drop_last().len() ==> (#[trigger] ps.drop_last()[t]).0
                    != ps.last().0);
            crate::options::lemma_minus_no_key(ps.drop_last(), qs, ps.last().0);
            assert forall|i: int, j: int| 0 <= i < j < r.len() implies (#[trigger] r[i]).0 != (
            #[trigger] r[j]).0 by {
                if j < inner.len() {
                    assert(r[i] == inner[i] && r[j] == inner[j]);
                } else {
                    assert(r[j] == ps.last());
                    assert(r[i] == inner[i]);
                }
            }
        }
    }
}

/// How every field of the entity options comes out of one merge with a
/// uniquely-keyed mapping: a bound key gives its (coerced) value, an
/// unbound one leaves the field as it was, and the cell layout fields are
/// never touched.
pub proof fn lemma_entity_apply_fields(o: EntityOptionsV, ps: Seq<SpecPair>)
    requires
        distinct_keys(ps),
        entity_apply(o, ps) is Ok,
    ensures
        entity_apply(o, ps)->Ok_0.label == (match find_key(ps, "label"@) {
            Some(v) => Some(v),
            None => o.label,
        }),
        entity_apply(o, ps)->Ok_0.color == (match find_key(ps, "color"@) {
            Some(v) => Some(v),
            None => o.color,
        }),
        entity_apply(o, ps)->Ok_0.background_color == (match find_key(ps, "bgcolor"@) {
            Some(v) => Some(v),
            None => o.background_color,
        }),
        entity_apply(o, ps)->Ok_0.border_color == (match find_key(ps, "border-color"@) {
            Some(v) => Some(v),
            None => o.border_color,
        }),
        entity_apply(o, ps)->Ok_0.font == (match find_key(ps, "font"@) {
            Some(v) => v,
            None => o.font,
        }),
        entity_apply(o, ps)->Ok_0.size == (match find_key(ps, "size"@) {
            Some(v) => crate::text::u8_from_chars(v),
            None => o.size,
        }),
        (match find_key(ps, "border"@) {
            Some(v) => crate::text::u8_from_chars(v) == Some(entity_apply(o, ps)->Ok_0.border),
            None => entity_apply(o, ps)->Ok_0.border == o.border,
        }),
        entity_apply(o, ps)->Ok_0.cell_border == o.cell_border,
        entity_apply(o, ps)->Ok_0.cell_spacing == o.cell_spacing,
        entity_apply(o, ps)->Ok_0.cell_padding == o.cell_padding,
    decreases ps.len(),
{
    lemma_key_literals_distinct();
    if ps.len() > 0 {
        let k0 = ps[0].0;
        let v0 = ps[0].1;
        let rest = ps.drop_first();
        assert(forall|t: int| 0 <= t < rest.len() ==> #[trigger] rest[t] == ps[t + 1]);
        assert(forall|t: int| 0 <= t < rest.len() ==> (#[trigger] rest[t]).0 != k0);
        lemma_find_key_absent(rest, k0);
        if k0 == "bgcolor"@ {
            lemma_entity_apply_fields(
                EntityOptionsV { background_color: Some(v0), ..o },
                rest,
            );
        } else if k0 == "label"@ {
            lemma_entity_apply_fields(EntityOptionsV { label: Some(v0), ..o }, rest);
        } else if k0 == "color"@ {
            lemma_entity_apply_fields(EntityOptionsV { color: Some(v0), ..o }, rest);
        } else if k0 == "size"@ {
            lemma_entity_apply_fields(
                EntityOptionsV { size: Some(crate::text::u8_from_chars(v0)->0), ..o },
                rest,
            );
        } else if k0 == "font"@ {
            lemma_entity_apply_fields(EntityOptionsV { font: v0, ..o }, rest);
        } else if k0 == "border-color"@ {
            lemma_entity_apply_fields(EntityOptionsV { border_color: Some(v0), ..o }, rest);
        } else {
            lemma_entity_apply_fields(
                EntityOptionsV { border: crate::text::u8_from_chars(v0)->0, ..o },
                rest,
            );
        }
    }
}


/// Option precedence for an entity: a key set in the entity's own option
/// block keeps its local value; a key the block does not set takes the
/// accumulated global default; a key set in neither keeps the built-in
/// default. `local` and `global` are uniquely-keyed mappings, and both
/// merges are assumed to succeed, as the resolver requires.
pub proof fn lemma_option_precedence(local: Seq<SpecPair>, global: Seq<SpecPair>)
    requires
        distinct_keys(local),
        distinct_keys(global),
        entity_apply(entity_default(), local) is Ok,
        entity_apply(
            entity_apply(entity_default(), local)->Ok_0,
            seq_minus(global, local),
        ) is Ok,
    ensures
        entity_apply(
            entity_apply(entity_default(), local)->Ok_0,
            seq_minus(global, local),
        )->Ok_0.color == (match find_key(local, "color"@) {
            Some(v) => Some(v),
            None => match find_key(global, "color"@) {
                Some(v) => Some(v),
                None => None,
            },
        }),
        entity_apply(
            entity_apply(entity_default(), local)->Ok_0,
            seq_minus(global, local),
        )->Ok_0.label == (match find_key(local, "label"@) {
            Some(v) => Some(v),
            None => match find_key(global, "label"@) {
                Some(v) => Some(v),
                None => None,
            },
        }),
        entity_apply(
            entity_apply(entity_default(), local)->Ok_0,
            seq_minus(global, local),
        )->Ok_0.background_color == (match find_key(local, "bgcolor"@) {
            Some(v) => Some(v),
            None => match find_key(global, "bgcolor"@) {
                Some(v) => Some(v),
                None => None,
            },
        }),
        entity_apply(
            entity_apply(entity_default(), local)->Ok_0,
            seq_minus(global, local),
        )->Ok_0.font == (match find_key(local, "font"@) {
            Some(v) => v,
            None => match find_key(global, "font"@) {
                Some(v) => v,
                None => "Helvetica"@,
            },
        }),
        entity_apply(
            entity_apply(entity_default(), local)->Ok_0,
            seq_minus(global, local),
        )->Ok_0.size == (match find_key(local, "size"@) {
            Some(v) => crate::text::u8_from_chars(v),
            None => match find_key(global, "size"@) {
                Some(v) => crate::text::u8_from_chars(v),
                None => None,
            },
        }),
{
    let lo = entity_apply(entity_default(), local)->Ok_0;
    let rem = seq_minus(global, local);
    lemma_entity_apply_fields(entity_default(), local);
    lemma_seq_minus_distinct(global, local);
    lemma_entity_apply_fields(lo, rem);
    lemma_seq_minus_find(global, local, "color"@);
    lemma_seq_minus_find(global, local, "label"@);
    lemma_seq_minus_find(global, local, "bgcolor"@);
    lemma_seq_minus_find(global, local, "font"@);
    lemma_seq_minus_find(global, local, "size"@);
}


/// An attribute statement before any entity statement is a semantic error:
/// as long as no entity has been collected, a document whose statements
/// hold an attribute with no entity anywhere before it is rejected with
/// exactly the dangling-attribute error — it neither attaches anywhere nor
/// is dropped.
pub proof fn lemma_attribute_before_entity_rejected(acc: AccV, stmts: Seq<AstV>, i: int)
    requires
        0 <= i < stmts.len(),
        stmts[i] is Attribute,
        forall|j: int| 0 <= j < i ==> !((#[trigger] stmts[j]) is Entity),
        acc.entities.len() == 0,
    ensures
        collect_from(acc, stmts) == Err::<AccV, crate::ast::ErdParseErrorV>(
            crate::ast::ErdParseErrorV::AttributeWithoutEntity,
        ),
    decreases i,
{
    if stmts[0] is Attribute {
    } else {
        let rest = stmts.drop_first();
        assert(forall|t: int| 0 <= t < rest.len() ==> #[trigger] rest[t] == stmts[t + 1]);
        match collect_step(acc, stmts[0]) {
            Ok(a2) => {
                assert(a2.entities.len() == 0);
                lemma_attribute_before_entity_rejected(a2, rest, i - 1);
            },
            Err(_) => {
                assert(false);
            },
        }
    }
}

/// An unrecognized option key is a semantic error naming that key: if every
/// pair before position `i` carries a recognized entity key with a valid
/// numeric value where one is required, and the key at `i` is recognized by
/// no group of the entity vocabulary, the merge fails with exactly the
/// unknown-option error for that key.
pub proof fn lemma_unknown_key_rejected(o: EntityOptionsV, ps: Seq<SpecPair>, i: int)
    requires
        0 <= i < ps.len(),
        forall|j: int|
            0 <= j < i ==> entity_key_recognized((#[trigger] ps[j]).0) && (is_numeric_entity_key(
                ps[j].0,
            ) ==> crate::text::u8_from_chars(ps[j].1) is Some),
        !entity_key_recognized(ps[i].0),
    ensures
        entity_apply(o, ps) == Err::<EntityOptionsV, crate::ast::ErdParseErrorV>(
            crate::ast::ErdParseErrorV::UnknownOption {
                group: crate::ast::OptionGroup::Entity,
                key: ps[i].0,
            },
        ),
    decreases i,
{
    if i == 0 {
    } else {
        let rest = ps.drop_first();
        assert(forall|t: int| 0 <= t < rest.len() ==> #[trigger] rest[t] == ps[t + 1]);
        assert(entity_key_recognized(ps[0].0));
        if ps[0].0 == "bgcolor"@ {
            lemma_unknown_key_rejected(
                EntityOptionsV { background_color: Some(ps[0].1), ..o },
                rest,
                i - 1,
            );
        } else if ps[0].0 == "label"@ {
            lemma_unknown_key_rejected(EntityOptionsV { label: Some(ps[0].1), ..o }, rest, i - 1);
        } else if ps[0].0 == "color"@ {
            lemma_unknown_key_rejected(EntityOptionsV { color: Some(ps[0].1), ..o }, rest, i - 1);
        } else if ps[0].0 == "size"@ {
            lemma_unknown_key_rejected(
                EntityOptionsV { size: Some(crate::text::u8_from_chars(ps[0].1)->0), ..o },
                rest,
                i - 1,
            );
        } else if ps[0].0 == "font"@ {
            lemma_unknown_key_rejected(EntityOptionsV { font: ps[0].1, ..o }, rest, i - 1);
        } else if ps[0].0 == "border-color"@ {
            lemma_unknown_key_rejected(
                EntityOptionsV { border_color: Some(ps[0].1), ..o },
                rest,
                i - 1,
            );
        } else {
            lemma_unknown_key_rejected(
                EntityOptionsV { border: crate::text::u8_from_chars(ps[0].1)->0, ..o },
                rest,
                i - 1,
            );
        }
    }
}

/// A key the entity option group recognizes.
pub open spec fn entity_key_recognized(k: Seq<char>) -> bool {
    k == "bgcolor"@ || k == "label"@ || k == "color"@ || k == "size"@ || k == "font"@ || k
        == "border-color"@ || k == "border"@
}

/// An entity option key whose value must be a small integer.
pub open spec fn is_numeric_entity_key(k: Seq<char>) -> bool {
    k == "size"@ || k == "border"@
}

} // verus!
