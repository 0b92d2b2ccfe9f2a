//! The ERD grammar: a recursive-descent parser over the characters of the
//! document, specified by a functional model of the grammar, together with
//! the document assembler that resolves global directives into every
//! entity, relation and the title block.

use vstd::prelude::*;

use crate::ast::{
    attribute_apply, attribute_default, entity_apply, entity_default, header_apply,
    header_default, relationship_apply, relationship_default, title_apply, title_default, Ast,
    AstV, Attribute, AttributeOptions, AttributeV, Cardinality, Entity, EntityOptions, EntityV,
    Erd, ErdParseError, ErdParseErrorV, ErdV, GlobalOption, GlobalOptionType, GlobalOptionV,
    HeaderOptions, Relation, RelationV, RelationshipOptions, TitleOptions,
};
use crate::options::{seq_extend, seq_minus, OptionMap, SpecPair};
use crate::text;
use crate::text::{is_control_char, is_multispace_char, is_space_char, is_word_char};

verus! {

/// An ASCII letter or digit: the characters of an option key.
pub open spec fn is_alnum_char(c: char) -> bool {
    ('a' <= c && c <= 'z') || ('A' <= c && c <= 'Z') || ('0' <= c && c <= '9')
}

fn exec_is_alnum_char(c: char) -> (r: bool)
    ensures
        r == is_alnum_char(c),
{
    ('a' <= c && c <= 'z') || ('A' <= c && c <= 'Z') || ('0' <= c && c <= '9')
}

/// A marker before an attribute name: key flags or ignored padding.
pub open spec fn is_marker_char(c: char) -> bool {
    c == '*' || c == '+' || c == ' ' || c == '\t'
}

fn exec_is_marker_char(c: char) -> (r: bool)
    ensures
        r == is_marker_char(c),
{
    c == '*' || c == '+' || c == ' ' || c == '\t'
}

/// Whitespace or a comma, as skipped before an option block's closing brace.
pub open spec fn is_wscomma_char(c: char) -> bool {
    is_multispace_char(c) || c == ','
}

fn exec_is_wscomma_char(c: char) -> (r: bool)
    ensures
        r == is_wscomma_char(c),
{
    c == ' ' || c == '\t' || c == '\r' || c == '\n' || c == ','
}

// ---------------------------------------------------------------------------
// Character runs
// ---------------------------------------------------------------------------
/// The end of the run of spaces and tabs starting at `i`.
pub open spec fn skip_spaces_at(s: Seq<char>, i: int) -> int
    decreases s.len() - i,
{
    if 0 <= i < s.len() && is_space_char(s[i]) {
        skip_spaces_at(s, i + 1)
    } else {
        i
    }
}

/// The end of the run of whitespace (including line breaks) starting at `i`.
pub open spec fn skip_multispaces_at(s: Seq<char>, i: int) -> int
    decreases s.len() - i,
{
    if 0 <= i < s.len() && is_multispace_char(s[i]) {
        skip_multispaces_at(s, i + 1)
    } else {
        i
    }
}

/// The end of the run of whitespace and commas starting at `i`.
pub open spec fn skip_wscomma_at(s: Seq<char>, i: int) -> int
    decreases s.len() - i,
{
    if 0 <= i < s.len() && is_wscomma_char(s[i]) {
        skip_wscomma_at(s, i + 1)
    } else {
        i
    }
}

/// The end of the run of bare-identifier characters starting at `i`.
pub open spec fn word_end_at(s: Seq<char>, i: int) -> int
    decreases s.len() - i,
{
    if 0 <= i < s.len() && is_word_char(s[i]) {
        word_end_at(s, i + 1)
    } else {
        i
    }
}

/// The end of the run of option-key characters starting at `i`.
pub open spec fn alnum_end_at(s: Seq<char>, i: int) -> int
    decreases s.len() - i,
{
    if 0 <= i < s.len() && is_alnum_char(s[i]) {
        alnum_end_at(s, i + 1)
    } else {
        i
    }
}

/// The end of the run of attribute-marker characters starting at `i`.
pub open spec fn marker_end_at(s: Seq<char>, i: int) -> int
    decreases s.len() - i,
{
    if 0 <= i < s.len() && is_marker_char(s[i]) {
        marker_end_at(s, i + 1)
    } else {
        i
    }
}

/// The first position at or after `i` that ends a line (or the end of the
/// input): comment text runs up to here.
pub open spec fn line_end_at(s: Seq<char>, i: int) -> int
    decreases s.len() - i,
{
    if 0 <= i < s.len() && s[i] != '\r' && s[i] != '\n' {
        line_end_at(s, i + 1)
    } else {
        i
    }
}

/// The first position at or after `i` holding a double quote (or the end of
/// the input): an option value runs up to here.
pub open spec fn value_end_at(s: Seq<char>, i: int) -> int
    decreases s.len() - i,
{
    if 0 <= i < s.len() && s[i] != '"' {
        value_end_at(s, i + 1)
    } else {
        i
    }
}

/// The first position at or after `i` holding the closing quote `q` or a
/// control character (or the end of the input): a quoted identifier runs up
/// to here.
pub open spec fn quoted_end_at(s: Seq<char>, i: int, q: char) -> int
    decreases s.len() - i,
{
    if 0 <= i < s.len() && s[i] != q && !is_control_char(s[i]) {
        quoted_end_at(s, i + 1, q)
    } else {
        i
    }
}

// ---------------------------------------------------------------------------
// Comments and blank space
// ---------------------------------------------------------------------------
/// A comment: `#` through the end of the line. The position after it, if
/// one starts at `i`: past the `\n` or `\r\n` that ends it, or the end of
/// the input. A comment ended by a lone carriage return is not accepted.
pub open spec fn p_comment(s: Seq<char>, i: int) -> Option<int> {
    if 0 <= i < s.len() && s[i] == '#' {
        if line_end_at(s, i + 1) == s.len() {
            Some(s.len() as int)
        } else if s[line_end_at(s, i + 1)] == '\n' {
            Some(line_end_at(s, i + 1) + 1)
        } else if line_end_at(s, i + 1) + 1 < s.len() && s[line_end_at(s, i + 1) + 1] == '\n' {
            Some(line_end_at(s, i + 1) + 2)
        } else {
            None
        }
    } else {
        None
    }
}

/// The position after any run of blank space and comments starting at `i`.
pub open spec fn p_boc(s: Seq<char>, i: int) -> int
    decreases s.len() - i,
{
    if 0 <= i < s.len() && is_multispace_char(s[i]) {
        p_boc(s, i + 1)
    } else {
        match p_comment(s, i) {
            // A comment always ends past where it starts; the bounds keep
            // the recursion well-founded.
            Some(e) => if i < e <= s.len() {
                p_boc(s, e)
            } else {
                i
            },
            None => i,
        }
    }
}

/// Whitespace, at most one comment, then whitespace: the space allowed
/// around an option separator.
pub open spec fn p_msc(s: Seq<char>, i: int) -> int {
    match p_comment(s, skip_multispaces_at(s, i)) {
        Some(e) => skip_multispaces_at(s, e),
        None => skip_multispaces_at(s, i),
    }
}


// ---------------------------------------------------------------------------
// Exec scanning
// ---------------------------------------------------------------------------
#[verifier::loop_isolation(false)]
fn skip_spaces(s: &Vec<char>, i: usize) -> (r: usize)
    requires
        i <= s@.len(),
    ensures
        r == skip_spaces_at(s@, i as int),
        i <= r <= s@.len(),
{
    let n = s.len();
    let mut j = i;
    while j < n && exec_is_space_char_ref(s, j)
        invariant
            i <= j <= n,
            skip_spaces_at(s@, i as int) == skip_spaces_at(s@, j as int),
        decreases n - j,
    {
        j = j + 1;
    }
    j
}

fn exec_is_space_char_ref(s: &Vec<char>, j: usize) -> (r: bool)
    requires
        j < s@.len(),
    ensures
        r == is_space_char(s@[j as int]),
{
    text::exec_is_space_char(s[j])
}

fn exec_is_multispace_char_ref(s: &Vec<char>, j: usize) -> (r: bool)
    requires
        j < s@.len(),
    ensures
        r == is_multispace_char(s@[j as int]),
{
    text::exec_is_multispace_char(s[j])
}

#[verifier::loop_isolation(false)]
fn skip_multispaces(s: &Vec<char>, i: usize) -> (r: usize)
    requires
        i <= s@.len(),
    ensures
        r == skip_multispaces_at(s@, i as int),
        i <= r <= s@.len(),
{
    let n = s.len();
    let mut j = i;
    while j < n && exec_is_multispace_char_ref(s, j)
        invariant
            i <= j <= n,
            skip_multispaces_at(s@, i as int) == skip_multispaces_at(s@, j as int),
        decreases n - j,
    {
        j = j + 1;
    }
    j
}

fn exec_is_wscomma_char_ref(s: &Vec<char>, j: usize) -> (r: bool)
    requires
        j < s@.len(),
    ensures
        r == is_wscomma_char(s@[j as int]),
{
    exec_is_wscomma_char(s[j])
}

#[verifier::loop_isolation(false)]
fn skip_wscomma(s: &Vec<char>, i: usize) -> (r: usize)
    requires
        i <= s@.len(),
    ensures
        r == skip_wscomma_at(s@, i as int),
        i <= r <= s@.len(),
{
    let n = s.len();
    let mut j = i;
    while j < n && exec_is_wscomma_char_ref(s, j)
        invariant
            i <= j <= n,
            skip_wscomma_at(s@, i as int) == skip_wscomma_at(s@, j as int),
        decreases n - j,
    {
        j = j + 1;
    }
    j
}

fn exec_is_word_char_ref(s: &Vec<char>, j: usize) -> (r: bool)
    requires
        j < s@.len(),
    ensures
        r == is_word_char(s@[j as int]),
{
    text::exec_is_word_char(s[j])
}

#[verifier::loop_isolation(false)]
fn word_end(s: &Vec<char>, i: usize) -> (r: usize)
    requires
        i <= s@.len(),
    ensures
        r == word_end_at(s@, i as int),
        i <= r <= s@.len(),
{
    let n = s.len();
    let mut j = i;
    while j < n && exec_is_word_char_ref(s, j)
        invariant
            i <= j <= n,
            word_end_at(s@, i as int) == word_end_at(s@, j as int),
        decreases n - j,
    {
        j = j + 1;
    }
    j
}

fn exec_is_alnum_char_ref(s: &Vec<char>, j: usize) -> (r: bool)
    requires
        j < s@.len(),
    ensures
        r == is_alnum_char(s@[j as int]),
{
    exec_is_alnum_char(s[j])
}

#[verifier::loop_isolation(false)]
fn alnum_end(s: &Vec<char>, i: usize) -> (r: usize)
    requires
        i <= s@.len(),
    ensures
        r == alnum_end_at(s@, i as int),
        i <= r <= s@.len(),
{
    let n = s.len();
    let mut j = i;
    while j < n && exec_is_alnum_char_ref(s, j)
        invariant
            i <= j <= n,
            alnum_end_at(s@, i as int) == alnum_end_at(s@, j as int),
        decreases n - j,
    {
        j = j + 1;
    }
    j
}

fn exec_is_marker_char_ref(s: &Vec<char>, j: usize) -> (r: bool)
    requires
        j < s@.len(),
    ensures
        r == is_marker_char(s@[j as int]),
{
    exec_is_marker_char(s[j])
}

#[verifier::loop_isolation(false)]
fn marker_end(s: &Vec<char>, i: usize) -> (r: usize)
    requires
        i <= s@.len(),
    ensures
        r == marker_end_at(s@, i as int),
        i <= r <= s@.len(),
{
    let n = s.len();
    let mut j = i;
    while j < n && exec_is_marker_char_ref(s, j)
        invariant
            i <= j <= n,
            marker_end_at(s@, i as int) == marker_end_at(s@, j as int),
        decreases n - j,
    {
        j = j + 1;
    }
    j
}

fn not_line_break(s: &Vec<char>, j: usize) -> (r: bool)
    requires
        j < s@.len(),
    ensures
        r == (s@[j as int] != '\r' && s@[j as int] != '\n'),
{
    let c = s[j];
    c != '\r' && c != '\n'
}

#[verifier::loop_isolation(false)]
fn line_end(s: &Vec<char>, i: usize) -> (r: usize)
    requires
        i <= s@.len(),
    ensures
        r == line_end_at(s@, i as int),
        i <= r <= s@.len(),
{
    let n = s.len();
    let mut j = i;
    while j < n && not_line_break(s, j)
        invariant
            i <= j <= n,
            line_end_at(s@, i as int) == line_end_at(s@, j as int),
        decreases n - j,
    {
        j = j + 1;
    }
    j
}

fn not_dquote(s: &Vec<char>, j: usize) -> (r: bool)
    requires
        j < s@.len(),
    ensures
        r == (s@[j as int] != '"'),
{
    s[j] != '"'
}

#[verifier::loop_isolation(false)]
fn value_end(s: &Vec<char>, i: usize) -> (r: usize)
    requires
        i <= s@.len(),
    ensures
        r == value_end_at(s@, i as int),
        i <= r <= s@.len(),
{
    let n = s.len();
    let mut j = i;
    while j < n && not_dquote(s, j)
        invariant
            i <= j <= n,
            value_end_at(s@, i as int) == value_end_at(s@, j as int),
        decreases n - j,
    {
        j = j + 1;
    }
    j
}

fn quoted_inner_char(s: &Vec<char>, j: usize, q: char) -> (r: bool)
    requires
        j < s@.len(),
    ensures
        r == (s@[j as int] != q && !is_control_char(s@[j as int])),
{
    let c = s[j];
    c != q && !text::exec_is_control_char(c)
}

#[verifier::loop_isolation(false)]
fn quoted_end(s: &Vec<char>, i: usize, q: char) -> (r: usize)
    requires
        i <= s@.len(),
    ensures
        r == quoted_end_at(s@, i as int, q),
        i <= r <= s@.len(),
{
    let n = s.len();
    let mut j = i;
    while j < n && quoted_inner_char(s, j, q)
        invariant
            i <= j <= n,
            quoted_end_at(s@, i as int, q) == quoted_end_at(s@, j as int, q),
        decreases n - j,
    {
        j = j + 1;
    }
    j
}

/// Parses one comment at `i`, returning its text and the position after it.
pub fn comment(s: &Vec<char>, i: usize) -> (r: Option<(String, usize)>)
    requires
        i <= s@.len(),
    ensures
        match r {
            Some((t, e)) => p_comment(s@, i as int) == Some(e as int) && t@ == s@.subrange(
                i as int + 1,
                line_end_at(s@, i as int + 1),
            ) && i < e <= s@.len(),
            None => p_comment(s@, i as int) is None,
        },
{
    if i < s.len() && s[i] == '#' {
        let e = line_end(s, i + 1);
        let t = text::chars_to_string(s, i + 1, e);
        if e == s.len() {
            Some((t, e))
        } else if s[e] == '\n' {
            Some((t, e + 1))
        } else if e + 1 < s.len() && s[e + 1] == '\n' {
            Some((t, e + 2))
        } else {
            None
        }
    } else {
        None
    }
}

/// Skips any run of blank space and comments, returning where it ends.
#[verifier::loop_isolation(false)]
pub fn blank_or_comment(s: &Vec<char>, i: usize) -> (r: usize)
    requires
        i <= s@.len(),
    ensures
        r == p_boc(s@, i as int),
        i <= r <= s@.len(),
{
    let n = s.len();
    let mut j = i;
    loop
        invariant
            i <= j <= n,
            p_boc(s@, i as int) == p_boc(s@, j as int),
        decreases n - j,
    {
        if j < n && exec_is_multispace_char_ref(s, j) {
            j = j + 1;
        } else {
            match comment(s, j) {
                Some((_, e)) => {
                    j = e;
                },
                None => {
                    return j;
                },
            }
        }
    }
}

/// Skips whitespace, at most one comment, then whitespace.
fn multispace0_comment(s: &Vec<char>, i: usize) -> (r: usize)
    requires
        i <= s@.len(),
    ensures
        r == p_msc(s@, i as int),
        i <= r <= s@.len(),
{
    let a = skip_multispaces(s, i);
    match comment(s, a) {
        Some((_, e)) => skip_multispaces(s, e),
        None => a,
    }
}


// ---------------------------------------------------------------------------
// Identifiers, quoted values, option blocks: the model
// ---------------------------------------------------------------------------
/// A character that can open (and close) a quoted identifier.
pub open spec fn is_quote_char(c: char) -> bool {
    c == '"' || c == '\'' || c == '`'
}

fn exec_is_quote_char(c: char) -> (r: bool)
    ensures
        r == is_quote_char(c),
{
    c == '"' || c == '\'' || c == '`'
}

/// A bare identifier: one or more word characters.
pub open spec fn p_ident_no_space(s: Seq<char>, i: int) -> Option<(Seq<char>, int)> {
    if 0 <= i < s.len() && is_word_char(s[i]) {
        Some((s.subrange(i, word_end_at(s, i)), word_end_at(s, i)))
    } else {
        None
    }
}

/// A quoted identifier: any run free of control characters and of the
/// opening quote, closed by the same quote.
pub open spec fn p_ident_quoted(s: Seq<char>, i: int) -> Option<(Seq<char>, int)> {
    if 0 <= i < s.len() && is_quote_char(s[i]) {
        if quoted_end_at(s, i + 1, s[i]) < s.len() && s[quoted_end_at(s, i + 1, s[i])] == s[i] {
            Some(
                (s.subrange(i + 1, quoted_end_at(s, i + 1, s[i])), quoted_end_at(s, i + 1, s[i])
                    + 1),
            )
        } else {
            None
        }
    } else {
        None
    }
}

/// An identifier with its surrounding horizontal whitespace: quoted if a
/// quote opens it, bare otherwise.
pub open spec fn p_ident(s: Seq<char>, i: int) -> Option<(Seq<char>, int)> {
    match p_ident_quoted(s, skip_spaces_at(s, i)) {
        Some((name, j)) => Some((name, skip_spaces_at(s, j))),
        None => match p_ident_no_space(s, skip_spaces_at(s, i)) {
            Some((name, j)) => Some((name, skip_spaces_at(s, j))),
            None => None,
        },
    }
}

/// A double-quoted option value: one or more characters other than `"`.
pub open spec fn p_quoted(s: Seq<char>, i: int) -> Option<(Seq<char>, int)> {
    if 0 <= i < s.len() && s[i] == '"' && value_end_at(s, i + 1) < s.len() && value_end_at(s, i + 1)
        > i + 1 {
        Some((s.subrange(i + 1, value_end_at(s, i + 1)), value_end_at(s, i + 1) + 1))
    } else {
        None
    }
}

/// One `key: "value"` pair: a bare alphanumeric key, a colon with optional
/// horizontal space around it, and a quoted value.
pub open spec fn p_option(s: Seq<char>, i: int) -> Option<(SpecPair, int)> {
    if 0 <= i < s.len() && alnum_end_at(s, i) > i {
        if skip_spaces_at(s, alnum_end_at(s, i)) < s.len() && s[skip_spaces_at(
            s,
            alnum_end_at(s, i),
        )] == ':' {
            match p_quoted(s, skip_spaces_at(s, skip_spaces_at(s, alnum_end_at(s, i)) + 1)) {
                Some((v, e)) => Some(((s.subrange(i, alnum_end_at(s, i)), v), e)),
                None => None,
            }
        } else {
            None
        }
    } else {
        None
    }
}

/// The pairs after the first one: each preceded by a comma with whitespace
/// and at most one comment on either side. Stops before anything that is
/// not a separator-and-pair; `j` is the position after the last pair taken.
pub open spec fn p_options_more(s: Seq<char>, j: int) -> (Seq<SpecPair>, int)
    decreases s.len() - j,
{
    if p_msc(s, j) < s.len() && s[p_msc(s, j)] == ',' {
        match p_option(s, p_msc(s, p_msc(s, j) + 1)) {
            // A pair always ends past the separator; the bounds keep the
            // recursion well-founded.
            Some((p, k)) => if j < k <= s.len() {
                (seq![p] + p_options_more(s, k).0, p_options_more(s, k).1)
            } else {
                (seq![p], k)
            },
            None => (Seq::empty(), j),
        }
    } else {
        (Seq::empty(), j)
    }
}

/// A possibly empty comma-separated list of pairs starting at `i`.
pub open spec fn p_options_items(s: Seq<char>, i: int) -> (Seq<SpecPair>, int) {
    match p_option(s, i) {
        Some((p, k)) => (seq![p] + p_options_more(s, k).0, p_options_more(s, k).1),
        None => (Seq::empty(), i),
    }
}

/// An option block: `{`, whitespace, the pair list, then any mix of
/// whitespace and commas with at most one comment, closed by `}`. The
/// pairs come back in written order, duplicates included.
pub open spec fn p_options(s: Seq<char>, i: int) -> Option<(Seq<SpecPair>, int)> {
    if 0 <= i < s.len() && s[i] == '{' {
        if skip_wscomma_at(
            s,
            p_msc(
                s,
                skip_wscomma_at(s, p_options_items(s, skip_multispaces_at(s, i + 1)).1),
            ),
        ) < s.len() && s[skip_wscomma_at(
            s,
            p_msc(
                s,
                skip_wscomma_at(s, p_options_items(s, skip_multispaces_at(s, i + 1)).1),
            ),
        )] == '}' {
            Some(
                (
                    p_options_items(s, skip_multispaces_at(s, i + 1)).0,
                    skip_wscomma_at(
                        s,
                        p_msc(
                            s,
                            skip_wscomma_at(
                                s,
                                p_options_items(s, skip_multispaces_at(s, i + 1)).1,
                            ),
                        ),
                    ) + 1,
                ),
            )
        } else {
            None
        }
    } else {
        None
    }
}

/// An optional option block with its surrounding whitespace, folded into a
/// mapping where the last write to a key wins. Absence of a block gives the
/// empty mapping.
pub open spec fn p_trailing(s: Seq<char>, i: int) -> (Seq<SpecPair>, int) {
    match p_options(s, skip_multispaces_at(s, i)) {
        Some((ps, j)) => (seq_extend(Seq::empty(), ps), skip_spaces_at(s, j)),
        None => (Seq::empty(), skip_multispaces_at(s, i)),
    }
}

/// A cardinality operator.
pub open spec fn p_card(s: Seq<char>, i: int) -> Option<(Cardinality, int)> {
    if 0 <= i < s.len() {
        if s[i] == '?' {
            Some((Cardinality::ZeroOne, i + 1))
        } else if s[i] == '1' {
            Some((Cardinality::One, i + 1))
        } else if s[i] == '*' {
            Some((Cardinality::ZeroPlus, i + 1))
        } else if s[i] == '+' {
            Some((Cardinality::OnePlus, i + 1))
        } else {
            None
        }
    } else {
        None
    }
}

/// The view of a vector of raw key-value pairs.
pub open spec fn raw_pairs_view(ps: Seq<(String, String)>) -> Seq<SpecPair> {
    Seq::new(
        ps.len(),
        |i: int|
            {
                let p = ps[i];
                (p.0@, p.1@)
            },
    )
}

// ---------------------------------------------------------------------------
// Identifiers, quoted values, option blocks: the parser
// ---------------------------------------------------------------------------
/// Parses a bare identifier at `i`.
pub fn ident_no_space(s: &Vec<char>, i: usize) -> (r: Option<(String, usize)>)
    requires
        i <= s@.len(),
    ensures
        match r {
            Some((t, e)) => p_ident_no_space(s@, i as int) == Some((t@, e as int)) && i < e
                <= s@.len(),
            None => p_ident_no_space(s@, i as int) is None,
        },
{
    if i < s.len() && exec_is_word_char_ref(s, i) {
        let e = word_end(s, i + 1);
        proof {
            assert(word_end_at(s@, i as int) == word_end_at(s@, i as int + 1));
        }
        Some((text::chars_to_string(s, i, e), e))
    } else {
        None
    }
}

/// Parses a quoted identifier at `i`.
pub fn ident_quoted(s: &Vec<char>, i: usize) -> (r: Option<(String, usize)>)
    requires
        i <= s@.len(),
    ensures
        match r {
            Some((t, e)) => p_ident_quoted(s@, i as int) == Some((t@, e as int)) && i < e
                <= s@.len(),
            None => p_ident_quoted(s@, i as int) is None,
        },
{
    if i < s.len() && exec_is_quote_char(s[i]) {
        let q = s[i];
        let e = quoted_end(s, i + 1, q);
        if e < s.len() && s[e] == q {
            Some((text::chars_to_string(s, i + 1, e), e + 1))
        } else {
            None
        }
    } else {
        None
    }
}

/// Parses an identifier at `i`, quoted or bare, with surrounding
/// horizontal whitespace.
pub fn ident(s: &Vec<char>, i: usize) -> (r: Option<(String, usize)>)
    requires
        i <= s@.len(),
    ensures
        match r {
            Some((t, e)) => p_ident(s@, i as int) == Some((t@, e as int)) && i < e <= s@.len(),
            None => p_ident(s@, i as int) is None,
        },
{
    let a = skip_spaces(s, i);
    match ident_quoted(s, a) {
        Some((t, j)) => Some((t, skip_spaces(s, j))),
        None => match ident_no_space(s, a) {
            Some((t, j)) => Some((t, skip_spaces(s, j))),
            None => None,
        },
    }
}

/// Parses a double-quoted option value at `i`.
pub fn quoted(s: &Vec<char>, i: usize) -> (r: Option<(String, usize)>)
    requires
        i <= s@.len(),
    ensures
        match r {
            Some((t, e)) => p_quoted(s@, i as int) == Some((t@, e as int)) && i < e <= s@.len(),
            None => p_quoted(s@, i as int) is None,
        },
{
    if i < s.len() && s[i] == '"' {
        let e = value_end(s, i + 1);
        if e < s.len() && e > i + 1 {
            Some((text::chars_to_string(s, i + 1, e), e + 1))
        } else {
            None
        }
    } else {
        None
    }
}

/// Parses one `key: "value"` pair at `i`.
pub fn option(s: &Vec<char>, i: usize) -> (r: Option<((String, String), usize)>)
    requires
        i <= s@.len(),
    ensures
        match r {
            Some((p, e)) => p_option(s@, i as int) == Some(((p.0@, p.1@), e as int)) && i < e
                <= s@.len(),
            None => p_option(s@, i as int) is None,
        },
{
    if i < s.len() && exec_is_alnum_char_ref(s, i) {
        let e = alnum_end(s, i + 1);
        proof {
            assert(alnum_end_at(s@, i as int) == alnum_end_at(s@, i as int + 1));
        }
        let a = skip_spaces(s, e);
        if a < s.len() && s[a] == ':' {
            let b = skip_spaces(s, a + 1);
            match quoted(s, b) {
                Some((v, k)) => Some(((text::chars_to_string(s, i, e), v), k)),
                None => None,
            }
        } else {
            None
        }
    } else {
        None
    }
}

/// Parses an option block at `i`, returning its pairs in written order
/// (duplicates included) and the position after the closing brace.
#[verifier::loop_isolation(false)]
pub fn options(s: &Vec<char>, i: usize) -> (r: Option<(Vec<(String, String)>, usize)>)
    requires
        i <= s@.len(),
    ensures
        match r {
            Some((ps, e)) => p_options(s@, i as int) == Some((raw_pairs_view(ps@), e as int)) && i
                < e <= s@.len(),
            None => p_options(s@, i as int) is None,
        },
{
    if !(i < s.len() && s[i] == '{') {
        return None;
    }
    let m0 = skip_multispaces(s, i + 1);
    let mut out: Vec<(String, String)> = Vec::new();
    let mut pos: usize = m0;
    let ghost items = p_options_items(s@, m0 as int);
    match option(s, m0) {
        None => {
            proof {
                assert(raw_pairs_view(out@) =~= Seq::<SpecPair>::empty());
                assert(items == (raw_pairs_view(out@), pos as int));
            }
        },
        Some((p, k)) => {
            out.push(p);
            pos = k;
            loop
                invariant
                    i < m0 <= pos <= s@.len(),
                    items.1 == p_options_more(s@, pos as int).1,
                    items.0 =~= raw_pairs_view(out@) + p_options_more(s@, pos as int).0,
                decreases s@.len() - pos,
            {
                let c = multispace0_comment(s, pos);
                if c < s.len() && s[c] == ',' {
                    let b = multispace0_comment(s, c + 1);
                    match option(s, b) {
                        Some((p2, k2)) => {
                            proof {
                                assert(raw_pairs_view(out@.push(p2)) =~= raw_pairs_view(
                                    out@,
                                ).push((p2.0@, p2.1@)));
                                assert(items.0 =~= raw_pairs_view(out@.push(p2))
                                    + p_options_more(s@, k2 as int).0);
                            }
                            out.push(p2);
                            pos = k2;
                        },
                        None => {
                            break ;
                        },
                    }
                } else {
                    break ;
                }
            }
            proof {
                assert(p_options_more(s@, pos as int).0 =~= Seq::<SpecPair>::empty());
                assert(items.0 =~= raw_pairs_view(out@));
            }
        },
    }
    let c1 = skip_wscomma(s, pos);
    let c2 = multispace0_comment(s, c1);
    let c3 = skip_wscomma(s, c2);
    if c3 < s.len() && s[c3] == '}' {
        Some((out, c3 + 1))
    } else {
        None
    }
}

/// Folds raw pairs into a mapping, in order: the last write to a key wins.
#[verifier::loop_isolation(false)]
fn fold_raw_pairs(ps: &Vec<(String, String)>) -> (m: OptionMap)
    ensures
        m@ == seq_extend(Seq::<SpecPair>::empty(), raw_pairs_view(ps@)),
        m.wf(),
{
    let ghost qs = raw_pairs_view(ps@);
    let mut m = OptionMap::new();
    let n = ps.len();
    let mut t: usize = 0;
    while t < n
        invariant
            t <= n,
            n == ps@.len(),
            m@ == seq_extend(Seq::<SpecPair>::empty(), qs.take(t as int)),
            m.wf(),
        decreases n - t,
    {
        let p = &ps[t];
        m.insert(p.0.clone(), p.1.clone());
        proof {
            assert(qs.take(t as int + 1).drop_last() =~= qs.take(t as int));
            assert(qs.take(t as int + 1).last() == qs[t as int]);
        }
        t = t + 1;
    }
    proof {
        assert(qs.take(n as int) =~= qs);
    }
    m
}

/// Parses an optional trailing option block, folded into a mapping.
pub fn trailing_options(s: &Vec<char>, i: usize) -> (r: (OptionMap, usize))
    requires
        i <= s@.len(),
    ensures
        p_trailing(s@, i as int).0 == r.0@,
        p_trailing(s@, i as int).1 == r.1 as int,
        r.0.wf(),
        i <= r.1 <= s@.len(),
{
    let a = skip_multispaces(s, i);
    match options(s, a) {
        Some((ps, j)) => {
            let m = fold_raw_pairs(&ps);
            (m, skip_spaces(s, j))
        },
        None => (OptionMap::new(), a),
    }
}

/// Parses one cardinality operator at `i`.
pub fn cardinality(s: &Vec<char>, i: usize) -> (r: Option<(Cardinality, usize)>)
    requires
        i <= s@.len(),
    ensures
        match r {
            Some((c, e)) => p_card(s@, i as int) == Some((c, e as int)) && i < e <= s@.len(),
            None => p_card(s@, i as int) is None,
        },
{
    if i < s.len() {
        let c = s[i];
        if c == '?' {
            Some((Cardinality::ZeroOne, i + 1))
        } else if c == '1' {
            Some((Cardinality::One, i + 1))
        } else if c == '*' {
            Some((Cardinality::ZeroPlus, i + 1))
        } else if c == '+' {
            Some((Cardinality::OnePlus, i + 1))
        } else {
            None
        }
    } else {
        None
    }
}


// ---------------------------------------------------------------------------
// Statements
// ---------------------------------------------------------------------------
/// The outcome of trying one statement form at a position: it matched and
/// produced a value, it did not apply (another form may), or it matched
/// structurally but carries an invalid option block, which rejects the
/// whole document.
pub enum Step<T> {
    Found(T, usize),
    NoMatch,
    Failed(ErdParseError),
}

pub enum StepV<T> {
    Found(T, int),
    NoMatch,
    Failed(ErdParseErrorV),
}

impl<T: View> View for Step<T> {
    type V = StepV<T::V>;

    open spec fn view(&self) -> StepV<T::V> {
        match self {
            Step::Found(t, j) => StepV::Found(t@, *j as int),
            Step::NoMatch => StepV::NoMatch,
            Step::Failed(e) => StepV::Failed(e@),
        }
    }
}

/// An entity statement: `[`, an identifier, `]`, then an optional option
/// block that both the entity and the header group validate.
pub open spec fn p_entity(s: Seq<char>, i: int) -> StepV<EntityV> {
    if 0 <= i < s.len() && s[i] == '[' {
        match p_ident(s, i + 1) {
            Some((name, j)) => if j < s.len() && s[j] == ']' {
                match entity_apply(entity_default(), p_trailing(s, j + 1).0) {
                    Ok(eo) => match header_apply(header_default(), p_trailing(s, j + 1).0) {
                        Ok(ho) => StepV::Found(
                            EntityV {
                                name: name,
                                attribs: Seq::empty(),
                                options: eo,
                                header_options: ho,
                                local_options: p_trailing(s, j + 1).0,
                            },
                            p_trailing(s, j + 1).1,
                        ),
                        Err(e) => StepV::Failed(e),
                    },
                    Err(e) => StepV::Failed(e),
                }
            } else {
                StepV::NoMatch
            },
            None => StepV::NoMatch,
        }
    } else {
        StepV::NoMatch
    }
}

/// Whether one of the marker characters before an attribute name is `c`.
pub open spec fn has_marker(s: Seq<char>, i: int, m: int, c: char) -> bool {
    exists|t: int| i <= t < m && s[t] == c
}

/// An attribute statement: markers (`*` primary key, `+` foreign key,
/// blanks ignored; repetition is idempotent), an identifier, then an
/// optional option block validated against the attribute vocabulary.
pub open spec fn p_attribute(s: Seq<char>, i: int) -> StepV<AttributeV> {
    match p_ident(s, marker_end_at(s, i)) {
        Some((f, j)) => match attribute_apply(attribute_default(), p_trailing(s, j).0) {
            Ok(ao) => StepV::Found(
                AttributeV {
                    field: f,
                    pk: has_marker(s, i, marker_end_at(s, i), '*'),
                    fk: has_marker(s, i, marker_end_at(s, i), '+'),
                    options: ao,
                },
                p_trailing(s, j).1,
            ),
            Err(e) => StepV::Failed(e),
        },
        None => StepV::NoMatch,
    }
}

/// A relationship statement: identifier, cardinality, `--`, cardinality,
/// identifier, then an optional option block validated against the
/// relationship vocabulary.
pub open spec fn p_relation(s: Seq<char>, i: int) -> StepV<RelationV> {
    match p_ident(s, i) {
        Some((e1, a)) => match p_card(s, a) {
            Some((c1, b)) => if b + 1 < s.len() && s[b] == '-' && s[b + 1] == '-' {
                match p_card(s, b + 2) {
                    Some((c2, c)) => match p_ident(s, c) {
                        Some((e2, d)) => match relationship_apply(
                            relationship_default(),
                            p_trailing(s, d).0,
                        ) {
                            Ok(ro) => StepV::Found(
                                RelationV {
                                    entity1: e1,
                                    entity2: e2,
                                    card1: c1,
                                    card2: c2,
                                    options: ro,
                                    local_options: p_trailing(s, d).0,
                                },
                                p_trailing(s, d).1,
                            ),
                            Err(e) => StepV::Failed(e),
                        },
                        None => StepV::NoMatch,
                    },
                    None => StepV::NoMatch,
                }
            } else {
                StepV::NoMatch
            },
            None => StepV::NoMatch,
        },
        None => StepV::NoMatch,
    }
}

/// Whether the characters of `kw` stand at position `i` of `s`.
pub open spec fn match_kw(s: Seq<char>, i: int, kw: Seq<char>) -> bool {
    0 <= i && i + kw.len() <= s.len() && s.subrange(i, i + kw.len()) == kw
}

/// What follows a directive keyword: the option block is required (it may
/// be empty), else the keyword is an ordinary identifier.
pub open spec fn p_global_tail(s: Seq<char>, j: int, ty: GlobalOptionType) -> StepV<
    GlobalOptionV,
> {
    if skip_multispaces_at(s, j) < s.len() && s[skip_multispaces_at(s, j)] == '{' {
        StepV::Found(
            GlobalOptionV { option_type: ty, options: p_trailing(s, j).0 },
            p_trailing(s, j).1,
        )
    } else {
        StepV::NoMatch
    }
}

/// A global directive: one of the category keywords followed by an option
/// block.
pub open spec fn p_global(s: Seq<char>, i: int) -> StepV<GlobalOptionV> {
    if match_kw(s, i, "title"@) {
        p_global_tail(s, i + "title"@.len(), GlobalOptionType::Title)
    } else if match_kw(s, i, "header"@) {
        p_global_tail(s, i + "header"@.len(), GlobalOptionType::Header)
    } else if match_kw(s, i, "entity"@) {
        p_global_tail(s, i + "entity"@.len(), GlobalOptionType::Entity)
    } else if match_kw(s, i, "relationship"@) {
        p_global_tail(s, i + "relationship"@.len(), GlobalOptionType::Relationship)
    } else {
        StepV::NoMatch
    }
}

/// One statement, tried as ordered alternatives: global directive, entity,
/// relationship, then attribute.
pub open spec fn p_statement(s: Seq<char>, i: int) -> StepV<AstV> {
    match p_global(s, i) {
        StepV::Found(g, j) => StepV::Found(AstV::GlobalOption(g), j),
        StepV::Failed(e) => StepV::Failed(e),
        StepV::NoMatch => match p_entity(s, i) {
            StepV::Found(en, j) => StepV::Found(AstV::Entity(en), j),
            StepV::Failed(e) => StepV::Failed(e),
            StepV::NoMatch => match p_relation(s, i) {
                StepV::Found(r, j) => StepV::Found(AstV::Relation(r), j),
                StepV::Failed(e) => StepV::Failed(e),
                StepV::NoMatch => match p_attribute(s, i) {
                    StepV::Found(a, j) => StepV::Found(AstV::Attribute(a), j),
                    StepV::Failed(e) => StepV::Failed(e),
                    StepV::NoMatch => StepV::NoMatch,
                },
            },
        },
    }
}

/// Parses an entity statement at `i`.
pub fn entity(s: &Vec<char>, i: usize) -> (r: Step<Entity>)
    requires
        i <= s@.len(),
    ensures
        r@ == p_entity(s@, i as int),
        (match r {
            Step::Found(_, e) => i < e <= s@.len(),
            _ => true,
        }),
{
    if !(i < s.len() && s[i] == '[') {
        return Step::NoMatch;
    }
    match ident(s, i + 1) {
        None => Step::NoMatch,
        Some((name, j)) => {
            if !(j < s.len() && s[j] == ']') {
                return Step::NoMatch;
            }
            let (opts, k) = trailing_options(s, j + 1);
            match EntityOptions::from_hashmap(&opts) {
                Err(e) => Step::Failed(e),
                Ok(eo) => match HeaderOptions::from_hashmap(&opts) {
                    Err(e) => Step::Failed(e),
                    Ok(ho) => {
                        let ent = Entity {
                            name: name,
                            attribs: Vec::new(),
                            options: eo,
                            header_options: ho,
                            local_options: opts,
                        };
                        proof {
                            assert(ent.attribs@.map_values(|a: Attribute| a@)
                                =~= Seq::<crate::ast::AttributeV>::empty());
                        }
                        Step::Found(ent, k)
                    },
                },
            }
        },
    }
}

fn find_marker(s: &Vec<char>, i: usize, m: usize, c: char) -> (r: bool)
    requires
        i <= m <= s@.len(),
    ensures
        r == has_marker(s@, i as int, m as int, c),
{
    let mut t = i;
    let mut found = false;
    while t < m
        invariant
            i <= t <= m <= s@.len(),
            found == has_marker(s@, i as int, t as int, c),
        decreases m - t,
    {
        if s[t] == c {
            proof {
                assert(s@[t as int] == c);
            }
            found = true;
        }
        t = t + 1;
    }
    found
}

/// Parses an attribute statement at `i`. Marker repetition is idempotent:
/// the key flags say only whether the marker occurs, not how often.
pub fn attribute(s: &Vec<char>, i: usize) -> (r: Step<Attribute>)
    requires
        i <= s@.len(),
    ensures
        r@ == p_attribute(s@, i as int),
        (match r {
            Step::Found(_, e) => i < e <= s@.len(),
            _ => true,
        }),
        (match r {
            Step::Found(a, _) => a.pk == has_marker(s@, i as int, marker_end_at(s@, i as int), '*')
                && a.fk == has_marker(s@, i as int, marker_end_at(s@, i as int), '+'),
            _ => true,
        }),
{
    let m = marker_end(s, i);
    match ident(s, m) {
        None => Step::NoMatch,
        Some((f, j)) => {
            let (opts, k) = trailing_options(s, j);
            match AttributeOptions::from_hashmap(&opts) {
                Err(e) => Step::Failed(e),
                Ok(ao) => {
                    let pk = find_marker(s, i, m, '*');
                    let fk = find_marker(s, i, m, '+');
                    Step::Found(Attribute { field: f, pk: pk, fk: fk, options: ao }, k)
                },
            }
        },
    }
}

/// Parses a relationship statement at `i`.
pub fn relation(s: &Vec<char>, i: usize) -> (r: Step<Relation>)
    requires
        i <= s@.len(),
    ensures
        r@ == p_relation(s@, i as int),
        (match r {
            Step::Found(_, e) => i < e <= s@.len(),
            _ => true,
        }),
{
    match ident(s, i) {
        None => Step::NoMatch,
        Some((e1, a)) => match cardinality(s, a) {
            None => Step::NoMatch,
            Some((c1, b)) => {
                if !(b < s.len() && s[b] == '-' && b + 1 < s.len() && s[b + 1] == '-') {
                    return Step::NoMatch;
                }
                match cardinality(s, b + 2) {
                    None => Step::NoMatch,
                    Some((c2, c)) => match ident(s, c) {
                        None => Step::NoMatch,
                        Some((e2, d)) => {
                            let (opts, k) = trailing_options(s, d);
                            match RelationshipOptions::from_hashmap(&opts) {
                                Err(e) => Step::Failed(e),
                                Ok(ro) => Step::Found(
                                    Relation {
                                        entity1: e1,
                                        entity2: e2,
                                        card1: c1,
                                        card2: c2,
                                        options: ro,
                                        local_options: opts,
                                    },
                                    k,
                                ),
                            }
                        },
                    },
                }
            },
        },
    }
}

/// Whether the keyword stands at `i`.
fn kw_at(s: &Vec<char>, i: usize, kw: &str) -> (r: bool)
    requires
        i <= s@.len(),
    ensures
        r == match_kw(s@, i as int, kw@),
{
    let klen = kw.unicode_len();
    if klen > s.len() - i {
        return false;
    }
    let t = text::chars_to_string(s, i, i + klen);
    text::str_eq(t.as_str(), kw)
}

fn global_tail(s: &Vec<char>, j: usize, ty: GlobalOptionType) -> (r: Step<GlobalOption>)
    requires
        j <= s@.len(),
    ensures
        r@ == p_global_tail(s@, j as int, ty),
        (match r {
            Step::Found(_, e) => j <= e <= s@.len(),
            _ => true,
        }),
{
    let a = skip_multispaces(s, j);
    if a < s.len() && s[a] == '{' {
        let (m, e) = trailing_options(s, j);
        Step::Found(GlobalOption { option_type: ty, options: m }, e)
    } else {
        Step::NoMatch
    }
}

/// Parses a global directive at `i`.
pub fn global_option(s: &Vec<char>, i: usize) -> (r: Step<GlobalOption>)
    requires
        i <= s@.len(),
    ensures
        r@ == p_global(s@, i as int),
        (match r {
            Step::Found(_, e) => i < e <= s@.len(),
            _ => true,
        }),
{
    let n = s.len();
    if kw_at(s, i, "title") {
        proof {
            reveal_strlit("title");
        }
        global_tail(s, i + 5, GlobalOptionType::Title)
    } else if kw_at(s, i, "header") {
        proof {
            reveal_strlit("header");
        }
        global_tail(s, i + 6, GlobalOptionType::Header)
    } else if kw_at(s, i, "entity") {
        proof {
            reveal_strlit("entity");
        }
        global_tail(s, i + 6, GlobalOptionType::Entity)
    } else if kw_at(s, i, "relationship") {
        proof {
            reveal_strlit("relationship");
        }
        global_tail(s, i + 12, GlobalOptionType::Relationship)
    } else {
        Step::NoMatch
    }
}

/// Parses one statement at `i`, whatever its form.
fn statement(s: &Vec<char>, i: usize) -> (r: Step<Ast>)
    requires
        i <= s@.len(),
    ensures
        r@ == p_statement(s@, i as int),
        (match r {
            Step::Found(_, e) => i < e <= s@.len(),
            _ => true,
        }),
{
    match global_option(s, i) {
        Step::Found(g, j) => Step::Found(Ast::GlobalOption(g), j),
        Step::Failed(e) => Step::Failed(e),
        Step::NoMatch => match entity(s, i) {
            Step::Found(en, j) => Step::Found(Ast::Entity(en), j),
            Step::Failed(e) => Step::Failed(e),
            Step::NoMatch => match relation(s, i) {
                Step::Found(r2, j) => Step::Found(Ast::Relation(r2), j),
                Step::Failed(e) => Step::Failed(e),
                Step::NoMatch => match attribute(s, i) {
                    Step::Found(a, j) => Step::Found(Ast::Attribute(a), j),
                    Step::Failed(e) => Step::Failed(e),
                    Step::NoMatch => Step::NoMatch,
                },
            },
        },
    }
}


// ---------------------------------------------------------------------------
// The document
// ---------------------------------------------------------------------------
/// The statement list of a document, from position `i`: statements
/// separated by blank space and comments, until the input ends. Anything
/// that matches no statement form is a syntax error at its position.
pub open spec fn p_statements(s: Seq<char>, i: int) -> Result<Seq<AstV>, ErdParseErrorV>
    decreases s.len() - i,
{
    if p_boc(s, i) >= s.len() {
        Ok(Seq::empty())
    } else {
        match p_statement(s, p_boc(s, i)) {
            // A statement always ends past where it starts; the bounds
            // keep the recursion well-founded.
            StepV::Found(a, j) => if i < j <= s.len() {
                match p_statements(s, j) {
                    Ok(rest) => Ok(seq![a] + rest),
                    Err(e) => Err(e),
                }
            } else {
                Err(ErdParseErrorV::Syntax { pos: p_boc(s, i) })
            },
            StepV::NoMatch => Err(ErdParseErrorV::Syntax { pos: p_boc(s, i) }),
            StepV::Failed(e) => Err(e),
        }
    }
}

/// A statement list with `pre` already parsed in front of it.
pub open spec fn prepend_stmts(pre: Seq<AstV>, r: Result<Seq<AstV>, ErdParseErrorV>) -> Result<
    Seq<AstV>,
    ErdParseErrorV,
> {
    match r {
        Ok(rest) => Ok(pre + rest),
        Err(e) => Err(e),
    }
}

/// The view of a statement vector.
pub open spec fn stmts_view(v: Seq<Ast>) -> Seq<AstV> {
    v.map_values(|a: Ast| a@)
}

/// Parses a whole document into its statement list.
#[verifier::loop_isolation(false)]
pub fn parse(s: &Vec<char>) -> (r: Result<Vec<Ast>, ErdParseError>)
    ensures
        p_statements(s@, 0) is Ok ==> r is Ok && stmts_view(r->Ok_0@) == p_statements(s@, 0)->Ok_0,
        p_statements(s@, 0) is Err ==> r is Err && r->Err_0@ == p_statements(s@, 0)->Err_0,
{
    let n = s.len();
    let mut stmts: Vec<Ast> = Vec::new();
    let mut i: usize = 0;
    proof {
        assert(stmts_view(stmts@) =~= Seq::<AstV>::empty());
    }
    loop
        invariant
            i <= n,
            prepend_stmts(stmts_view(stmts@), p_statements(s@, i as int)) == p_statements(s@, 0),
        decreases n - i,
    {
        let b = blank_or_comment(s, i);
        if b == n {
            proof {
                assert(stmts_view(stmts@) + Seq::<AstV>::empty() =~= stmts_view(stmts@));
            }
            return Ok(stmts);
        }
        match statement(s, b) {
            Step::Found(a, j) => {
                proof {
                    assert(stmts_view(stmts@.push(a)) =~= stmts_view(stmts@).push(a@));
                    if p_statements(s@, j as int) is Ok {
                        assert(stmts_view(stmts@) + (seq![a@] + p_statements(s@, j as int)->Ok_0)
                            =~= stmts_view(stmts@).push(a@) + p_statements(s@, j as int)->Ok_0);
                    }
                }
                stmts.push(a);
                i = j;
            },
            Step::NoMatch => {
                return Err(ErdParseError::Syntax { pos: b });
            },
            Step::Failed(e) => {
                return Err(e);
            },
        }
    }
}

// ---------------------------------------------------------------------------
// Assembling and resolving the document
// ---------------------------------------------------------------------------
/// The assembler's running state: the entities and relations seen so far,
/// and the four directive accumulators.
pub struct AccV {
    pub entities: Seq<EntityV>,
    pub relationships: Seq<RelationV>,
    pub title_d: Seq<SpecPair>,
    pub header_d: Seq<SpecPair>,
    pub entity_d: Seq<SpecPair>,
    pub relationship_d: Seq<SpecPair>,
}

/// The state before any statement.
pub open spec fn acc_empty() -> AccV {
    AccV {
        entities: Seq::empty(),
        relationships: Seq::empty(),
        title_d: Seq::empty(),
        header_d: Seq::empty(),
        entity_d: Seq::empty(),
        relationship_d: Seq::empty(),
    }
}

/// One statement's effect on the state. An attribute joins the most
/// recently declared entity; with no entity before it, the document is
/// rejected. A directive overlays its pairs onto its category's
/// accumulator, later writes winning.
pub open spec fn collect_step(acc: AccV, a: AstV) -> Result<AccV, ErdParseErrorV> {
    match a {
        AstV::Entity(e) => Ok(AccV { entities: acc.entities.push(e), ..acc }),
        AstV::Relation(r) => Ok(AccV { relationships: acc.relationships.push(r), ..acc }),
        AstV::Attribute(at) => if acc.entities.len() == 0 {
            Err(ErdParseErrorV::AttributeWithoutEntity)
        } else {
            Ok(
                AccV {
                    entities: acc.entities.update(
                        acc.entities.len() - 1,
                        EntityV {
                            attribs: acc.entities.last().attribs.push(at),
                            ..acc.entities.last()
                        },
                    ),
                    ..acc
                },
            )
        },
        AstV::GlobalOption(g) => match g.option_type {
            GlobalOptionType::Title => Ok(
                AccV { title_d: seq_extend(acc.title_d, g.options), ..acc },
            ),
            GlobalOptionType::Header => Ok(
                AccV { header_d: seq_extend(acc.header_d, g.options), ..acc },
            ),
            GlobalOptionType::Entity => Ok(
                AccV { entity_d: seq_extend(acc.entity_d, g.options), ..acc },
            ),
            GlobalOptionType::Relationship => Ok(
                AccV { relationship_d: seq_extend(acc.relationship_d, g.options), ..acc },
            ),
        },
    }
}

/// Folds the remaining statements into the state, first statement first.
pub open spec fn collect_from(acc: AccV, stmts: Seq<AstV>) -> Result<AccV, ErdParseErrorV>
    decreases stmts.len(),
{
    if stmts.len() == 0 {
        Ok(acc)
    } else {
        match collect_step(acc, stmts[0]) {
            Ok(a2) => collect_from(a2, stmts.drop_first()),
            Err(e) => Err(e),
        }
    }
}

/// Resolves one entity: the entity and header accumulators fill in, as
/// defaults, only the keys the entity's own block did not set.
pub open spec fn resolve_entity(e: EntityV, ent_d: Seq<SpecPair>, hdr_d: Seq<SpecPair>) -> Result<
    EntityV,
    ErdParseErrorV,
> {
    match entity_apply(e.options, seq_minus(ent_d, e.local_options)) {
        Err(er) => Err(er),
        Ok(eo) => match header_apply(e.header_options, seq_minus(hdr_d, e.local_options)) {
            Err(er) => Err(er),
            Ok(ho) => Ok(EntityV { options: eo, header_options: ho, ..e }),
        },
    }
}

/// Resolves the remaining entities in order, keeping the ones already done.
pub open spec fn resolve_entities_from(
    done: Seq<EntityV>,
    todo: Seq<EntityV>,
    ent_d: Seq<SpecPair>,
    hdr_d: Seq<SpecPair>,
) -> Result<Seq<EntityV>, ErdParseErrorV>
    decreases todo.len(),
{
    if todo.len() == 0 {
        Ok(done)
    } else {
        match resolve_entity(todo[0], ent_d, hdr_d) {
            Err(e) => Err(e),
            Ok(e2) => resolve_entities_from(done.push(e2), todo.drop_first(), ent_d, hdr_d),
        }
    }
}

/// Resolves one relation the same way, against the relationship
/// accumulator.
pub open spec fn resolve_relation(r: RelationV, rel_d: Seq<SpecPair>) -> Result<
    RelationV,
    ErdParseErrorV,
> {
    match relationship_apply(r.options, seq_minus(rel_d, r.local_options)) {
        Err(er) => Err(er),
        Ok(ro) => Ok(RelationV { options: ro, ..r }),
    }
}

/// Resolves the remaining relations in order, keeping the ones already
/// done.
pub open spec fn resolve_relations_from(
    done: Seq<RelationV>,
    todo: Seq<RelationV>,
    rel_d: Seq<SpecPair>,
) -> Result<Seq<RelationV>, ErdParseErrorV>
    decreases todo.len(),
{
    if todo.len() == 0 {
        Ok(done)
    } else {
        match resolve_relation(todo[0], rel_d) {
            Err(e) => Err(e),
            Ok(r2) => resolve_relations_from(done.push(r2), todo.drop_first(), rel_d),
        }
    }
}

/// The whole pipeline on one document: parse the statement list, fold it
/// into the state, then resolve every entity, every relation and the
/// title. The first error anywhere rejects the document.
pub open spec fn p_erd(s: Seq<char>) -> Result<ErdV, ErdParseErrorV> {
    match p_statements(s, 0) {
        Err(e) => Err(e),
        Ok(stmts) => match collect_from(acc_empty(), stmts) {
            Err(e) => Err(e),
            Ok(acc) => match resolve_entities_from(
                Seq::empty(),
                acc.entities,
                acc.entity_d,
                acc.header_d,
            ) {
                Err(e) => Err(e),
                Ok(es) => match resolve_relations_from(
                    Seq::empty(),
                    acc.relationships,
                    acc.relationship_d,
                ) {
                    Err(e) => Err(e),
                    Ok(rs) => match title_apply(title_default(), acc.title_d) {
                        Err(e) => Err(e),
                        Ok(t) => Ok(ErdV { entities: es, relationships: rs, title_options: t }),
                    },
                },
            },
        },
    }
}

/// The view of an entity vector.
pub open spec fn entities_view(v: Seq<Entity>) -> Seq<EntityV> {
    v.map_values(|e: Entity| e@)
}

/// The view of a relation vector.
pub open spec fn relations_view(v: Seq<Relation>) -> Seq<RelationV> {
    v.map_values(|r: Relation| r@)
}

/// Parses and resolves a whole ERD document.
#[verifier::loop_isolation(false)]
pub fn parse_erd(input: &str) -> (r: Result<Erd, ErdParseError>)
    ensures
        p_erd(input@) is Ok ==> r is Ok && r->Ok_0@ == p_erd(input@)->Ok_0,
        p_erd(input@) is Err ==> r is Err && r->Err_0@ == p_erd(input@)->Err_0,
{
    let chars = text::str_chars(input);
    let mut stmts: Vec<Ast> = match parse(&chars) {
        Ok(v) => v,
        Err(e) => {
            return Err(e);
        },
    };
    let ghost full = stmts_view(stmts@);
    let mut entities: Vec<Entity> = Vec::new();
    let mut relationships: Vec<Relation> = Vec::new();
    let mut title_d = OptionMap::new();
    let mut header_d = OptionMap::new();
    let mut entity_d = OptionMap::new();
    let mut relationship_d = OptionMap::new();
    let ghost mut t: int = 0;
    proof {
        assert(entities_view(entities@) =~= Seq::<EntityV>::empty());
        assert(relations_view(relationships@) =~= Seq::<RelationV>::empty());
        assert(full.skip(0) =~= full);
    }
    while stmts.len() > 0
        invariant
            0 <= t <= full.len(),
            stmts_view(stmts@) == full.skip(t),
            title_d.wf(),
            header_d.wf(),
            entity_d.wf(),
            relationship_d.wf(),
            collect_from(acc_empty(), full) == collect_from(
                (AccV {
                    entities: entities_view(entities@),
                    relationships: relations_view(relationships@),
                    title_d: title_d@,
                    header_d: header_d@,
                    entity_d: entity_d@,
                    relationship_d: relationship_d@,
                }),
                full.skip(t),
            ),
        decreases stmts@.len(),
    {
        let ghost ev0 = entities_view(entities@);
        let a = stmts.remove(0);
        proof {
            assert(a@ == full.skip(t)[0]);
            assert(full.skip(t).drop_first() =~= full.skip(t + 1));
            assert(stmts_view(stmts@) =~= full.skip(t + 1));
        }
        match a {
            Ast::Entity(e) => {
                proof {
                    assert(entities_view(entities@.push(e)) =~= entities_view(
                        entities@,
                    ).push(e@));
                }
                entities.push(e);
            },
            Ast::Relation(rel) => {
                proof {
                    assert(relations_view(relationships@.push(rel)) =~= relations_view(
                        relationships@,
                    ).push(rel@));
                }
                relationships.push(rel);
            },
            Ast::Attribute(at) => {
                let ghost atv = at@;
                match entities.pop() {
                    None => {
                        return Err(ErdParseError::AttributeWithoutEntity);
                    },
                    Some(mut e) => {
                        proof {
                            assert(entities_view(entities@).push(e@) =~= ev0);
                            assert(e@ == ev0.last());
                        }
                        e.add_attribute(at);
                        proof {
                            assert(entities_view(entities@).push(e@) =~= ev0.update(
                                ev0.len() - 1,
                                (EntityV { attribs: ev0.last().attribs.push(atv), ..ev0.last() }),
                            ));
                            assert(entities_view(entities@.push(e)) =~= entities_view(
                                entities@,
                            ).push(e@));
                        }
                        entities.push(e);
                    },
                }
            },
            Ast::GlobalOption(g) => {
                match g.option_type {
                    GlobalOptionType::Title => title_d.extend(&g.options),
                    GlobalOptionType::Header => header_d.extend(&g.options),
                    GlobalOptionType::Entity => entity_d.extend(&g.options),
                    GlobalOptionType::Relationship => relationship_d.extend(&g.options),
                }
            },
        }
        proof {
            t = t + 1;
        }
    }
    proof {
        assert(full.skip(t) =~= Seq::<AstV>::empty());
    }
    let ghost acc = AccV {
        entities: entities_view(entities@),
        relationships: relations_view(relationships@),
        title_d: title_d@,
        header_d: header_d@,
        entity_d: entity_d@,
        relationship_d: relationship_d@,
    };
    // Resolve the entities in declaration order.
    let ghost ent_full = entities_view(entities@);
    let mut resolved_entities: Vec<Entity> = Vec::new();
    proof {
        assert(entities_view(resolved_entities@) =~= Seq::<EntityV>::empty());
        assert(ent_full.skip(0) =~= ent_full);
    }
    let ghost mut u: int = 0;
    while entities.len() > 0
        invariant
            0 <= u <= ent_full.len(),
            entities_view(entities@) == ent_full.skip(u),
            entity_d@ == acc.entity_d,
            header_d@ == acc.header_d,
            entity_d.wf(),
            header_d.wf(),
            resolve_entities_from(Seq::empty(), ent_full, acc.entity_d, acc.header_d)
                == resolve_entities_from(
                entities_view(resolved_entities@),
                ent_full.skip(u),
                acc.entity_d,
                acc.header_d,
            ),
        decreases entities@.len(),
    {
        let mut e = entities.remove(0);
        proof {
            assert(e@ == ent_full.skip(u)[0]);
            assert(ent_full.skip(u).drop_first() =~= ent_full.skip(u + 1));
            assert(entities_view(entities@) =~= ent_full.skip(u + 1));
        }
        let ed = entity_d.without_keys(&e.local_options);
        match e.options.merge_hashmap(&ed) {
            Err(er) => {
                return Err(er);
            },
            Ok(_) => {},
        }
        let hd = header_d.without_keys(&e.local_options);
        match e.header_options.merge_hashmap(&hd) {
            Err(er) => {
                return Err(er);
            },
            Ok(_) => {},
        }
        proof {
            assert(entities_view(resolved_entities@.push(e)) =~= entities_view(
                resolved_entities@,
            ).push(e@));
        }
        resolved_entities.push(e);
        proof {
            u = u + 1;
        }
    }
    proof {
        assert(ent_full.skip(u) =~= Seq::<EntityV>::empty());
    }
    // Resolve the relations in declaration order.
    let ghost rel_full = relations_view(relationships@);
    let mut resolved_relations: Vec<Relation> = Vec::new();
    proof {
        assert(relations_view(resolved_relations@) =~= Seq::<RelationV>::empty());
        assert(rel_full.skip(0) =~= rel_full);
    }
    let ghost mut w: int = 0;
    while relationships.len() > 0
        invariant
            0 <= w <= rel_full.len(),
            relations_view(relationships@) == rel_full.skip(w),
            relationship_d@ == acc.relationship_d,
            relationship_d.wf(),
            resolve_relations_from(Seq::empty(), rel_full, acc.relationship_d)
                == resolve_relations_from(
                relations_view(resolved_relations@),
                rel_full.skip(w),
                acc.relationship_d,
            ),
        decreases relationships@.len(),
    {
        let mut rel = relationships.remove(0);
        proof {
            assert(rel@ == rel_full.skip(w)[0]);
            assert(rel_full.skip(w).drop_first() =~= rel_full.skip(w + 1));
            assert(relations_view(relationships@) =~= rel_full.skip(w + 1));
        }
        let rd = relationship_d.without_keys(&rel.local_options);
        match rel.options.merge_hashmap(&rd) {
            Err(er) => {
                return Err(er);
            },
            Ok(_) => {},
        }
        proof {
            assert(relations_view(resolved_relations@.push(rel)) =~= relations_view(
                resolved_relations@,
            ).push(rel@));
        }
        resolved_relations.push(rel);
        proof {
            w = w + 1;
        }
    }
    proof {
        assert(rel_full.skip(w) =~= Seq::<RelationV>::empty());
    }
    // Resolve the title block.
    let mut title_options = TitleOptions::default();
    match title_options.merge_hashmap(&title_d) {
        Err(er) => {
            return Err(er);
        },
        Ok(_) => {},
    }
    Ok(
        Erd {
            entities: resolved_entities,
            relationships: resolved_relations,
            title_options: title_options,
        },
    )
}

} // verus!
