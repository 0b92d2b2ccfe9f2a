//! The diagram model: entities, attributes, relations, cardinalities, and
//! the option groups that style them, together with the option-merge
//! semantics that folds a key-value mapping into each group.

use vstd::prelude::*;

use crate::options::{OptionMap, SpecPair};
use crate::text;

verus! {

/// The option group an error speaks about.
#[derive(Copy, Clone, Debug, PartialEq, Eq, Structural)]
pub enum OptionGroup {
    Title,
    Header,
    Entity,
    Attribute,
    Relationship,
}

/// Why a document was rejected.
#[derive(Debug, Clone, PartialEq, Eq)]
pub enum ErdParseError {
    /// No statement form matches at this character position.
    Syntax { pos: usize },
    /// An option key that the named group does not recognize.
    UnknownOption { group: OptionGroup, key: String },
    /// A numeric option whose value is not a small non-negative integer.
    InvalidNumber { group: OptionGroup, key: String, value: String },
    /// An attribute statement with no entity declared before it.
    AttributeWithoutEntity,
}

pub enum ErdParseErrorV {
    Syntax { pos: int },
    UnknownOption { group: OptionGroup, key: Seq<char> },
    InvalidNumber { group: OptionGroup, key: Seq<char>, value: Seq<char> },
    AttributeWithoutEntity,
}

impl View for ErdParseError {
    type V = ErdParseErrorV;

    open spec fn view(&self) -> ErdParseErrorV {
        match self {
            ErdParseError::Syntax { pos } => ErdParseErrorV::Syntax { pos: *pos as int },
            ErdParseError::UnknownOption { group, key } => ErdParseErrorV::UnknownOption {
                group: *group,
                key: key@,
            },
            ErdParseError::InvalidNumber { group, key, value } => ErdParseErrorV::InvalidNumber {
                group: *group,
                key: key@,
                value: value@,
            },
            ErdParseError::AttributeWithoutEntity => ErdParseErrorV::AttributeWithoutEntity,
        }
    }
}

/// The name an error uses for an option group.
pub open spec fn group_name(g: OptionGroup) -> Seq<char> {
    match g {
        OptionGroup::Title => "title"@,
        OptionGroup::Header => "header"@,
        OptionGroup::Entity => "entity"@,
        OptionGroup::Attribute => "attribute"@,
        OptionGroup::Relationship => "relationship"@,
    }
}

fn group_label(g: OptionGroup) -> (r: &'static str)
    ensures
        r@ == group_name(g),
{
    match g {
        OptionGroup::Title => "title",
        OptionGroup::Header => "header",
        OptionGroup::Entity => "entity",
        OptionGroup::Attribute => "attribute",
        OptionGroup::Relationship => "relationship",
    }
}

/// The one-line description of an error.
pub open spec fn error_message(e: ErdParseErrorV) -> Seq<char> {
    match e {
        ErdParseErrorV::Syntax { pos } => "syntax error in the input at character "@
            + text::dec_chars(pos),
        ErdParseErrorV::UnknownOption { group, key } => "invalid "@ + group_name(group)
            + " option: "@ + key,
        ErdParseErrorV::InvalidNumber { group, key, value } => "could not parse "@ + group_name(
            group,
        ) + " option "@ + key + " as integer: "@ + value,
        ErdParseErrorV::AttributeWithoutEntity =>
            "found attribute without a preceding entity to attach it to"@,
    }
}

impl ErdParseError {
    /// The descriptive message surfaced to the caller.
    pub fn message(&self) -> (r: String)
        ensures
            r@ == error_message(self@),
    {
        let mut out = String::new();
        match self {
            ErdParseError::Syntax { pos } => {
                out.append("syntax error in the input at character ");
                text::append_decimal(&mut out, *pos as u64);
            },
            ErdParseError::UnknownOption { group, key } => {
                out.append("invalid ");
                out.append(group_label(*group));
                out.append(" option: ");
                out.append(key.as_str());
            },
            ErdParseError::InvalidNumber { group, key, value } => {
                out.append("could not parse ");
                out.append(group_label(*group));
                out.append(" option ");
                out.append(key.as_str());
                out.append(" as integer: ");
                out.append(value.as_str());
            },
            ErdParseError::AttributeWithoutEntity => {
                out.append("found attribute without a preceding entity to attach it to");
            },
        }
        out
    }
}

/// A relationship endpoint's multiplicity.
#[derive(Copy, Clone, Debug, PartialEq, Eq, Structural)]
pub enum Cardinality {
    ZeroOne,
    One,
    ZeroPlus,
    OnePlus,
}

/// The glyph a cardinality shows on a rendered edge.
pub open spec fn card_glyph(c: Cardinality) -> Seq<char> {
    match c {
        Cardinality::ZeroOne => "{0,1}"@,
        Cardinality::One => "1"@,
        Cardinality::ZeroPlus => "0..N"@,
        Cardinality::OnePlus => "1..N"@,
    }
}

impl Cardinality {
    /// The rendered form of this cardinality.
    pub fn glyph(&self) -> (r: &'static str)
        ensures
            r@ == card_glyph(*self),
    {
        match self {
            Cardinality::ZeroOne => "{0,1}",
            Cardinality::One => "1",
            Cardinality::ZeroPlus => "0..N",
            Cardinality::OnePlus => "1..N",
        }
    }
}

/// The view of an optional string.
pub open spec fn opt_view(o: Option<String>) -> Option<Seq<char>> {
    match o {
        Some(s) => Some(s@),
        None => None,
    }
}

// ---------------------------------------------------------------------------
// Title options
// ---------------------------------------------------------------------------
/// The diagram-wide title block: label (nothing is rendered without one),
/// font size, color and font.
#[derive(Debug, Clone, PartialEq, Eq)]
pub struct TitleOptions {
    pub size: u8,
    pub label: Option<String>,
    pub color: Option<String>,
    pub font: Option<String>,
}

pub struct TitleOptionsV {
    pub size: u8,
    pub label: Option<Seq<char>>,
    pub color: Option<Seq<char>>,
    pub font: Option<Seq<char>>,
}

impl View for TitleOptions {
    type V = TitleOptionsV;

    open spec fn view(&self) -> TitleOptionsV {
        TitleOptionsV {
            size: self.size,
            label: opt_view(self.label),
            color: opt_view(self.color),
            font: opt_view(self.font),
        }
    }
}

/// The title options before any directive applies.
pub open spec fn title_default() -> TitleOptionsV {
    TitleOptionsV { size: 30, label: None, color: None, font: None }
}

/// Folds the pairs of a mapping into the title options, first pair first.
/// An unrecognized key, or a `size` that is not a small integer, rejects the
/// whole mapping.
pub open spec fn title_apply(o: TitleOptionsV, ps: Seq<SpecPair>) -> Result<
    TitleOptionsV,
    ErdParseErrorV,
>
    decreases ps.len(),
{
    if ps.len() == 0 {
        Ok(o)
    } else if ps[0].0 == "label"@ {
        title_apply(TitleOptionsV { label: Some(ps[0].1), ..o }, ps.drop_first())
    } else if ps[0].0 == "color"@ {
        title_apply(TitleOptionsV { color: Some(ps[0].1), ..o }, ps.drop_first())
    } else if ps[0].0 == "font"@ {
        title_apply(TitleOptionsV { font: Some(ps[0].1), ..o }, ps.drop_first())
    } else if ps[0].0 == "size"@ {
        match text::u8_from_chars(ps[0].1) {
            Some(n) => title_apply(TitleOptionsV { size: n, ..o }, ps.drop_first()),
            None => Err(
                ErdParseErrorV::InvalidNumber {
                    group: OptionGroup::Title,
                    key: ps[0].0,
                    value: ps[0].1,
                },
            ),
        }
    } else {
        Err(ErdParseErrorV::UnknownOption { group: OptionGroup::Title, key: ps[0].0 })
    }
}

impl Default for TitleOptions {
    fn default() -> (r: Self)
        ensures
            r@ == title_default(),
    {
        Self { size: 30, label: None, color: None, font: None }
    }
}

impl TitleOptions {
    /// Applies each pair of `m` in order; the first unknown key or bad
    /// number aborts the merge with the matching error.
    #[verifier::loop_isolation(false)]
    pub fn merge_hashmap(&mut self, m: &OptionMap) -> (r: Result<(), ErdParseError>)
        ensures
            title_apply(old(self)@, m@) is Ok ==> r is Ok && final(self)@ == title_apply(
                old(self)@,
                m@,
            )->Ok_0,
            title_apply(old(self)@, m@) is Err ==> r is Err && r->Err_0@ == title_apply(
                old(self)@,
                m@,
            )->Err_0,
    {
        let ghost orig = self@;
        let ghost ps = m@;
        proof {
            assert(ps.skip(0) =~= ps);
        }
        let n: usize = m.len();
        let mut i: usize = 0;
        while i < n
            invariant
                i <= n,
                title_apply(orig, ps) == title_apply(self@, ps.skip(i as int)),
            decreases n - i,
        {
            proof {
                assert(ps.skip(i as int)[0] == ps[i as int]);
                assert(ps.skip(i as int).drop_first() =~= ps.skip(i as int + 1));
            }
            let (k, v) = m.pair(i);
            if text::str_eq(k.as_str(), "label") {
                self.label = Some(v);
            } else if text::str_eq(k.as_str(), "color") {
                self.color = Some(v);
            } else if text::str_eq(k.as_str(), "font") {
                self.font = Some(v);
            } else if text::str_eq(k.as_str(), "size") {
                let vc = text::str_chars(v.as_str());
                proof {
                    assert(vc@.subrange(0, vc@.len() as int) =~= v@);
                }
                match text::parse_u8(&vc, 0, vc.len()) {
                    Some(nn) => {
                        self.size = nn;
                    },
                    None => {
                        return Err(
                            ErdParseError::InvalidNumber {
                                group: OptionGroup::Title,
                                key: k,
                                value: v,
                            },
                        );
                    },
                }
            } else {
                return Err(ErdParseError::UnknownOption { group: OptionGroup::Title, key: k });
            }
            i = i + 1;
        }
        proof {
            assert(ps.skip(n as int) =~= Seq::<SpecPair>::empty());
        }
        Ok(())
    }
}

// ---------------------------------------------------------------------------
// Header options
// ---------------------------------------------------------------------------
/// Styling of an entity's header row and of the surrounding table: font
/// size, font, border widths, cell spacing and padding, and colors.
#[derive(Debug, Clone, PartialEq, Eq)]
pub struct HeaderOptions {
    pub size: u8,
    pub font: String,
    pub border: u8,
    pub cell_border: u8,
    pub cell_spacing: u8,
    pub cell_padding: u8,
    pub background_color: Option<String>,
    pub label: Option<String>,
    pub color: Option<String>,
    pub border_color: Option<String>,
}

pub struct HeaderOptionsV {
    pub size: u8,
    pub font: Seq<char>,
    pub border: u8,
    pub cell_border: u8,
    pub cell_spacing: u8,
    pub cell_padding: u8,
    pub background_color: Option<Seq<char>>,
    pub label: Option<Seq<char>>,
    pub color: Option<Seq<char>>,
    pub border_color: Option<Seq<char>>,
}

impl View for HeaderOptions {
    type V = HeaderOptionsV;

    open spec fn view(&self) -> HeaderOptionsV {
        HeaderOptionsV {
            size: self.size,
            font: self.font@,
            border: self.border,
            cell_border: self.cell_border,
            cell_spacing: self.cell_spacing,
            cell_padding: self.cell_padding,
            background_color: opt_view(self.background_color),
            label: opt_view(self.label),
            color: opt_view(self.color),
            border_color: opt_view(self.border_color),
        }
    }
}

/// The header options before any directive applies.
pub open spec fn header_default() -> HeaderOptionsV {
    HeaderOptionsV {
        size: 16,
        font: "Helvetica"@,
        border: 0,
        cell_border: 1,
        cell_spacing: 0,
        cell_padding: 4,
        background_color: None,
        label: None,
        color: None,
        border_color: None,
    }
}

/// Folds the pairs of a mapping into the header options, first pair first.
pub open spec fn header_apply(o: HeaderOptionsV, ps: Seq<SpecPair>) -> Result<
    HeaderOptionsV,
    ErdParseErrorV,
>
    decreases ps.len(),
{
    if ps.len() == 0 {
        Ok(o)
    } else if ps[0].0 == "size"@ {
        match text::u8_from_chars(ps[0].1) {
            Some(n) => header_apply(HeaderOptionsV { size: n, ..o }, ps.drop_first()),
            None => Err(
                ErdParseErrorV::InvalidNumber {
                    group: OptionGroup::Header,
                    key: ps[0].0,
                    value: ps[0].1,
                },
            ),
        }
    } else if ps[0].0 == "label"@ {
        header_apply(HeaderOptionsV { label: Some(ps[0].1), ..o }, ps.drop_first())
    } else if ps[0].0 == "color"@ {
        header_apply(HeaderOptionsV { color: Some(ps[0].1), ..o }, ps.drop_first())
    } else if ps[0].0 == "bgcolor"@ {
        header_apply(HeaderOptionsV { background_color: Some(ps[0].1), ..o }, ps.drop_first())
    } else if ps[0].0 == "font"@ {
        header_apply(HeaderOptionsV { font: ps[0].1, ..o }, ps.drop_first())
    } else if ps[0].0 == "border-color"@ {
        header_apply(HeaderOptionsV { border_color: Some(ps[0].1), ..o }, ps.drop_first())
    } else if ps[0].0 == "border"@ {
        match text::u8_from_chars(ps[0].1) {
            Some(n) => header_apply(HeaderOptionsV { border: n, ..o }, ps.drop_first()),
            None => Err(
                ErdParseErrorV::InvalidNumber {
                    group: OptionGroup::Header,
                    key: ps[0].0,
                    value: ps[0].1,
                },
            ),
        }
    } else {
        Err(ErdParseErrorV::UnknownOption { group: OptionGroup::Header, key: ps[0].0 })
    }
}

impl Default for HeaderOptions {
    fn default() -> (r: Self)
        ensures
            r@ == header_default(),
    {
        Self {
            size: 16,
            font: "Helvetica".to_owned(),
            border: 0,
            cell_border: 1,
            cell_padding: 4,
            cell_spacing: 0,
            background_color: None,
            label: None,
            color: None,
            border_color: None,
        }
    }
}

impl HeaderOptions {
    /// The header options given by `m` alone, over the defaults.
    pub fn from_hashmap(m: &OptionMap) -> (r: Result<Self, ErdParseError>)
        ensures
            header_apply(header_default(), m@) is Ok ==> r is Ok && r->Ok_0@ == header_apply(
                header_default(),
                m@,
            )->Ok_0,
            header_apply(header_default(), m@) is Err ==> r is Err && r->Err_0@ == header_apply(
                header_default(),
                m@,
            )->Err_0,
    {
        let mut opts = Self::default();
        match opts.merge_hashmap(m) {
            Ok(_) => Ok(opts),
            Err(e) => Err(e),
        }
    }

    /// Applies each pair of `m` in order; the first unknown key or bad
    /// number aborts the merge with the matching error.
    #[verifier::loop_isolation(false)]
    pub fn merge_hashmap(&mut self, m: &OptionMap) -> (r: Result<(), ErdParseError>)
        ensures
            header_apply(old(self)@, m@) is Ok ==> r is Ok && final(self)@ == header_apply(
                old(self)@,
                m@,
            )->Ok_0,
            header_apply(old(self)@, m@) is Err ==> r is Err && r->Err_0@ == header_apply(
                old(self)@,
                m@,
            )->Err_0,
    {
        let ghost orig = self@;
        let ghost ps = m@;
        proof {
            assert(ps.skip(0) =~= ps);
        }
        let n: usize = m.len();
        let mut i: usize = 0;
        while i < n
            invariant
                i <= n,
                header_apply(orig, ps) == header_apply(self@, ps.skip(i as int)),
            decreases n - i,
        {
            proof {
                assert(ps.skip(i as int)[0] == ps[i as int]);
                assert(ps.skip(i as int).drop_first() =~= ps.skip(i as int + 1));
            }
            let (k, v) = m.pair(i);
            if text::str_eq(k.as_str(), "size") {
                let vc = text::str_chars(v.as_str());
                proof {
                    assert(vc@.subrange(0, vc@.len() as int) =~= v@);
                }
                match text::parse_u8(&vc, 0, vc.len()) {
                    Some(nn) => {
                        self.size = nn;
                    },
                    None => {
                        return Err(
                            ErdParseError::InvalidNumber {
                                group: OptionGroup::Header,
                                key: k,
                                value: v,
                            },
                        );
                    },
                }
            } else if text::str_eq(k.as_str(), "label") {
                self.label = Some(v);
            } else if text::str_eq(k.as_str(), "color") {
                self.color = Some(v);
            } else if text::str_eq(k.as_str(), "bgcolor") {
                self.background_color = Some(v);
            } else if text::str_eq(k.as_str(), "font") {
                self.font = v;
            } else if text::str_eq(k.as_str(), "border-color") {
                self.border_color = Some(v);
            } else if text::str_eq(k.as_str(), "border") {
                let vc = text::str_chars(v.as_str());
                proof {
                    assert(vc@.subrange(0, vc@.len() as int) =~= v@);
                }
                match text::parse_u8(&vc, 0, vc.len()) {
                    Some(nn) => {
                        self.border = nn;
                    },
                    None => {
                        return Err(
                            ErdParseError::InvalidNumber {
                                group: OptionGroup::Header,
                                key: k,
                                value: v,
                            },
                        );
                    },
                }
            } else {
                return Err(ErdParseError::UnknownOption { group: OptionGroup::Header, key: k });
            }
            i = i + 1;
        }
        proof {
            assert(ps.skip(n as int) =~= Seq::<SpecPair>::empty());
        }
        Ok(())
    }
}


// ---------------------------------------------------------------------------
// Entity options
// ---------------------------------------------------------------------------
/// Entity-level styling: background color, label override, title font size,
/// border widths, font and colors.
#[derive(Debug, Clone, PartialEq, Eq)]
pub struct EntityOptions {
    pub border: u8,
    pub cell_border: u8,
    pub cell_spacing: u8,
    pub cell_padding: u8,
    pub font: String,
    pub background_color: Option<String>,
    pub label: Option<String>,
    pub color: Option<String>,
    pub size: Option<u8>,
    pub border_color: Option<String>,
}

pub struct EntityOptionsV {
    pub border: u8,
    pub cell_border: u8,
    pub cell_spacing: u8,
    pub cell_padding: u8,
    pub font: Seq<char>,
    pub background_color: Option<Seq<char>>,
    pub label: Option<Seq<char>>,
    pub color: Option<Seq<char>>,
    pub size: Option<u8>,
    pub border_color: Option<Seq<char>>,
}

impl View for EntityOptions {
    type V = EntityOptionsV;

    open spec fn view(&self) -> EntityOptionsV {
        EntityOptionsV {
            border: self.border,
            cell_border: self.cell_border,
            cell_spacing: self.cell_spacing,
            cell_padding: self.cell_padding,
            font: self.font@,
            background_color: opt_view(self.background_color),
            label: opt_view(self.label),
            color: opt_view(self.color),
            size: self.size,
            border_color: opt_view(self.border_color),
        }
    }
}

/// The entity options before any directive applies.
pub open spec fn entity_default() -> EntityOptionsV {
    EntityOptionsV {
        border: 0,
        cell_border: 1,
        cell_spacing: 0,
        cell_padding: 4,
        font: "Helvetica"@,
        background_color: None,
        label: None,
        color: None,
        size: None,
        border_color: None,
    }
}

/// Folds the pairs of a mapping into the entity options, first pair first.
pub open spec fn entity_apply(o: EntityOptionsV, ps: Seq<SpecPair>) -> Result<
    EntityOptionsV,
    ErdParseErrorV,
>
    decreases ps.len(),
{
    if ps.len() == 0 {
        Ok(o)
    } else if ps[0].0 == "bgcolor"@ {
        entity_apply(EntityOptionsV { background_color: Some(ps[0].1), ..o }, ps.drop_first())
    } else if ps[0].0 == "label"@ {
        entity_apply(EntityOptionsV { label: Some(ps[0].1), ..o }, ps.drop_first())
    } else if ps[0].0 == "color"@ {
        entity_apply(EntityOptionsV { color: Some(ps[0].1), ..o }, ps.drop_first())
    } else if ps[0].0 == "size"@ {
        match text::u8_from_chars(ps[0].1) {
            Some(n) => entity_apply(EntityOptionsV { size: Some(n), ..o }, ps.drop_first()),
            None => Err(
                ErdParseErrorV::InvalidNumber {
                    group: OptionGroup::Entity,
                    key: ps[0].0,
                    value: ps[0].1,
                },
            ),
        }
    } else if ps[0].0 == "font"@ {
        entity_apply(EntityOptionsV { font: ps[0].1, ..o }, ps.drop_first())
    } else if ps[0].0 == "border-color"@ {
        entity_apply(EntityOptionsV { border_color: Some(ps[0].1), ..o }, ps.drop_first())
    } else if ps[0].0 == "border"@ {
        match text::u8_from_chars(ps[0].1) {
            Some(n) => entity_apply(EntityOptionsV { border: n, ..o }, ps.drop_first()),
            None => Err(
                ErdParseErrorV::InvalidNumber {
                    group: OptionGroup::Entity,
                    key: ps[0].0,
                    value: ps[0].1,
                },
            ),
        }
    } else {
        Err(ErdParseErrorV::UnknownOption { group: OptionGroup::Entity, key: ps[0].0 })
    }
}

impl Default for EntityOptions {
    fn default() -> (r: Self)
        ensures
            r@ == entity_default(),
    {
        Self {
            border: 0,
            cell_border: 1,
            cell_spacing: 0,
            cell_padding: 4,
            font: "Helvetica".to_owned(),
            background_color: None,
            label: None,
            color: None,
            size: None,
            border_color: None,
        }
    }
}

impl EntityOptions {
    /// The entity options given by `m` alone, over the defaults.
    pub fn from_hashmap(m: &OptionMap) -> (r: Result<Self, ErdParseError>)
        ensures
            entity_apply(entity_default(), m@) is Ok ==> r is Ok && r->Ok_0@ == entity_apply(
                entity_default(),
                m@,
            )->Ok_0,
            entity_apply(entity_default(), m@) is Err ==> r is Err && r->Err_0@ == entity_apply(
                entity_default(),
                m@,
            )->Err_0,
    {
        let mut opts = Self::default();
        match opts.merge_hashmap(m) {
            Ok(_) => Ok(opts),
            Err(e) => Err(e),
        }
    }

    /// Applies each pair of `m` in order; the first unknown key or bad
    /// number aborts the merge with the matching error.
    #[verifier::loop_isolation(false)]
    pub fn merge_hashmap(&mut self, m: &OptionMap) -> (r: Result<(), ErdParseError>)
        ensures
            entity_apply(old(self)@, m@) is Ok ==> r is Ok && final(self)@ == entity_apply(
                old(self)@,
                m@,
            )->Ok_0,
            entity_apply(old(self)@, m@) is Err ==> r is Err && r->Err_0@ == entity_apply(
                old(self)@,
                m@,
            )->Err_0,
    {
        let ghost orig = self@;
        let ghost ps = m@;
        proof {
            assert(ps.skip(0) =~= ps);
        }
        let n: usize = m.len();
        let mut i: usize = 0;
        while i < n
            invariant
                i <= n,
                entity_apply(orig, ps) == entity_apply(self@, ps.skip(i as int)),
            decreases n - i,
        {
            proof {
                assert(ps.skip(i as int)[0] == ps[i as int]);
                assert(ps.skip(i as int).drop_first() =~= ps.skip(i as int + 1));
            }
            let (k, v) = m.pair(i);
            if text::str_eq(k.as_str(), "bgcolor") {
                self.background_color = Some(v);
            } else if text::str_eq(k.as_str(), "label") {
                self.label = Some(v);
            } else if text::str_eq(k.as_str(), "color") {
                self.color = Some(v);
            } else if text::str_eq(k.as_str(), "size") {
                let vc = text::str_chars(v.as_str());
                proof {
                    assert(vc@.subrange(0, vc@.len() as int) =~= v@);
                }
                match text::parse_u8(&vc, 0, vc.len()) {
                    Some(nn) => {
                        self.size = Some(nn);
                    },
                    None => {
                        return Err(
                            ErdParseError::InvalidNumber {
                                group: OptionGroup::Entity,
                                key: k,
                                value: v,
                            },
                        );
                    },
                }
            } else if text::str_eq(k.as_str(), "font") {
                self.font = v;
            } else if text::str_eq(k.as_str(), "border-color") {
                self.border_color = Some(v);
            } else if text::str_eq(k.as_str(), "border") {
                let vc = text::str_chars(v.as_str());
                proof {
                    assert(vc@.subrange(0, vc@.len() as int) =~= v@);
                }
                match text::parse_u8(&vc, 0, vc.len()) {
                    Some(nn) => {
                        self.border = nn;
                    },
                    None => {
                        return Err(
                            ErdParseError::InvalidNumber {
                                group: OptionGroup::Entity,
                                key: k,
                                value: v,
                            },
                        );
                    },
                }
            } else {
                return Err(ErdParseError::UnknownOption { group: OptionGroup::Entity, key: k });
            }
            i = i + 1;
        }
        proof {
            assert(ps.skip(n as int) =~= Seq::<SpecPair>::empty());
        }
        Ok(())
    }
}

// ---------------------------------------------------------------------------
// Attribute options
// ---------------------------------------------------------------------------
/// Styling of one attribute row: text alignment, label override, colors,
/// font and border.
#[derive(Debug, Clone, PartialEq, Eq)]
pub struct AttributeOptions {
    pub text_alignment: String,
    pub label: Option<String>,
    pub color: Option<String>,
    pub background_color: Option<String>,
    pub font: Option<String>,
    pub border: Option<u8>,
    pub border_color: Option<String>,
}

pub struct AttributeOptionsV {
    pub text_alignment: Seq<char>,
    pub label: Option<Seq<char>>,
    pub color: Option<Seq<char>>,
    pub background_color: Option<Seq<char>>,
    pub font: Option<Seq<char>>,
    pub border: Option<u8>,
    pub border_color: Option<Seq<char>>,
}

impl View for AttributeOptions {
    type V = AttributeOptionsV;

    open spec fn view(&self) -> AttributeOptionsV {
        AttributeOptionsV {
            text_alignment: self.text_alignment@,
            label: opt_view(self.label),
            color: opt_view(self.color),
            background_color: opt_view(self.background_color),
            font: opt_view(self.font),
            border: self.border,
            border_color: opt_view(self.border_color),
        }
    }
}

/// The attribute options before any directive applies.
pub open spec fn attribute_default() -> AttributeOptionsV {
    AttributeOptionsV {
        text_alignment: "LEFT"@,
        label: None,
        color: None,
        background_color: None,
        font: None,
        border: None,
        border_color: None,
    }
}

/// Folds the pairs of a mapping into the attribute options, first pair
/// first.
pub open spec fn attribute_apply(o: AttributeOptionsV, ps: Seq<SpecPair>) -> Result<
    AttributeOptionsV,
    ErdParseErrorV,
>
    decreases ps.len(),
{
    if ps.len() == 0 {
        Ok(o)
    } else if ps[0].0 == "label"@ {
        attribute_apply(AttributeOptionsV { label: Some(ps[0].1), ..o }, ps.drop_first())
    } else if ps[0].0 == "color"@ {
        attribute_apply(AttributeOptionsV { color: Some(ps[0].1), ..o }, ps.drop_first())
    } else if ps[0].0 == "bgcolor"@ {
        attribute_apply(AttributeOptionsV { background_color: Some(ps[0].1), ..o }, ps.drop_first())
    } else if ps[0].0 == "font"@ {
        attribute_apply(AttributeOptionsV { font: Some(ps[0].1), ..o }, ps.drop_first())
    } else if ps[0].0 == "border-color"@ {
        attribute_apply(AttributeOptionsV { border_color: Some(ps[0].1), ..o }, ps.drop_first())
    } else if ps[0].0 == "border"@ {
        match text::u8_from_chars(ps[0].1) {
            Some(n) => attribute_apply(AttributeOptionsV { border: Some(n), ..o }, ps.drop_first()),
            None => Err(
                ErdParseErrorV::InvalidNumber {
                    group: OptionGroup::Attribute,
                    key: ps[0].0,
                    value: ps[0].1,
                },
            ),
        }
    } else {
        Err(ErdParseErrorV::UnknownOption { group: OptionGroup::Attribute, key: ps[0].0 })
    }
}

impl Default for AttributeOptions {
    fn default() -> (r: Self)
        ensures
            r@ == attribute_default(),
    {
        Self {
            text_alignment: "LEFT".to_owned(),
            label: None,
            color: None,
            background_color: None,
            font: None,
            border: None,
            border_color: None,
        }
    }
}

impl AttributeOptions {
    /// The attribute options given by `m` alone, over the defaults.
    pub fn from_hashmap(m: &OptionMap) -> (r: Result<Self, ErdParseError>)
        ensures
            attribute_apply(attribute_default(), m@) is Ok ==> r is Ok && r->Ok_0@
                == attribute_apply(attribute_default(), m@)->Ok_0,
            attribute_apply(attribute_default(), m@) is Err ==> r is Err && r->Err_0@
                == attribute_apply(attribute_default(), m@)->Err_0,
    {
        let mut opts = Self::default();
        match opts.merge_hashmap(m) {
            Ok(_) => Ok(opts),
            Err(e) => Err(e),
        }
    }

    /// Applies each pair of `m` in order; the first unknown key or bad
    /// number aborts the merge with the matching error.
    #[verifier::loop_isolation(false)]
    pub fn merge_hashmap(&mut self, m: &OptionMap) -> (r: Result<(), ErdParseError>)
        ensures
            attribute_apply(old(self)@, m@) is Ok ==> r is Ok && final(self)@ == attribute_apply(
                old(self)@,
                m@,
            )->Ok_0,
            attribute_apply(old(self)@, m@) is Err ==> r is Err && r->Err_0@ == attribute_apply(
                old(self)@,
                m@,
            )->Err_0,
    {
        let ghost orig = self@;
        let ghost ps = m@;
        proof {
            assert(ps.skip(0) =~= ps);
        }
        let n: usize = m.len();
        let mut i: usize = 0;
        while i < n
            invariant
                i <= n,
                attribute_apply(orig, ps) == attribute_apply(self@, ps.skip(i as int)),
            decreases n - i,
        {
            proof {
                assert(ps.skip(i as int)[0] == ps[i as int]);
                assert(ps.skip(i as int).drop_first() =~= ps.skip(i as int + 1));
            }
            let (k, v) = m.pair(i);
            if text::str_eq(k.as_str(), "label") {
                self.label = Some(v);
            } else if text::str_eq(k.as_str(), "color") {
                self.color = Some(v);
            } else if text::str_eq(k.as_str(), "bgcolor") {
                self.background_color = Some(v);
            } else if text::str_eq(k.as_str(), "font") {
                self.font = Some(v);
            } else if text::str_eq(k.as_str(), "border-color") {
                self.border_color = Some(v);
            } else if text::str_eq(k.as_str(), "border") {
                let vc = text::str_chars(v.as_str());
                proof {
                    assert(vc@.subrange(0, vc@.len() as int) =~= v@);
                }
                match text::parse_u8(&vc, 0, vc.len()) {
                    Some(nn) => {
                        self.border = Some(nn);
                    },
                    None => {
                        return Err(
                            ErdParseError::InvalidNumber {
                                group: OptionGroup::Attribute,
                                key: k,
                                value: v,
                            },
                        );
                    },
                }
            } else {
                return Err(ErdParseError::UnknownOption { group: OptionGroup::Attribute, key: k });
            }
            i = i + 1;
        }
        proof {
            assert(ps.skip(n as int) =~= Seq::<SpecPair>::empty());
        }
        Ok(())
    }
}

// ---------------------------------------------------------------------------
// Relationship options
// ---------------------------------------------------------------------------
/// Styling of one relation's edge: label, color, line weight and font.
#[derive(Debug, Clone, PartialEq, Eq)]
pub struct RelationshipOptions {
    label: Option<String>,
    color: Option<String>,
    size: Option<u8>,
    font: Option<String>,
}

pub struct RelationshipOptionsV {
    pub label: Option<Seq<char>>,
    pub color: Option<Seq<char>>,
    pub size: Option<u8>,
    pub font: Option<Seq<char>>,
}

impl View for RelationshipOptions {
    type V = RelationshipOptionsV;

    closed spec fn view(&self) -> RelationshipOptionsV {
        RelationshipOptionsV {
            label: opt_view(self.label),
            color: opt_view(self.color),
            size: self.size,
            font: opt_view(self.font),
        }
    }
}

/// The relationship options before any directive applies.
pub open spec fn relationship_default() -> RelationshipOptionsV {
    RelationshipOptionsV { label: None, color: None, size: None, font: None }
}

/// Folds the pairs of a mapping into the relationship options, first pair
/// first.
pub open spec fn relationship_apply(o: RelationshipOptionsV, ps: Seq<SpecPair>) -> Result<
    RelationshipOptionsV,
    ErdParseErrorV,
>
    decreases ps.len(),
{
    if ps.len() == 0 {
        Ok(o)
    } else if ps[0].0 == "label"@ {
        relationship_apply(RelationshipOptionsV { label: Some(ps[0].1), ..o }, ps.drop_first())
    } else if ps[0].0 == "color"@ {
        relationship_apply(RelationshipOptionsV { color: Some(ps[0].1), ..o }, ps.drop_first())
    } else if ps[0].0 == "size"@ {
        match text::u8_from_chars(ps[0].1) {
            Some(n) => relationship_apply(
                RelationshipOptionsV { size: Some(n), ..o },
                ps.drop_first(),
            ),
            None => Err(
                ErdParseErrorV::InvalidNumber {
                    group: OptionGroup::Relationship,
                    key: ps[0].0,
                    value: ps[0].1,
                },
            ),
        }
    } else if ps[0].0 == "font"@ {
        relationship_apply(RelationshipOptionsV { font: Some(ps[0].1), ..o }, ps.drop_first())
    } else {
        Err(ErdParseErrorV::UnknownOption { group: OptionGroup::Relationship, key: ps[0].0 })
    }
}

impl Default for RelationshipOptions {
    fn default() -> (r: Self)
        ensures
            r@ == relationship_default(),
    {
        Self { label: None, color: None, size: None, font: None }
    }
}

impl RelationshipOptions {
    /// The relationship options given by `m` alone, over the defaults.
    pub fn from_hashmap(m: &OptionMap) -> (r: Result<Self, ErdParseError>)
        ensures
            relationship_apply(relationship_default(), m@) is Ok ==> r is Ok && r->Ok_0@
                == relationship_apply(relationship_default(), m@)->Ok_0,
            relationship_apply(relationship_default(), m@) is Err ==> r is Err && r->Err_0@
                == relationship_apply(relationship_default(), m@)->Err_0,
    {
        let mut opts = Self::default();
        match opts.merge_hashmap(m) {
            Ok(_) => Ok(opts),
            Err(e) => Err(e),
        }
    }

    /// Applies each pair of `m` in order; the first unknown key or bad
    /// number aborts the merge with the matching error.
    #[verifier::loop_isolation(false)]
    pub fn merge_hashmap(&mut self, m: &OptionMap) -> (r: Result<(), ErdParseError>)
        ensures
            relationship_apply(old(self)@, m@) is Ok ==> r is Ok && final(self)@
                == relationship_apply(old(self)@, m@)->Ok_0,
            relationship_apply(old(self)@, m@) is Err ==> r is Err && r->Err_0@
                == relationship_apply(old(self)@, m@)->Err_0,
    {
        let ghost orig = self@;
        let ghost ps = m@;
        proof {
            assert(ps.skip(0) =~= ps);
        }
        let n: usize = m.len();
        let mut i: usize = 0;
        while i < n
            invariant
                i <= n,
                relationship_apply(orig, ps) == relationship_apply(self@, ps.skip(i as int)),
            decreases n - i,
        {
            proof {
                assert(ps.skip(i as int)[0] == ps[i as int]);
                assert(ps.skip(i as int).drop_first() =~= ps.skip(i as int + 1));
            }
            let (k, v) = m.pair(i);
            if text::str_eq(k.as_str(), "label") {
                self.label = Some(v);
            } else if text::str_eq(k.as_str(), "color") {
                self.color = Some(v);
            } else if text::str_eq(k.as_str(), "size") {
                let vc = text::str_chars(v.as_str());
                proof {
                    assert(vc@.subrange(0, vc@.len() as int) =~= v@);
                }
                match text::parse_u8(&vc, 0, vc.len()) {
                    Some(nn) => {
                        self.size = Some(nn);
                    },
                    None => {
                        return Err(
                            ErdParseError::InvalidNumber {
                                group: OptionGroup::Relationship,
                                key: k,
                                value: v,
                            },
                        );
                    },
                }
            } else if text::str_eq(k.as_str(), "font") {
                self.font = Some(v);
            } else {
                return Err(
                    ErdParseError::UnknownOption { group: OptionGroup::Relationship, key: k },
                );
            }
            i = i + 1;
        }
        proof {
            assert(ps.skip(n as int) =~= Seq::<SpecPair>::empty());
        }
        Ok(())
    }
}


// ---------------------------------------------------------------------------
// Attributes, entities, relations, directives, documents
// ---------------------------------------------------------------------------
/// One attribute row of an entity: the field name, the two key flags, and
/// the row's resolved options.
#[derive(Debug, Clone, Default, PartialEq, Eq)]
pub struct Attribute {
    pub field: String,
    pub pk: bool,
    pub fk: bool,
    pub options: AttributeOptions,
}

pub struct AttributeV {
    pub field: Seq<char>,
    pub pk: bool,
    pub fk: bool,
    pub options: AttributeOptionsV,
}

impl View for Attribute {
    type V = AttributeV;

    open spec fn view(&self) -> AttributeV {
        AttributeV { field: self.field@, pk: self.pk, fk: self.fk, options: self.options@ }
    }
}

/// An attribute carrying only a field name, with both key flags off and
/// default options.
pub open spec fn attribute_with_field(f: Seq<char>) -> AttributeV {
    AttributeV { field: f, pk: false, fk: false, options: attribute_default() }
}

impl Attribute {
    /// A bare attribute for the given field.
    pub fn with_field(field: &str) -> (r: Self)
        ensures
            r@ == attribute_with_field(field@),
    {
        Self { field: field.to_owned(), pk: false, fk: false, options: AttributeOptions::default() }
    }
}

/// One declared entity: its name, its attribute rows in declaration order,
/// its resolved option groups, and the keys its own option block set (which
/// global defaults must not overwrite).
#[derive(Debug, Clone, PartialEq, Eq)]
pub struct Entity {
    pub name: String,
    pub attribs: Vec<Attribute>,
    pub options: EntityOptions,
    pub header_options: HeaderOptions,
    pub local_options: OptionMap,
}

pub struct EntityV {
    pub name: Seq<char>,
    pub attribs: Seq<AttributeV>,
    pub options: EntityOptionsV,
    pub header_options: HeaderOptionsV,
    pub local_options: Seq<SpecPair>,
}

impl View for Entity {
    type V = EntityV;

    open spec fn view(&self) -> EntityV {
        EntityV {
            name: self.name@,
            attribs: self.attribs@.map_values(|a: Attribute| a@),
            options: self.options@,
            header_options: self.header_options@,
            local_options: self.local_options@,
        }
    }
}

/// A fresh entity of the given name: no attributes, default options, no
/// locally-set keys.
pub open spec fn entity_named(n: Seq<char>) -> EntityV {
    EntityV {
        name: n,
        attribs: Seq::empty(),
        options: entity_default(),
        header_options: header_default(),
        local_options: Seq::empty(),
    }
}

impl Entity {
    /// A fresh entity with the given name and no attributes or options.
    pub fn new(name: &str) -> (r: Self)
        ensures
            r@ == entity_named(name@),
            r.local_options.wf(),
    {
        let r = Entity {
            name: name.to_owned(),
            attribs: Vec::new(),
            options: EntityOptions::default(),
            header_options: HeaderOptions::default(),
            local_options: OptionMap::new(),
        };
        proof {
            assert(r.attribs@.map_values(|a: Attribute| a@) =~= Seq::<AttributeV>::empty());
        }
        r
    }

    /// Appends one attribute row; everything else is unchanged.
    pub fn add_attribute(&mut self, attr: Attribute)
        ensures
            final(self)@ == (EntityV { attribs: old(self)@.attribs.push(attr@), ..old(self)@ }),
            final(self).local_options == old(self).local_options,
    {
        self.attribs.push(attr);
        proof {
            assert(self.attribs@.map_values(|a: Attribute| a@) =~= old(
                self,
            ).attribs@.map_values(|a: Attribute| a@).push(attr@));
        }
    }
}

/// One relation between two entity names. `entity1` is the tail of the
/// rendered edge and `card1` its cardinality; `entity2` and `card2` are the
/// head. The locally-set keys are kept so that global defaults do not
/// overwrite them.
#[derive(Debug, Clone, PartialEq, Eq)]
pub struct Relation {
    pub entity1: String,
    pub entity2: String,
    pub card1: Cardinality,
    pub card2: Cardinality,
    pub options: RelationshipOptions,
    pub local_options: OptionMap,
}

pub struct RelationV {
    pub entity1: Seq<char>,
    pub entity2: Seq<char>,
    pub card1: Cardinality,
    pub card2: Cardinality,
    pub options: RelationshipOptionsV,
    pub local_options: Seq<SpecPair>,
}

impl View for Relation {
    type V = RelationV;

    open spec fn view(&self) -> RelationV {
        RelationV {
            entity1: self.entity1@,
            entity2: self.entity2@,
            card1: self.card1,
            card2: self.card2,
            options: self.options@,
            local_options: self.local_options@,
        }
    }
}

/// The category a global directive sets defaults for.
#[derive(Copy, Clone, Debug, Eq, PartialEq, Structural)]
pub enum GlobalOptionType {
    Title,
    Header,
    Entity,
    Relationship,
}

/// A global directive: a category and the mapping it contributes.
#[derive(Debug, Clone, PartialEq, Eq)]
pub struct GlobalOption {
    pub option_type: GlobalOptionType,
    pub options: OptionMap,
}

pub struct GlobalOptionV {
    pub option_type: GlobalOptionType,
    pub options: Seq<SpecPair>,
}

impl View for GlobalOption {
    type V = GlobalOptionV;

    open spec fn view(&self) -> GlobalOptionV {
        GlobalOptionV { option_type: self.option_type, options: self.options@ }
    }
}

/// One parsed statement.
#[derive(Debug, Clone, PartialEq, Eq)]
pub enum Ast {
    Entity(Entity),
    Attribute(Attribute),
    Relation(Relation),
    GlobalOption(GlobalOption),
}

pub enum AstV {
    Entity(EntityV),
    Attribute(AttributeV),
    Relation(RelationV),
    GlobalOption(GlobalOptionV),
}

impl View for Ast {
    type V = AstV;

    open spec fn view(&self) -> AstV {
        match self {
            Ast::Entity(e) => AstV::Entity(e@),
            Ast::Attribute(a) => AstV::Attribute(a@),
            Ast::Relation(r) => AstV::Relation(r@),
            Ast::GlobalOption(g) => AstV::GlobalOption(g@),
        }
    }
}

/// The resolved diagram: entities and relations in declaration order, and
/// the title block, all defaults merged in.
#[derive(Debug, Default, Clone, PartialEq, Eq)]
pub struct Erd {
    pub entities: Vec<Entity>,
    pub relationships: Vec<Relation>,
    pub title_options: TitleOptions,
}

pub struct ErdV {
    pub entities: Seq<EntityV>,
    pub relationships: Seq<RelationV>,
    pub title_options: TitleOptionsV,
}

impl View for Erd {
    type V = ErdV;

    open spec fn view(&self) -> ErdV {
        ErdV {
            entities: self.entities@.map_values(|e: Entity| e@),
            relationships: self.relationships@.map_values(|r: Relation| r@),
            title_options: self.title_options@,
        }
    }
}

} // verus!
