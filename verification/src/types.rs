//! Core value types of the font database: identifiers, match axes
//! (weight, stretch, style), families, queries, and storage sources.

use vstd::prelude::*;
use std::sync::Arc;

verus! {

/// A unique per-database face ID.
///
/// Backed by a `u32` that the database increments for each face it
/// allocates; removing a face never decrements the counter, so an ID is
/// never reused within one database instance.
#[derive(Clone, Copy, PartialEq, Eq, PartialOrd, Ord, Hash, Debug, Structural)]
pub struct ID(pub u32);

/// Specifies the weight of glyphs in the font, their degree of blackness
/// or stroke thickness. CSS-style: conventionally 100-900, any `u16`
/// accepted.
#[derive(Clone, Copy, PartialEq, Eq, PartialOrd, Ord, Hash, Debug, Structural)]
pub struct Weight(pub u16);

impl Default for Weight {
    /// The default weight is Normal (400).
    fn default() -> (r: Weight)
        ensures
            r == Weight(400),
    {
        Weight(400)
    }
}

/// Allows italic or oblique faces to be selected.
#[derive(Clone, Copy, PartialEq, Eq, Hash, Debug, Structural)]
pub enum Style {
    /// A face that is neither italic not obliqued.
    Normal,
    /// A form that is generally cursive in nature.
    Italic,
    /// A typically-sloped version of the regular face.
    Oblique,
}

impl Default for Style {
    /// The default style is Normal.
    fn default() -> (r: Style)
        ensures
            r == Style::Normal,
    {
        Style::Normal
    }
}

/// A face stretch (width class), ordered from ultra-condensed to
/// ultra-expanded with Normal at the center.
#[derive(Clone, Copy, PartialEq, Eq, PartialOrd, Ord, Hash, Debug, Structural)]
pub enum Stretch {
    /// The narrowest width class (1).
    UltraCondensed,
    /// Width class 2.
    ExtraCondensed,
    /// Width class 3.
    Condensed,
    /// Width class 4.
    SemiCondensed,
    /// The normal width class (5).
    Normal,
    /// Width class 6.
    SemiExpanded,
    /// Width class 7.
    Expanded,
    /// Width class 8.
    ExtraExpanded,
    /// The widest width class (9).
    UltraExpanded,
}

/// The numeric width class of a stretch value, from 1 (ultra-condensed)
/// to 9 (ultra-expanded).
pub open spec fn stretch_num(s: Stretch) -> int {
    match s {
        Stretch::UltraCondensed => 1,
        Stretch::ExtraCondensed => 2,
        Stretch::Condensed => 3,
        Stretch::SemiCondensed => 4,
        Stretch::Normal => 5,
        Stretch::SemiExpanded => 6,
        Stretch::Expanded => 7,
        Stretch::ExtraExpanded => 8,
        Stretch::UltraExpanded => 9,
    }
}

impl Stretch {
    /// Returns the numeric width class, 1 to 9.
    pub fn to_number(self) -> (r: u16)
        ensures
            r == stretch_num(self),
    {
        match self {
            Stretch::UltraCondensed => 1,
            Stretch::ExtraCondensed => 2,
            Stretch::Condensed => 3,
            Stretch::SemiCondensed => 4,
            Stretch::Normal => 5,
            Stretch::SemiExpanded => 6,
            Stretch::Expanded => 7,
            Stretch::ExtraExpanded => 8,
            Stretch::UltraExpanded => 9,
        }
    }
}

impl Default for Stretch {
    /// The default stretch is Normal.
    fn default() -> (r: Stretch)
        ensures
            r == Stretch::Normal,
    {
        Stretch::Normal
    }
}

/// A font family specifier: either a concrete family name or one of the
/// five CSS-style generic classes.
#[derive(Clone, PartialEq, Eq, Hash, Debug)]
pub enum Family {
    /// The name of a font family of choice.
    Name(String),

    /// Serif fonts represent the formal text style for a script.
    Serif,

    /// Sans-serif fonts are generally low contrast and have plain stroke
    /// endings.
    SansSerif,

    /// Cursive fonts generally use a more informal script style.
    Cursive,

    /// Fantasy fonts are primarily decorative or expressive fonts.
    Fantasy,

    /// The sole criterion of a monospace font is that all glyphs have the
    /// same fixed width.
    Monospace,
}

/// A database query: a prioritized family list plus the target weight,
/// stretch and style.
#[derive(Clone, Debug)]
pub struct Query {
    /// A prioritized list of font family names or generic family names.
    pub families: Vec<Family>,

    /// The desired weight of the face.
    pub weight: Weight,

    /// The desired stretch (width class) of the face.
    pub stretch: Stretch,

    /// The desired style of the face.
    pub style: Style,
}

/// CSS-related face properties: the three axes the matching engine
/// narrows over.
#[derive(Clone, Copy, PartialEq, Eq, Hash, Debug, Structural)]
pub struct FaceProperties {
    /// The face style.
    pub style: Style,
    /// The face weight.
    pub weight: Weight,
    /// The face stretch.
    pub stretch: Stretch,
}

/// A font source: either raw binary data owned by the database, or a
/// file path resolved to bytes on demand.
///
/// A source stores a whole font, not just a single face; every face
/// extracted from one font collection shares one source.
#[derive(Clone, Debug)]
pub enum Source {
    /// A font's raw data, owned by the database.
    Binary(Vec<u8>),

    /// A font's path; the bytes are not held open.
    File(String),
}

/// A single font face record: one entry of the database.
#[derive(Clone, Debug)]
pub struct FaceInfo {
    /// A unique ID.
    pub id: ID,

    /// The font source. Reference-counted, because multiple faces of one
    /// font collection share the same data.
    pub source: Arc<Source>,

    /// The face index within `source`.
    pub index: u32,

    /// The family name (TrueType *Typographic Family* falling back to
    /// *Font Family*).
    pub family: String,

    /// The *PostScript name* of the face.
    pub post_script_name: String,

    /// The face style.
    pub style: Style,

    /// The face weight.
    pub weight: Weight,

    /// The face stretch.
    pub stretch: Stretch,

    /// Whether the face is monospaced.
    pub monospaced: bool,
}

/// Why a face was skipped during loading.
#[derive(Clone, Copy, PartialEq, Eq, Debug, Structural)]
pub enum LoadError {
    /// A malformed font: the parser was not able to interpret the bytes.
    MalformedFont,
    /// A valid font without a usable *Family Name* or *PostScript name*.
    UnnamedFont,
}

impl LoadError {
    /// A human-readable description of the error.
    pub fn message(&self) -> (r: &'static str)
        ensures
            self is MalformedFont ==> r@ == "malformed font"@,
            self is UnnamedFont ==> r@ == "font doesn't have a family name"@,
    {
        match self {
            LoadError::MalformedFont => "malformed font",
            LoadError::UnnamedFont => "font doesn't have a family name",
        }
    }
}

/// One face that a load operation skipped, with the reason.
#[derive(Clone, Copy, PartialEq, Eq, Debug, Structural)]
pub struct SkippedFace {
    /// The face index within the loaded font data.
    pub index: u32,
    /// Why the face was skipped.
    pub reason: LoadError,
}

/// The outcome of loading font data: the IDs of the faces that were
/// registered, and the faces that were skipped, with reasons.
///
/// Partial success is the norm: malformed or unnamed faces are skipped
/// and reported here, they never abort the whole load.
#[derive(Clone, Debug)]
pub struct LoadReport {
    /// The IDs of the newly registered faces, in registration order.
    pub ids: Vec<ID>,

    /// The faces that could not be registered.
    pub skipped: Vec<SkippedFace>,
}

} // verus!
