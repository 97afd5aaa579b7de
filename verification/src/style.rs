//! The keywords of a node's style and what each stands for.
//!
//! A style never fails to read: a missing or unknown keyword stands for the
//! property's default.

use crate::strings::{chars_of, contains, occurs_in, str_eq};
use vstd::prelude::*;
use vstd::string::*;

verus! {

/// Whether a property is set to exactly the keyword `lit`.
pub open spec fn is_word(word: Option<String>, lit: Seq<char>) -> bool {
    word matches Some(w) && w@ == lit
}

/// Whether a property is set to exactly the keyword `lit`.
pub fn word_is(word: &Option<String>, lit: &str) -> (r: bool)
    ensures
        r == is_word(*word, lit@),
{
    match word {
        Some(w) => str_eq(w.as_str(), lit),
        None => false,
    }
}

/// The value of a property that can be set for one side or corner and for all
/// at once: the side's own value wins over the shared one.
pub open spec fn preferred<T>(own: Option<T>, shared: Option<T>) -> Option<T> {
    match own {
        Some(v) => Some(v),
        None => shared,
    }
}

/// The value in effect for one side or corner.
pub fn prefer<'a, T>(own: &'a Option<T>, shared: &'a Option<T>) -> (r: Option<&'a T>)
    ensures
        match r {
            Some(v) => preferred(*own, *shared) == Some(*v),
            None => preferred(*own, *shared) is None,
        },
{
    match own {
        Some(v) => Some(v),
        None => match shared {
            Some(v) => Some(v),
            None => None,
        },
    }
}

/// How a node is placed: in the flow, or by its insets.
#[derive(Clone, Copy, Debug, PartialEq, Eq, Structural)]
pub enum Position {
    Relative,
    Absolute,
}

impl Position {
    pub open spec fn of(word: Option<String>) -> Position {
        if is_word(word, "absolute"@) {
            Position::Absolute
        } else {
            Position::Relative
        }
    }

    pub fn from_keyword(word: &Option<String>) -> (r: Position)
        ensures
            r == Position::of(*word),
    {
        if word_is(word, "absolute") {
            Position::Absolute
        } else {
            Position::Relative
        }
    }
}

/// The main axis of a container.
#[derive(Clone, Copy, Debug, PartialEq, Eq, Structural)]
pub enum FlexDirection {
    Row,
    Column,
}

impl FlexDirection {
    pub open spec fn of(word: Option<String>) -> FlexDirection {
        if is_word(word, "column"@) {
            FlexDirection::Column
        } else {
            FlexDirection::Row
        }
    }

    pub fn from_keyword(word: &Option<String>) -> (r: FlexDirection)
        ensures
            r == FlexDirection::of(*word),
    {
        if word_is(word, "column") {
            FlexDirection::Column
        } else {
            FlexDirection::Row
        }
    }
}

/// How children are spread along the main axis.
#[derive(Clone, Copy, Debug, PartialEq, Eq, Structural)]
pub enum JustifyContent {
    FlexStart,
    Center,
    SpaceBetween,
    FlexEnd,
}

impl JustifyContent {
    pub open spec fn of(word: Option<String>) -> JustifyContent {
        if is_word(word, "center"@) {
            JustifyContent::Center
        } else if is_word(word, "spaceBetween"@) {
            JustifyContent::SpaceBetween
        } else if is_word(word, "flexEnd"@) {
            JustifyContent::FlexEnd
        } else {
            JustifyContent::FlexStart
        }
    }

    pub fn from_keyword(word: &Option<String>) -> (r: JustifyContent)
        ensures
            r == JustifyContent::of(*word),
    {
        if word_is(word, "center") {
            JustifyContent::Center
        } else if word_is(word, "spaceBetween") {
            JustifyContent::SpaceBetween
        } else if word_is(word, "flexEnd") {
            JustifyContent::FlexEnd
        } else {
            JustifyContent::FlexStart
        }
    }
}

/// How children are placed across the main axis.
#[derive(Clone, Copy, Debug, PartialEq, Eq, Structural)]
pub enum AlignItems {
    FlexStart,
    Center,
    FlexEnd,
}

impl AlignItems {
    pub open spec fn of(word: Option<String>) -> AlignItems {
        if is_word(word, "center"@) {
            AlignItems::Center
        } else if is_word(word, "flexEnd"@) {
            AlignItems::FlexEnd
        } else {
            AlignItems::FlexStart
        }
    }

    pub fn from_keyword(word: &Option<String>) -> (r: AlignItems)
        ensures
            r == AlignItems::of(*word),
    {
        if word_is(word, "center") {
            AlignItems::Center
        } else if word_is(word, "flexEnd") {
            AlignItems::FlexEnd
        } else {
            AlignItems::FlexStart
        }
    }
}

/// The shape of a stroke's ends.
#[derive(Clone, Copy, Debug, PartialEq, Eq, Structural)]
pub enum LineCap {
    Butt,
    Round,
    Square,
}

impl LineCap {
    pub open spec fn of(word: Option<String>) -> LineCap {
        if is_word(word, "round"@) {
            LineCap::Round
        } else if is_word(word, "square"@) {
            LineCap::Square
        } else {
            LineCap::Butt
        }
    }

    pub fn from_keyword(word: &Option<String>) -> (r: LineCap)
        ensures
            r == LineCap::of(*word),
    {
        if word_is(word, "round") {
            LineCap::Round
        } else if word_is(word, "square") {
            LineCap::Square
        } else {
            LineCap::Butt
        }
    }
}

/// The shape of a stroke's corners.
#[derive(Clone, Copy, Debug, PartialEq, Eq, Structural)]
pub enum LineJoin {
    Miter,
    Round,
    Bevel,
}

impl LineJoin {
    pub open spec fn of(word: Option<String>) -> LineJoin {
        if is_word(word, "round"@) {
            LineJoin::Round
        } else if is_word(word, "bevel"@) {
            LineJoin::Bevel
        } else {
            LineJoin::Miter
        }
    }

    pub fn from_keyword(word: &Option<String>) -> (r: LineJoin)
        ensures
            r == LineJoin::of(*word),
    {
        if word_is(word, "round") {
            LineJoin::Round
        } else if word_is(word, "bevel") {
            LineJoin::Bevel
        } else {
            LineJoin::Miter
        }
    }
}

/// How an image is fitted into its node's box.
#[derive(Clone, Copy, Debug, PartialEq, Eq, Structural)]
pub enum ObjectFit {
    /// Stretched to the box.
    Fill,
    /// Scaled to lie inside the box, and centred.
    Contain,
    /// Scaled to cover the box, and centred.
    Cover,
}

impl ObjectFit {
    pub open spec fn of(word: Option<String>) -> ObjectFit {
        if is_word(word, "cover"@) {
            ObjectFit::Cover
        } else if is_word(word, "contain"@) {
            ObjectFit::Contain
        } else {
            ObjectFit::Fill
        }
    }

    pub fn from_keyword(word: &Option<String>) -> (r: ObjectFit)
        ensures
            r == ObjectFit::of(*word),
    {
        if word_is(word, "cover") {
            ObjectFit::Cover
        } else if word_is(word, "contain") {
            ObjectFit::Contain
        } else {
            ObjectFit::Fill
        }
    }
}

/// Where a line of text starts within its node's width.
#[derive(Clone, Copy, Debug, PartialEq, Eq, Structural)]
pub enum TextAlign {
    Left,
    Center,
    Right,
}

impl TextAlign {
    pub open spec fn of(word: Option<String>) -> TextAlign {
        if is_word(word, "center"@) {
            TextAlign::Center
        } else if is_word(word, "right"@) {
            TextAlign::Right
        } else {
            TextAlign::Left
        }
    }

    pub fn from_keyword(word: &Option<String>) -> (r: TextAlign)
        ensures
            r == TextAlign::of(*word),
    {
        if word_is(word, "center") {
            TextAlign::Center
        } else if word_is(word, "right") {
            TextAlign::Right
        } else {
            TextAlign::Left
        }
    }
}

/// The geometry of a gradient.
#[derive(Clone, Copy, Debug, PartialEq, Eq, Structural)]
pub enum GradientKind {
    Linear,
    Radial,
}

impl GradientKind {
    pub open spec fn of(word: Option<String>) -> GradientKind {
        if is_word(word, "radial"@) {
            GradientKind::Radial
        } else {
            GradientKind::Linear
        }
    }

    pub fn from_keyword(word: &Option<String>) -> (r: GradientKind)
        ensures
            r == GradientKind::of(*word),
    {
        if word_is(word, "radial") {
            GradientKind::Radial
        } else {
            GradientKind::Linear
        }
    }
}

/// How a mask is derived from the pixels of its sub-scene.
#[derive(Clone, Copy, Debug, PartialEq, Eq, Structural)]
pub struct MaskMode {
    /// The mask is the pixels' luma; otherwise it is their alpha.
    pub luminance: bool,
    /// The mask is turned upside down: 255 minus the value.
    pub inverted: bool,
}

/// A string in lower case, as `str::to_lowercase` of the standard library
/// gives it.
pub uninterp spec fn lowercase(s: Seq<char>) -> Seq<char>;

/// Calls `str::to_lowercase`.
///
/// Trusted: the result depends on the string alone.
#[verifier::external_body]
fn to_lowercase(s: &str) -> (r: String)
    ensures
        r@ == lowercase(s@),
{
    s.to_lowercase()
}

impl MaskMode {
    /// The mode that a lower-case name asks for: luminance where it holds
    /// `luminance`, inverted where it holds `inverted`.
    pub open spec fn of_lowercase(lower: Seq<char>) -> MaskMode {
        MaskMode { luminance: occurs_in(lower, "luminance"@), inverted: occurs_in(lower, "inverted"@) }
    }

    /// The mode of a style: that of its name in lower case, plain alpha where
    /// it has none.
    pub open spec fn of(word: Option<String>) -> MaskMode {
        match word {
            Some(w) => MaskMode::of_lowercase(lowercase(w@)),
            None => MaskMode { luminance: false, inverted: false },
        }
    }

    /// Reads a mask mode's name that is in lower case already.
    pub fn from_lowercase(lower: &str) -> (r: MaskMode)
        ensures
            r == MaskMode::of_lowercase(lower@),
    {
        let hay = chars_of(lower);
        let luminance = contains(&hay, &chars_of("luminance"));
        let inverted = contains(&hay, &chars_of("inverted"));
        MaskMode { luminance, inverted }
    }

    /// Reads a style's mask mode, whatever its case.
    pub fn from_keyword(word: &Option<String>) -> (r: MaskMode)
        ensures
            r == MaskMode::of(*word),
    {
        match word {
            Some(w) => {
                let lower = to_lowercase(w.as_str());
                MaskMode::from_lowercase(lower.as_str())
            },
            None => MaskMode { luminance: false, inverted: false },
        }
    }
}

/// The outline that a node has where nothing went wrong in building it.
#[derive(Clone, Copy, Debug, PartialEq, Eq, Structural)]
pub enum Primitive {
    /// The node's own path data.
    Path,
    /// The oval inscribed in the node's box.
    Oval,
    /// The node's box with its corner radii.
    RoundedRect,
}

impl Primitive {
    pub open spec fn of(tag: Seq<char>, has_path_data: bool) -> Primitive {
        if has_path_data {
            Primitive::Path
        } else if tag == "circle"@ || tag == "ellipse"@ {
            Primitive::Oval
        } else {
            Primitive::RoundedRect
        }
    }

    /// The outline of a node with the given tag, with or without path data.
    pub fn of_node(tag: &str, has_path_data: bool) -> (r: Primitive)
        ensures
            r == Primitive::of(tag@, has_path_data),
    {
        if has_path_data {
            Primitive::Path
        } else if str_eq(tag, "circle") || str_eq(tag, "ellipse") {
            Primitive::Oval
        } else {
            Primitive::RoundedRect
        }
    }
}

} // verus!
