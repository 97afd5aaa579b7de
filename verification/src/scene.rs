//! The scene tree as the compositor reads it, and what it decides of a node.
//!
//! Lengths, angles and other real-valued properties are not held here. Where
//! the compositor's decisions rest on one, the style holds the fact that it
//! reads: whether a border has width, whether a corner is rounded, whether a
//! filter is set.

use crate::blend::{blend_mode_of, parse_blend_mode, BlendMode};
use crate::color::{color_of_str, parse_color, Rgba8};
use crate::strings::str_eq;
use crate::style::{is_word, word_is};
use vstd::prelude::*;
use vstd::string::*;

verus! {

/// A gradient's kind and the colours of its stops, first to last.
pub struct GradientConfig {
    /// `radial`, or anything else for a linear gradient.
    pub kind: Option<String>,
    /// One hex colour per stop.
    pub colors: Vec<String>,
}

/// The properties of a node that composition depends on.
pub struct StyleConfig {
    /// Paint order among siblings; 0 where unset.
    pub z_index: Option<i32>,
    /// `hidden` clips the children to the node's outline.
    pub overflow: Option<String>,
    pub background_color: Option<String>,
    pub background_gradient: Option<GradientConfig>,
    pub border_color: Option<String>,
    pub shadow_color: Option<String>,
    pub blend_mode: Option<String>,
    pub mask_mode: Option<String>,
    pub stroke_line_cap: Option<String>,
    pub stroke_line_join: Option<String>,
    /// The colour of text.
    pub color: Option<String>,
    pub font_family: Option<String>,
    pub text_align: Option<String>,
    pub object_fit: Option<String>,
    /// The border's width is set and greater than zero.
    pub border_visible: bool,
    /// Some corner of the node has a radius other than zero.
    pub rounded: bool,
    /// Grayscale, brightness, contrast, saturation, invert or sepia is set.
    pub color_filter: bool,
    /// A blur radius is set.
    pub blur: bool,
}

/// One node of a laid-out scene.
pub struct SceneNode {
    /// The caller's handle for the node. Every command that concerns the node
    /// carries it.
    pub id: usize,
    /// `view`, `rect`, `circle`, `ellipse`, `image`, `path` or `text`.
    pub tag: String,
    pub text: Option<String>,
    /// The id of an image asset.
    pub src: Option<String>,
    /// Path data.
    pub d: Option<String>,
    pub style: StyleConfig,
    pub children: Option<Vec<SceneNode>>,
    /// A sub-scene whose pixels mask this node.
    pub mask: Option<Box<SceneNode>>,
    /// Layout gave the node neither a positive width nor a positive height.
    pub collapsed: bool,
}

impl GradientConfig {
    /// The colours of the gradient's stops, first to last.
    pub open spec fn spec_stop_colors(&self) -> Seq<Rgba8> {
        Seq::new(self.colors@.len(), |i: int| color_of_str(self.colors@[i]@))
    }

    /// Reads the colours of the gradient's stops.
    pub fn stop_colors(&self) -> (colors: Vec<Rgba8>)
        ensures
            colors@ == self.spec_stop_colors(),
    {
        let mut colors: Vec<Rgba8> = Vec::new();
        let mut i: usize = 0;
        while i < self.colors.len()
            invariant
                i <= self.colors.len(),
                colors@.len() == i,
                forall|k: int| 0 <= k < i ==> colors@[k] == color_of_str(self.colors@[k]@),
            decreases self.colors.len() - i,
        {
            colors.push(parse_color(self.colors[i].as_str()));
            i += 1;
        }
        assert(colors@ =~= self.spec_stop_colors());
        colors
    }
}

impl Default for StyleConfig {
    /// The style with nothing set.
    fn default() -> (s: StyleConfig)
        ensures
            s.z_index is None,
            s.overflow is None,
            s.background_color is None,
            s.background_gradient is None,
            s.border_color is None,
            s.shadow_color is None,
            s.blend_mode is None,
            s.mask_mode is None,
            s.stroke_line_cap is None,
            s.stroke_line_join is None,
            s.color is None,
            s.font_family is None,
            s.text_align is None,
            s.object_fit is None,
            !s.border_visible,
            !s.rounded,
            !s.color_filter,
            !s.blur,
    {
        StyleConfig {
            z_index: None,
            overflow: None,
            background_color: None,
            background_gradient: None,
            border_color: None,
            shadow_color: None,
            blend_mode: None,
            mask_mode: None,
            stroke_line_cap: None,
            stroke_line_join: None,
            color: None,
            font_family: None,
            text_align: None,
            object_fit: None,
            border_visible: false,
            rounded: false,
            color_filter: false,
            blur: false,
        }
    }
}

impl StyleConfig {
    /// The style's blend mode; source-over where it names none.
    pub open spec fn spec_blend(&self) -> BlendMode {
        match self.blend_mode {
            Some(name) => blend_mode_of(name@),
            None => BlendMode::SourceOver,
        }
    }

    /// Children are clipped to the node's outline: overflow is hidden, or a
    /// corner is rounded.
    pub open spec fn spec_clips(&self) -> bool {
        is_word(self.overflow, "hidden"@) || self.rounded
    }

    /// A colour filter or a blur is set.
    pub open spec fn spec_has_filters(&self) -> bool {
        self.color_filter || self.blur
    }

    /// The paint order key: the z-index, 0 where unset.
    pub open spec fn spec_z(&self) -> i32 {
        match self.z_index {
            Some(z) => z,
            None => 0,
        }
    }

    #[verifier::when_used_as_spec(spec_blend)]
    pub fn blend(&self) -> (m: BlendMode)
        ensures
            m == self.spec_blend(),
    {
        match &self.blend_mode {
            Some(name) => parse_blend_mode(name.as_str()),
            None => BlendMode::SourceOver,
        }
    }

    #[verifier::when_used_as_spec(spec_clips)]
    pub fn clips(&self) -> (r: bool)
        ensures
            r == self.spec_clips(),
    {
        word_is(&self.overflow, "hidden") || self.rounded
    }

    #[verifier::when_used_as_spec(spec_has_filters)]
    pub fn has_filters(&self) -> (r: bool)
        ensures
            r == self.spec_has_filters(),
    {
        self.color_filter || self.blur
    }

    #[verifier::when_used_as_spec(spec_z)]
    pub fn z(&self) -> (r: i32)
        ensures
            r == self.spec_z(),
    {
        match self.z_index {
            Some(z) => z,
            None => 0,
        }
    }
}

impl SceneNode {
    /// The children, in document order; none where the field is unset.
    pub open spec fn kids(&self) -> Seq<SceneNode> {
        match self.children {
            Some(c) => c@,
            None => Seq::empty(),
        }
    }

    pub open spec fn spec_has_children(&self) -> bool {
        self.kids().len() > 0
    }

    /// The node has something of its own to show: text, path data, or the tag
    /// of a shape or an image.
    pub open spec fn spec_is_renderable(&self) -> bool {
        ||| self.text is Some
        ||| self.d is Some
        ||| self.tag@ == "circle"@
        ||| self.tag@ == "ellipse"@
        ||| self.tag@ == "rect"@
        ||| self.tag@ == "image"@
    }

    /// Nothing is drawn for the node: it has no area, nothing of its own to
    /// show, and no children.
    pub open spec fn spec_is_noop(&self) -> bool {
        self.collapsed && !self.spec_has_children() && !self.spec_is_renderable()
    }

    /// The node is drawn into an offscreen layer: it has a mask, a filter,
    /// clipped children, or children and a blend mode other than source-over.
    pub open spec fn spec_needs_layer(&self) -> bool {
        ||| self.mask is Some
        ||| self.style.spec_has_filters()
        ||| (self.style.spec_clips() && self.spec_has_children())
        ||| (self.style.spec_blend() != BlendMode::SourceOver && self.spec_has_children())
    }

    /// The z-indices of the children, in document order.
    pub open spec fn z_keys(&self) -> Seq<i32> {
        Seq::new(self.kids().len(), |i: int| self.kids()[i].style.spec_z())
    }

    #[verifier::when_used_as_spec(spec_has_children)]
    pub fn has_children(&self) -> (r: bool)
        ensures
            r == self.spec_has_children(),
    {
        match &self.children {
            Some(c) => c.len() > 0,
            None => false,
        }
    }

    #[verifier::when_used_as_spec(spec_is_renderable)]
    pub fn is_renderable(&self) -> (r: bool)
        ensures
            r == self.spec_is_renderable(),
    {
        let tag = self.tag.as_str();
        self.text.is_some() || self.d.is_some() || str_eq(tag, "circle") || str_eq(tag, "ellipse")
            || str_eq(tag, "rect") || str_eq(tag, "image")
    }

    #[verifier::when_used_as_spec(spec_is_noop)]
    pub fn is_noop(&self) -> (r: bool)
        ensures
            r == self.spec_is_noop(),
    {
        self.collapsed && !self.has_children() && !self.is_renderable()
    }

    #[verifier::when_used_as_spec(spec_needs_layer)]
    pub fn needs_layer(&self) -> (r: bool)
        ensures
            r == self.spec_needs_layer(),
    {
        if self.mask.is_some() || self.style.has_filters() {
            return true;
        }
        if !self.has_children() {
            return false;
        }
        self.style.clips() || self.style.blend() != BlendMode::SourceOver
    }
}

} // verus!
