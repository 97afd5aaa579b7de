//! Composition: what is drawn for a scene, and in which order.
//!
//! A scene is turned into a list of commands. Running the list from first to
//! last against a raster backend paints the scene; the list itself only
//! settles order, nesting and the targets of drawing, all of which depend on
//! discrete properties alone.
//!
//! Per node the order is: enter; open a layer where the node needs one;
//! shadow, fill, stroke, image, text; the children in paint order, inside a
//! clip where the node clips; then, for a layer, its filters, its mask and
//! its blit; exit.

use crate::blend::BlendMode;
use crate::color::{color_of_str, opaque_white, parse_color, Rgba8};
use crate::engine::EngineCore;
use crate::order::{paint_order, paint_order_of};
use crate::raster::Raster;
use crate::scene::SceneNode;
use crate::store::has_name;
use crate::strings::str_eq;
use crate::style::{GradientKind, LineCap, LineJoin, MaskMode, ObjectFit, TextAlign};
use vstd::prelude::*;
use vstd::string::*;

verus! {

/// What a node's outline is filled with.
#[derive(Clone, Copy, Debug, PartialEq, Eq, Structural)]
pub enum FillSource {
    /// The style's gradient, of this kind.
    Gradient(GradientKind),
    /// One colour.
    Color(Rgba8),
}

/// One step of painting a scene. `node` is the id of the node concerned.
#[derive(Clone, Copy, Debug, PartialEq, Eq, Structural)]
pub enum Command {
    /// The node begins: its box and opacity come into effect.
    Enter { node: usize },
    /// A transparent offscreen layer becomes the target, at full opacity.
    BeginLayer { node: usize },
    /// The outline's shadow. Always drawn source-over.
    Shadow { node: usize, color: Rgba8 },
    /// The outline's interior.
    Fill { node: usize, source: FillSource, blend: BlendMode },
    /// The outline itself, in the border's colour and width.
    Stroke { node: usize, color: Rgba8, cap: LineCap, join: LineJoin, blend: BlendMode },
    /// The node's image asset, fitted into the box; `filtered` where the
    /// node's filters are applied to the image first.
    Image { node: usize, fit: ObjectFit, filtered: bool, blend: BlendMode },
    /// The node's text.
    Text { node: usize, color: Rgba8, align: TextAlign, blend: BlendMode },
    /// A transparent intermediate becomes the target of the children.
    BeginClip { node: usize },
    /// The intermediate is blitted through the node's outline.
    EndClip { node: usize },
    /// The node's filters are applied to its layer.
    Filter { node: usize },
    /// A transparent raster becomes the target of the mask's sub-scene.
    BeginMask { node: usize },
    /// The mask is derived from the sub-scene's pixels.
    EndMask { node: usize, mode: MaskMode },
    /// The layer is blitted at the node's opacity, through the mask if there
    /// is one.
    EndLayer { node: usize, blend: BlendMode, masked: bool },
    /// The node ends.
    Exit { node: usize },
}

/// What composition reads of the engine: whether text can be set at all, and
/// which image assets are loaded.
pub struct Resources {
    pub has_font: bool,
    pub assets: Seq<(Seq<char>, Raster)>,
}

impl EngineCore {
    pub open spec fn resources(&self) -> Resources {
        Resources { has_font: self.spec_has_font(), assets: self.assets() }
    }
}

impl SceneNode {
    /// The blend mode of the node's own drawing: inside a layer everything is
    /// drawn source-over, and the layer's blit blends.
    pub open spec fn draw_blend(&self) -> BlendMode {
        if self.spec_needs_layer() {
            BlendMode::SourceOver
        } else {
            self.style.spec_blend()
        }
    }

    /// The node's text is set: it has some, and a font is loaded.
    pub open spec fn draws_text(&self, res: Resources) -> bool {
        self.text is Some && res.has_font
    }

    /// The node's image is drawn: it is an image node whose asset is loaded.
    pub open spec fn draws_image(&self, res: Resources) -> bool {
        self.tag@ == "image"@ && (self.src matches Some(id) && has_name(res.assets, id@))
    }

    /// The children are drawn: there are some, and the node is not a text
    /// leaf, whose children take no part in layout.
    pub open spec fn draws_children(&self, res: Resources) -> bool {
        self.spec_has_children() && !self.draws_text(res)
    }

    pub open spec fn shadow_step(&self) -> Seq<Command> {
        match self.style.shadow_color {
            Some(c) => seq![Command::Shadow { node: self.id, color: color_of_str(c@) }],
            None => Seq::empty(),
        }
    }

    pub open spec fn fill_step(&self) -> Seq<Command> {
        match (self.style.background_gradient, self.style.background_color) {
            (Some(g), _) => seq![
                Command::Fill {
                    node: self.id,
                    source: FillSource::Gradient(GradientKind::of(g.kind)),
                    blend: self.draw_blend(),
                },
            ],
            (None, Some(c)) => seq![
                Command::Fill {
                    node: self.id,
                    source: FillSource::Color(color_of_str(c@)),
                    blend: self.draw_blend(),
                },
            ],
            (None, None) => Seq::empty(),
        }
    }

    pub open spec fn stroke_step(&self) -> Seq<Command> {
        match self.style.border_color {
            Some(c) if self.style.border_visible => seq![
                Command::Stroke {
                    node: self.id,
                    color: color_of_str(c@),
                    cap: LineCap::of(self.style.stroke_line_cap),
                    join: LineJoin::of(self.style.stroke_line_join),
                    blend: self.draw_blend(),
                },
            ],
            _ => Seq::empty(),
        }
    }

    pub open spec fn image_step(&self, res: Resources) -> Seq<Command> {
        if self.draws_image(res) {
            seq![
                Command::Image {
                    node: self.id,
                    fit: ObjectFit::of(self.style.object_fit),
                    filtered: self.style.spec_has_filters(),
                    blend: self.draw_blend(),
                },
            ]
        } else {
            Seq::empty()
        }
    }

    pub open spec fn text_step(&self, res: Resources) -> Seq<Command> {
        if self.draws_text(res) {
            seq![
                Command::Text {
                    node: self.id,
                    color: match self.style.color {
                        Some(c) => color_of_str(c@),
                        None => opaque_white(),
                    },
                    align: TextAlign::of(self.style.text_align),
                    blend: self.draw_blend(),
                },
            ]
        } else {
            Seq::empty()
        }
    }

    /// The commands before the children: enter, the layer's start, and the
    /// node's own drawing in its fixed order.
    pub open spec fn opening(&self, res: Resources) -> Seq<Command> {
        seq![Command::Enter { node: self.id }] + (if self.spec_needs_layer() {
            seq![Command::BeginLayer { node: self.id }]
        } else {
            Seq::empty()
        }) + self.shadow_step() + self.fill_step() + self.stroke_step() + self.image_step(res)
            + self.text_step(res)
    }

    /// The commands of the first `upto` children in paint order.
    pub open spec fn children_commands(&self, res: Resources, upto: nat) -> Seq<Command>
        decreases *self, 0int, upto,
    {
        let order = paint_order_of(self.z_keys());
        if upto == 0 || upto > order.len() || order[upto - 1] >= self.kids().len() {
            Seq::empty()
        } else {
            self.children_commands(res, (upto - 1) as nat) + self.kids()[order[upto - 1] as int].commands(res)
        }
    }

    /// The children's part: all children in paint order, bracketed by the
    /// clip where the node clips.
    pub open spec fn children_part(&self, res: Resources) -> Seq<Command>
        decreases *self, 1int, 0nat,
    {
        if !self.draws_children(res) {
            Seq::empty()
        } else if self.style.spec_clips() {
            seq![Command::BeginClip { node: self.id }] + self.children_commands(res, self.kids().len())
                + seq![Command::EndClip { node: self.id }]
        } else {
            self.children_commands(res, self.kids().len())
        }
    }

    /// The mask's part: its sub-scene between the commands that set the
    /// target and derive the mask.
    pub open spec fn mask_part(&self, res: Resources) -> Seq<Command>
        decreases *self, 1int, 0nat,
    {
        match self.mask {
            Some(m) => seq![Command::BeginMask { node: self.id }] + m.commands(res) + seq![
                Command::EndMask { node: self.id, mode: MaskMode::of(self.style.mask_mode) },
            ],
            None => Seq::empty(),
        }
    }

    /// The commands after the mask: the layer's blit, and exit.
    pub open spec fn closing(&self) -> Seq<Command> {
        (if self.spec_needs_layer() {
            seq![
                Command::EndLayer {
                    node: self.id,
                    blend: self.style.spec_blend(),
                    masked: self.mask is Some,
                },
            ]
        } else {
            Seq::empty()
        }) + seq![Command::Exit { node: self.id }]
    }

    pub open spec fn filter_step(&self) -> Seq<Command> {
        if self.style.spec_has_filters() {
            seq![Command::Filter { node: self.id }]
        } else {
            Seq::empty()
        }
    }

    /// Everything that is drawn for the node and what hangs below it.
    pub open spec fn commands(&self, res: Resources) -> Seq<Command>
        decreases *self, 2int, 0nat,
    {
        if self.spec_is_noop() {
            Seq::empty()
        } else {
            self.opening(res) + self.children_part(res) + self.filter_step() + self.mask_part(res)
                + self.closing()
        }
    }
}

fn z_keys_of(node: &SceneNode) -> (keys: Vec<i32>)
    ensures
        keys@ == node.z_keys(),
{
    let mut keys: Vec<i32> = Vec::new();
    match &node.children {
        Some(children) => {
            let mut i: usize = 0;
            while i < children.len()
                invariant
                    i <= children.len(),
                    node.children == Some(*children),
                    keys@.len() == i,
                    forall|k: int| 0 <= k < i ==> keys@[k] == node.kids()[k].style.spec_z(),
                decreases children.len() - i,
            {
                keys.push(children[i].style.z());
                i += 1;
            }
        },
        None => {},
    }
    assert(keys@ =~= node.z_keys());
    keys
}

fn own_blend(node: &SceneNode) -> (blend: BlendMode)
    ensures
        blend == node.draw_blend(),
{
    if node.needs_layer() {
        BlendMode::SourceOver
    } else {
        node.style.blend()
    }
}

fn push_shadow(node: &SceneNode, out: &mut Vec<Command>)
    ensures
        final(out)@ == old(out)@ + node.shadow_step(),
{
    match &node.style.shadow_color {
        Some(c) => {
            out.push(Command::Shadow { node: node.id, color: parse_color(c.as_str()) });
        },
        None => {},
    }
    assert(out@ =~= old(out)@ + node.shadow_step());
}

fn push_fill(node: &SceneNode, out: &mut Vec<Command>)
    ensures
        final(out)@ == old(out)@ + node.fill_step(),
{
    let blend = own_blend(node);
    match &node.style.background_gradient {
        Some(g) => {
            let source = FillSource::Gradient(GradientKind::from_keyword(&g.kind));
            out.push(Command::Fill { node: node.id, source, blend });
        },
        None => {
            match &node.style.background_color {
                Some(c) => {
                    let source = FillSource::Color(parse_color(c.as_str()));
                    out.push(Command::Fill { node: node.id, source, blend });
                },
                None => {},
            }
        },
    }
    assert(out@ =~= old(out)@ + node.fill_step());
}

fn push_stroke(node: &SceneNode, out: &mut Vec<Command>)
    ensures
        final(out)@ == old(out)@ + node.stroke_step(),
{
    if node.style.border_visible {
        match &node.style.border_color {
            Some(c) => {
                let color = parse_color(c.as_str());
                let cap = LineCap::from_keyword(&node.style.stroke_line_cap);
                let join = LineJoin::from_keyword(&node.style.stroke_line_join);
                let blend = own_blend(node);
                out.push(Command::Stroke { node: node.id, color, cap, join, blend });
            },
            None => {},
        }
    }
    assert(out@ =~= old(out)@ + node.stroke_step());
}

fn image_drawn(node: &SceneNode, engine: &EngineCore) -> (r: bool)
    ensures
        r == node.draws_image(engine.resources()),
{
    if !str_eq(node.tag.as_str(), "image") {
        return false;
    }
    match &node.src {
        Some(src) => engine.has_asset(src.as_str()),
        None => false,
    }
}

fn text_drawn(node: &SceneNode, engine: &EngineCore) -> (r: bool)
    ensures
        r == node.draws_text(engine.resources()),
{
    node.text.is_some() && engine.has_font()
}

fn push_image(node: &SceneNode, engine: &EngineCore, out: &mut Vec<Command>)
    ensures
        final(out)@ == old(out)@ + node.image_step(engine.resources()),
{
    if image_drawn(node, engine) {
        let fit = ObjectFit::from_keyword(&node.style.object_fit);
        let filtered = node.style.has_filters();
        let blend = own_blend(node);
        out.push(Command::Image { node: node.id, fit, filtered, blend });
    }
    assert(out@ =~= old(out)@ + node.image_step(engine.resources()));
}

fn push_text(node: &SceneNode, engine: &EngineCore, out: &mut Vec<Command>)
    ensures
        final(out)@ == old(out)@ + node.text_step(engine.resources()),
{
    if text_drawn(node, engine) {
        let color = match &node.style.color {
            Some(c) => parse_color(c.as_str()),
            None => Rgba8 { r: 255, g: 255, b: 255, a: 255 },
        };
        let align = TextAlign::from_keyword(&node.style.text_align);
        let blend = own_blend(node);
        out.push(Command::Text { node: node.id, color, align, blend });
    }
    assert(out@ =~= old(out)@ + node.text_step(engine.resources()));
}

fn push_opening(node: &SceneNode, engine: &EngineCore, out: &mut Vec<Command>)
    ensures
        final(out)@ == old(out)@ + node.opening(engine.resources()),
{
    out.push(Command::Enter { node: node.id });
    if node.needs_layer() {
        out.push(Command::BeginLayer { node: node.id });
    }
    push_shadow(node, out);
    push_fill(node, out);
    push_stroke(node, out);
    push_image(node, engine, out);
    push_text(node, engine, out);
    assert(out@ =~= old(out)@ + node.opening(engine.resources()));
}

fn push_filter(node: &SceneNode, out: &mut Vec<Command>)
    ensures
        final(out)@ == old(out)@ + node.filter_step(),
{
    if node.style.has_filters() {
        out.push(Command::Filter { node: node.id });
    }
    assert(out@ =~= old(out)@ + node.filter_step());
}

fn push_closing(node: &SceneNode, out: &mut Vec<Command>)
    ensures
        final(out)@ == old(out)@ + node.closing(),
{
    if node.needs_layer() {
        let blend = node.style.blend();
        out.push(Command::EndLayer { node: node.id, blend, masked: node.mask.is_some() });
    }
    out.push(Command::Exit { node: node.id });
    assert(out@ =~= old(out)@ + node.closing());
}

fn compose_children(node: &SceneNode, engine: &EngineCore, out: &mut Vec<Command>)
    ensures
        final(out)@ == old(out)@ + node.children_part(engine.resources()),
    decreases node, 1int,
{
    let ghost res = engine.resources();
    let ghost start = out@;
    if text_drawn(node, engine) {
        assert(out@ =~= start + node.children_part(res));
        return ;
    }
    match &node.children {
        Some(children) => {
            if children.len() > 0 {
                let clip = node.style.clips();
                if clip {
                    out.push(Command::BeginClip { node: node.id });
                }
                let ghost base = out@;
                let keys = z_keys_of(node);
                let order = paint_order(&keys);
                let mut k: usize = 0;
                while k < order.len()
                    invariant
                        k <= order.len(),
                        node.children == Some(*children),
                        order@ == paint_order_of(node.z_keys()),
                        crate::order::is_paint_order(node.z_keys(), order@),
                        res == engine.resources(),
                        out@ == base + node.children_commands(res, k as nat),
                    decreases order.len() - k,
                {
                    let which: usize = order[k];
                    compose_into(&children[which], engine, out);
                    assert(out@ =~= base + node.children_commands(res, (k + 1) as nat));
                    k += 1;
                }
                if clip {
                    out.push(Command::EndClip { node: node.id });
                }
            }
        },
        None => {},
    }
    assert(out@ =~= start + node.children_part(res));
}

fn compose_mask(node: &SceneNode, engine: &EngineCore, out: &mut Vec<Command>)
    ensures
        final(out)@ == old(out)@ + node.mask_part(engine.resources()),
    decreases node, 1int,
{
    match &node.mask {
        Some(m) => {
            out.push(Command::BeginMask { node: node.id });
            compose_into(m, engine, out);
            let mode = MaskMode::from_keyword(&node.style.mask_mode);
            out.push(Command::EndMask { node: node.id, mode });
        },
        None => {},
    }
    assert(out@ =~= old(out)@ + node.mask_part(engine.resources()));
}

fn compose_into(node: &SceneNode, engine: &EngineCore, out: &mut Vec<Command>)
    ensures
        final(out)@ == old(out)@ + node.commands(engine.resources()),
    decreases node, 2int,
{
    if node.is_noop() {
        assert(out@ =~= old(out)@ + node.commands(engine.resources()));
        return ;
    }
    push_opening(node, engine, out);
    compose_children(node, engine, out);
    push_filter(node, out);
    compose_mask(node, engine, out);
    push_closing(node, out);
    assert(out@ =~= old(out)@ + node.commands(engine.resources()));
}

/// Compiles a scene into the list of commands that paints it.
pub fn compose(node: &SceneNode, engine: &EngineCore) -> (list: Vec<Command>)
    ensures
        list@ == node.commands(engine.resources()),
{
    let mut list: Vec<Command> = Vec::new();
    compose_into(node, engine, &mut list);
    assert(list@ =~= node.commands(engine.resources()));
    list
}

} // verus!
