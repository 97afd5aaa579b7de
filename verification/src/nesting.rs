//! Nesting of command lists.
//!
//! Four commands open a scope and four close one. A backend that keeps a
//! stack of targets pushes on the first kind and pops on the second; the
//! lists that composition makes never pop an empty stack and leave it as
//! they found it.

use crate::compositor::{Command, Resources};
use crate::scene::SceneNode;
use vstd::prelude::*;

verus! {

/// By how much a command changes the depth of nesting.
pub open spec fn step(c: Command) -> int {
    match c {
        Command::Enter { .. } | Command::BeginLayer { .. } | Command::BeginClip { .. } | Command::BeginMask {
            ..
        } => 1,
        Command::Exit { .. } | Command::EndLayer { .. } | Command::EndClip { .. } | Command::EndMask { .. } => -1,
        _ => 0,
    }
}

/// The depth of nesting after the commands of `s`, from depth 0.
pub open spec fn depth(s: Seq<Command>) -> int
    decreases s.len(),
{
    if s.len() == 0 {
        0
    } else {
        depth(s.drop_last()) + step(s.last())
    }
}

/// Started at depth `base`, no prefix of `s` goes below depth 0.
pub open spec fn stays_above(s: Seq<Command>, base: int) -> bool {
    forall|k: int| 0 <= k <= s.len() ==> base + depth(#[trigger] s.take(k)) >= 0
}

/// The list closes exactly what it opens, and nothing before it is open.
pub open spec fn well_nested(s: Seq<Command>) -> bool {
    depth(s) == 0 && stays_above(s, 0)
}

proof fn lemma_depth_concat(a: Seq<Command>, b: Seq<Command>)
    ensures
        depth(a + b) == depth(a) + depth(b),
    decreases b.len(),
{
    if b.len() == 0 {
        assert(a + b =~= a);
    } else {
        lemma_depth_concat(a, b.drop_last());
        assert((a + b).drop_last() =~= a + b.drop_last());
    }
}

/// Two lists in a row stay above 0 where the first does from the base and
/// the second does from where the first ends.
proof fn lemma_stays_above_concat(a: Seq<Command>, b: Seq<Command>, base: int)
    requires
        stays_above(a, base),
        stays_above(b, base + depth(a)),
    ensures
        stays_above(a + b, base),
        depth(a + b) == depth(a) + depth(b),
{
    lemma_depth_concat(a, b);
    assert forall|k: int| 0 <= k <= (a + b).len() implies base + depth(#[trigger] (a + b).take(k)) >= 0 by {
        if k <= a.len() {
            assert((a + b).take(k) =~= a.take(k));
        } else {
            assert((a + b).take(k) =~= a + b.take(k - a.len()));
            lemma_depth_concat(a, b.take(k - a.len()));
        }
    }
}

/// A higher start keeps a list above 0 that a lower start does.
proof fn lemma_stays_above_raise(s: Seq<Command>, base: int, higher: int)
    requires
        stays_above(s, base),
        base <= higher,
    ensures
        stays_above(s, higher),
{
}

proof fn lemma_empty(base: int)
    requires
        base >= 0,
    ensures
        depth(Seq::<Command>::empty()) == 0,
        stays_above(Seq::<Command>::empty(), base),
{
    assert forall|k: int| 0 <= k <= 0 implies base + depth(#[trigger] Seq::<Command>::empty().take(k)) >= 0 by {
        assert(Seq::<Command>::empty().take(k) =~= Seq::<Command>::empty());
    }
}

proof fn lemma_single(c: Command, base: int)
    requires
        base >= 0,
        base + step(c) >= 0,
    ensures
        depth(seq![c]) == step(c),
        stays_above(seq![c], base),
{
    let s = seq![c];
    assert(s.drop_last() =~= Seq::<Command>::empty());
    assert(depth(Seq::<Command>::empty()) == 0);
    assert(s.last() == c);
    assert(depth(s) == step(c));
    assert forall|k: int| 0 <= k <= s.len() implies base + depth(#[trigger] s.take(k)) >= 0 by {
        if k == 0 {
            assert(s.take(0) =~= Seq::<Command>::empty());
        } else {
            assert(k == 1);
            assert(s.take(1) =~= s);
        }
    }
}

/// A list of at most one command that changes no depth.
spec fn flat(s: Seq<Command>) -> bool {
    s.len() == 0 || (s.len() == 1 && step(s[0]) == 0)
}

proof fn lemma_flat(s: Seq<Command>, base: int)
    requires
        flat(s),
        base >= 0,
    ensures
        depth(s) == 0,
        stays_above(s, base),
{
    if s.len() == 0 {
        assert(s =~= Seq::<Command>::empty());
        lemma_empty(base);
    } else {
        assert(s =~= seq![s[0]]);
        lemma_single(s[0], base);
    }
}

/// The commands before the children open one scope, or two with a layer.
proof fn lemma_opening(node: SceneNode, res: Resources, base: int)
    requires
        base >= 0,
    ensures
        depth(node.opening(res)) == if node.spec_needs_layer() {
            2int
        } else {
            1int
        },
        stays_above(node.opening(res), base),
{
    let enter = seq![Command::Enter { node: node.id }];
    let layer = if node.spec_needs_layer() {
        seq![Command::BeginLayer { node: node.id }]
    } else {
        Seq::empty()
    };
    lemma_single(Command::Enter { node: node.id }, base);
    if node.spec_needs_layer() {
        lemma_single(Command::BeginLayer { node: node.id }, base + 1);
    } else {
        lemma_empty(base + 1);
    }
    lemma_stays_above_concat(enter, layer, base);
    let d = depth(enter + layer);
    let s1 = enter + layer;
    lemma_flat(node.shadow_step(), base + d);
    lemma_stays_above_concat(s1, node.shadow_step(), base);
    let s2 = s1 + node.shadow_step();
    lemma_flat(node.fill_step(), base + d);
    lemma_stays_above_concat(s2, node.fill_step(), base);
    let s3 = s2 + node.fill_step();
    lemma_flat(node.stroke_step(), base + d);
    lemma_stays_above_concat(s3, node.stroke_step(), base);
    let s4 = s3 + node.stroke_step();
    lemma_flat(node.image_step(res), base + d);
    lemma_stays_above_concat(s4, node.image_step(res), base);
    let s5 = s4 + node.image_step(res);
    lemma_flat(node.text_step(res), base + d);
    lemma_stays_above_concat(s5, node.text_step(res), base);
    assert(node.opening(res) == s5 + node.text_step(res));
}

/// The commands after the mask close what the opening opened.
proof fn lemma_closing(node: SceneNode, base: int)
    requires
        base >= 2,
    ensures
        depth(node.closing()) == if node.spec_needs_layer() {
            -2int
        } else {
            -1int
        },
        stays_above(node.closing(), base),
{
    let exit = seq![Command::Exit { node: node.id }];
    if node.spec_needs_layer() {
        let end = Command::EndLayer {
            node: node.id,
            blend: node.style.spec_blend(),
            masked: node.mask is Some,
        };
        lemma_single(end, base);
        lemma_single(Command::Exit { node: node.id }, base - 1);
        lemma_stays_above_concat(seq![end], exit, base);
    } else {
        lemma_empty(base);
        lemma_single(Command::Exit { node: node.id }, base);
        lemma_stays_above_concat(Seq::empty(), exit, base);
    }
}

/// The commands of the first children in paint order are well nested.
proof fn lemma_children_commands(node: SceneNode, res: Resources, upto: nat)
    ensures
        well_nested(node.children_commands(res, upto)),
    decreases node, 0int, upto,
{
    let order = crate::order::paint_order_of(node.z_keys());
    if upto == 0 || upto > order.len() || order[upto - 1] >= node.kids().len() {
        lemma_empty(0);
    } else {
        let child = node.kids()[order[upto - 1] as int];
        lemma_children_commands(node, res, (upto - 1) as nat);
        lemma_commands_well_nested(child, res);
        lemma_stays_above_concat(node.children_commands(res, (upto - 1) as nat), child.commands(res), 0);
    }
}

/// The children's part is well nested, with or without its clip.
proof fn lemma_children_part(node: SceneNode, res: Resources)
    ensures
        well_nested(node.children_part(res)),
    decreases node, 1int, 0nat,
{
    if !node.draws_children(res) {
        lemma_empty(0);
    } else {
        let inner = node.children_commands(res, node.kids().len());
        lemma_children_commands(node, res, node.kids().len());
        if node.style.spec_clips() {
            let begin = Command::BeginClip { node: node.id };
            let end = Command::EndClip { node: node.id };
            lemma_single(begin, 0);
            lemma_stays_above_raise(inner, 0, 1);
            lemma_stays_above_concat(seq![begin], inner, 0);
            lemma_single(end, 1);
            lemma_stays_above_concat(seq![begin] + inner, seq![end], 0);
        }
    }
}

/// The mask's part is well nested.
proof fn lemma_mask_part(node: SceneNode, res: Resources)
    ensures
        well_nested(node.mask_part(res)),
    decreases node, 1int, 0nat,
{
    match node.mask {
        Some(m) => {
            let inner = m.commands(res);
            lemma_commands_well_nested(*m, res);
            let begin = Command::BeginMask { node: node.id };
            let end = Command::EndMask { node: node.id, mode: crate::style::MaskMode::of(node.style.mask_mode) };
            lemma_single(begin, 0);
            lemma_stays_above_raise(inner, 0, 1);
            lemma_stays_above_concat(seq![begin], inner, 0);
            lemma_single(end, 1);
            lemma_stays_above_concat(seq![begin] + inner, seq![end], 0);
        },
        None => {
            lemma_empty(0);
        },
    }
}

/// Every scene's commands are well nested: each scope that a command opens
/// is closed later in the list, and no command closes a scope that is not
/// open.
pub proof fn lemma_commands_well_nested(node: SceneNode, res: Resources)
    ensures
        well_nested(node.commands(res)),
    decreases node, 2int, 0nat,
{
    if node.spec_is_noop() {
        lemma_empty(0);
    } else {
        let d: int = if node.spec_needs_layer() {
            2
        } else {
            1
        };
        let a = node.opening(res);
        let b = node.children_part(res);
        let c = node.filter_step();
        let m = node.mask_part(res);
        let z = node.closing();
        lemma_opening(node, res, 0);
        lemma_children_part(node, res);
        lemma_stays_above_raise(b, 0, d);
        lemma_stays_above_concat(a, b, 0);
        lemma_flat(c, d);
        lemma_stays_above_concat(a + b, c, 0);
        lemma_mask_part(node, res);
        lemma_stays_above_raise(m, 0, d);
        lemma_stays_above_concat(a + b + c, m, 0);
        lemma_closing(node, 2);
        if d == 1 {
            let exit = Command::Exit { node: node.id };
            assert(z =~= seq![exit]);
            lemma_single(exit, 1);
        }
        lemma_stays_above_concat(a + b + c + m, z, 0);
    }
}

/// Where a node clips, its children are drawn inside the clip, and the clip
/// inside the node's layer: the children's part starts by opening the clip
/// and ends by closing it.
pub proof fn lemma_clip_encloses_children(node: SceneNode, res: Resources)
    requires
        node.style.spec_clips(),
        node.draws_children(res),
    ensures
        node.spec_needs_layer(),
        node.children_part(res).first() == (Command::BeginClip { node: node.id }),
        node.children_part(res).last() == (Command::EndClip { node: node.id }),
        node.children_part(res).subrange(1, node.children_part(res).len() - 1) == node.children_commands(
            res,
            node.kids().len(),
        ),
{
    let inner = node.children_commands(res, node.kids().len());
    let part = node.children_part(res);
    assert(part =~= seq![Command::BeginClip { node: node.id }] + inner + seq![
        Command::EndClip { node: node.id },
    ]);
    assert(part.subrange(1, part.len() - 1) =~= inner);
}

} // verus!
