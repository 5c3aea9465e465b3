//! The classification of a tile: the style it is filled with, and the
//! explanation of its cause for the invalidation report.

use std::collections::HashMap;
use vstd::prelude::*;
use vstd::string::*;
use crate::items::{
    difference, difference_of, display_name, item_lines, item_lines_string, push_display_name,
};
use crate::model::{
    Cause, ClipBox, Color, CompareHelperResult, InvalidationReason, ItemUid,
    PrimitiveCompareResultDetail, PrimitiveDescriptor, Rgb,
};
use crate::number::equal_values;
use crate::text::{bool_text, decimal, push_bool, push_decimal};

verus! {

/// The position of a cause's variant in the list of the ten variants.
pub open spec fn variant_index(reason: InvalidationReason) -> nat {
    match reason {
        InvalidationReason::FractionalOffset { .. } => 0,
        InvalidationReason::BackgroundColor { .. } => 1,
        InvalidationReason::SurfaceOpacityChanged { .. } => 2,
        InvalidationReason::NoTexture => 3,
        InvalidationReason::NoSurface => 4,
        InvalidationReason::PrimCount { .. } => 5,
        InvalidationReason::Content { .. } => 6,
        InvalidationReason::CompositorKindChanged => 7,
        InvalidationReason::ValidRectChanged => 8,
        InvalidationReason::ScaleChanged => 9,
    }
}

/// The fill of a tile that has a cause: one colour for each variant.
pub open spec fn reason_style(reason: InvalidationReason) -> Seq<char> {
    match reason {
        InvalidationReason::FractionalOffset { .. } => "fill:#4040c0;fill-opacity:0.1;"@,
        InvalidationReason::BackgroundColor { .. } => "fill:#10c070;fill-opacity:0.1;"@,
        InvalidationReason::SurfaceOpacityChanged { .. } => "fill:#c040c0;fill-opacity:0.1;"@,
        InvalidationReason::NoTexture => "fill:#c04040;fill-opacity:0.1;"@,
        InvalidationReason::NoSurface => "fill:#40c040;fill-opacity:0.1;"@,
        InvalidationReason::PrimCount { .. } => "fill:#40f0f0;fill-opacity:0.1;"@,
        InvalidationReason::Content { .. } => "fill:#f04040;fill-opacity:0.1;"@,
        InvalidationReason::CompositorKindChanged => "fill:#f0c070;fill-opacity:0.1;"@,
        InvalidationReason::ValidRectChanged => "fill:#ff00ff;fill-opacity:0.1;"@,
        InvalidationReason::ScaleChanged => "fill:#ff80ff;fill-opacity:0.1;"@,
    }
}

/// The fill that shows a background colour.
pub open spec fn color_style(c: Rgb) -> Seq<char> {
    "fill:rgb("@ + decimal(c.r as nat) + ","@ + decimal(c.g as nat) + ","@ + decimal(c.b as nat)
        + ");fill-opacity:0.3;"@
}

/// The background of a tile: its own, or else that of its tile cache.
pub open spec fn background(current: Option<Rgb>, fallback: Option<Rgb>) -> Option<Rgb> {
    if current is Some {
        current
    } else {
        fallback
    }
}

/// The fill of a tile: by its cause where it has one, else by its background,
/// else none.
pub open spec fn fill_style(
    cause: Option<Cause>,
    current: Option<Rgb>,
    fallback: Option<Rgb>,
) -> Seq<char> {
    match cause {
        Some(cause) => reason_style(cause.reason),
        None => match background(current, fallback) {
            Some(c) => color_style(c),
            None => "fill:none;"@,
        },
    }
}

/// A colour in the report: its four channels in parentheses, or `none`.
pub open spec fn opt_color_text(c: Option<Color>) -> Seq<char> {
    match c {
        Some(c) => "("@ + c.r@ + ","@ + c.g@ + ","@ + c.b@ + ","@ + c.a@ + ")"@,
        None => "none"@,
    }
}

/// Whether two clip boxes differ: one of the four bounds of the one is not
/// equal, as a number, to that bound of the other.
pub open spec fn clip_box_differs(a: ClipBox, b: ClipBox) -> bool {
    !(equal_values(a.min_x.bits(), b.min_x.bits()) && equal_values(a.min_y.bits(), b.min_y.bits())
        && equal_values(a.max_x.bits(), b.max_x.bits()) && equal_values(
        a.max_y.bits(),
        b.max_y.bits(),
    ))
}

/// The bullet that reports a changed clip box, or nothing where it did not change.
pub open spec fn clip_box_change(a: ClipBox, b: ClipBox) -> Seq<char> {
    if clip_box_differs(a, b) {
        "<li><b>prim_clip_rect</b> changed from "@ + a.min_x@ + ","@ + a.min_y@ + " -> "@
            + a.max_x@ + ","@ + a.max_y@ + " to "@ + b.min_x@ + ","@ + b.min_y@ + " -> "@
            + b.max_x@ + ","@ + b.max_y@ + "</li>"@
    } else {
        Seq::empty()
    }
}

/// One side of a change to another primitive: the dump of the descriptor and
/// the display name of its item, under `label`.
pub open spec fn descriptor_side(
    names: Map<u64, String>,
    label: Seq<char>,
    d: PrimitiveDescriptor,
) -> Seq<char> {
    label + d.dump@ + "</li><li>Item: "@ + display_name(names, d.prim_uid) + "</li></ul>"@
}

/// The explanation of a changed descriptor. Where the primitive is the same, the
/// fields that changed; where it is another, both descriptors in full.
pub open spec fn descriptor_explanation(
    names: Map<u64, String>,
    a: PrimitiveDescriptor,
    b: PrimitiveDescriptor,
) -> Seq<char> {
    if a.prim_uid == b.prim_uid {
        "<b>Content: Descriptor</b> changed for uid "@ + decimal(a.prim_uid.uid as nat)
            + "<br/>"@ + "<ul>"@ + clip_box_change(a.prim_clip_box, b.prim_clip_box)
            + "<li>Item: "@ + display_name(names, a.prim_uid) + "</li></ul>"@
    } else {
        "<b>Content: Descriptor</b> changed; old uid "@ + decimal(a.prim_uid.uid as nat)
            + ", new uid "@ + decimal(b.prim_uid.uid as nat) + ":<br/>"@ + descriptor_side(
            names,
            "old:<ul><li>Desc: "@,
            a,
        ) + descriptor_side(names, "new:<ul><li>Desc: "@, b)
    }
}

/// The explanation of a changed clip list.
pub open spec fn clip_explanation(names: Map<u64, String>, detail: CompareHelperResult) -> Seq<
    char,
> {
    match detail {
        CompareHelperResult::Count { prev_count, curr_count } =>
            "<b>Content: Clip</b> count changed from "@ + decimal(prev_count as nat) + " to "@
                + decimal(curr_count as nat) + "<br/>"@,
        CompareHelperResult::NotEqual { prev, curr } =>
            "<b>Content: Clip</b> ItemUids changed from "@ + decimal(prev.uid as nat) + " to "@
                + decimal(curr.uid as nat) + ":<br/>"@ + "old:<ul><li>"@ + display_name(
                names,
                prev,
            ) + "</li></ul>"@ + "new:<ul><li>"@ + display_name(names, curr) + "</li></ul>"@,
        CompareHelperResult::Other { dump } => dump@,
    }
}

/// The explanation of a content change, by its detail.
pub open spec fn content_explanation(
    names: Map<u64, String>,
    detail: PrimitiveCompareResultDetail,
) -> Seq<char> {
    match detail {
        PrimitiveCompareResultDetail::Descriptor { old, new } => descriptor_explanation(
            names,
            old,
            new,
        ),
        PrimitiveCompareResultDetail::Clip { detail } => clip_explanation(names, detail),
        PrimitiveCompareResultDetail::Other { dump } => dump@,
    }
}

/// The explanation of a change of the number of primitives: both counts, the
/// items that left and the items that came.
pub open spec fn prim_count_explanation(
    names: Map<u64, String>,
    before: Seq<ItemUid>,
    after: Seq<ItemUid>,
) -> Seq<char> {
    "<b>PrimCount</b> changed from "@ + decimal(before.len()) + " to "@ + decimal(after.len())
        + ":<br/>removed:<ul>"@ + item_lines(names, difference(before, after))
        + "</ul>\n                              added:<ul>"@ + item_lines(
        names,
        difference(after, before),
    ) + "</ul>"@
}

/// The explanation of a cause, as it stands in the invalidation report. A cause
/// without fields is explained by its dump.
pub open spec fn explanation(names: Map<u64, String>, cause: Cause) -> Seq<char> {
    match cause.reason {
        InvalidationReason::FractionalOffset { old, new } =>
            "<b>FractionalOffset</b> changed from ("@ + old.x@ + ","@ + old.y@ + ") to ("@
                + new.x@ + ","@ + new.y@ + ")"@,
        InvalidationReason::BackgroundColor { old, new } =>
            "<b>BackGroundColor</b> changed from "@ + opt_color_text(old) + " to "@
                + opt_color_text(new),
        InvalidationReason::SurfaceOpacityChanged { became_opaque } =>
            "<b>SurfaceOpacityChanged</b> changed from "@ + bool_text(!became_opaque) + " to "@
                + bool_text(became_opaque),
        InvalidationReason::PrimCount { old, new } => prim_count_explanation(names, old@, new@),
        InvalidationReason::Content { prim_compare_result_detail, .. } => content_explanation(
            names,
            prim_compare_result_detail,
        ),
        InvalidationReason::NoTexture => cause.dump@,
        InvalidationReason::NoSurface => cause.dump@,
        InvalidationReason::CompositorKindChanged => cause.dump@,
        InvalidationReason::ValidRectChanged => cause.dump@,
        InvalidationReason::ScaleChanged => cause.dump@,
    }
}

/// The explanation of the cause of a tile: nothing where it has none.
pub open spec fn cause_explanation(names: Map<u64, String>, cause: Option<Cause>) -> Seq<char> {
    match cause {
        Some(cause) => explanation(names, cause),
        None => Seq::empty(),
    }
}

/// The fill of a tile that has a cause.
pub fn reason_style_str(reason: &InvalidationReason) -> (style: &'static str)
    ensures
        style@ == reason_style(*reason),
{
    match reason {
        InvalidationReason::FractionalOffset { .. } => "fill:#4040c0;fill-opacity:0.1;",
        InvalidationReason::BackgroundColor { .. } => "fill:#10c070;fill-opacity:0.1;",
        InvalidationReason::SurfaceOpacityChanged { .. } => "fill:#c040c0;fill-opacity:0.1;",
        InvalidationReason::NoTexture => "fill:#c04040;fill-opacity:0.1;",
        InvalidationReason::NoSurface => "fill:#40c040;fill-opacity:0.1;",
        InvalidationReason::PrimCount { .. } => "fill:#40f0f0;fill-opacity:0.1;",
        InvalidationReason::Content { .. } => "fill:#f04040;fill-opacity:0.1;",
        InvalidationReason::CompositorKindChanged => "fill:#f0c070;fill-opacity:0.1;",
        InvalidationReason::ValidRectChanged => "fill:#ff00ff;fill-opacity:0.1;",
        InvalidationReason::ScaleChanged => "fill:#ff80ff;fill-opacity:0.1;",
    }
}

/// The fill of a tile: by its cause where it has one, else by its own
/// background, else by that of its tile cache, else none.
pub fn fill_style_string(
    cause: &Option<Cause>,
    current_background: Option<Rgb>,
    fallback_background: Option<Rgb>,
) -> (style: String)
    ensures
        style@ == fill_style(*cause, current_background, fallback_background),
{
    let mut style = String::new();
    match cause {
        Some(cause) => {
            style.append(reason_style_str(&cause.reason));
        },
        None => {
            let mut chosen = current_background;
            if chosen.is_none() {
                chosen = fallback_background;
            }
            match chosen {
                Some(color) => {
                    style.append("fill:rgb(");
                    push_decimal(&mut style, color.r as u64);
                    style.append(",");
                    push_decimal(&mut style, color.g as u64);
                    style.append(",");
                    push_decimal(&mut style, color.b as u64);
                    style.append(");fill-opacity:0.3;");
                },
                None => {
                    style.append("fill:none;");
                },
            }
        },
    }
    assert(style@ =~= fill_style(*cause, current_background, fallback_background));
    style
}

fn push_opt_color_text(buf: &mut String, c: &Option<Color>)
    ensures
        final(buf)@ == old(buf)@ + opt_color_text(*c),
{
    match c {
        Some(color) => {
            buf.append("(");
            buf.append(color.r.as_str());
            buf.append(",");
            buf.append(color.g.as_str());
            buf.append(",");
            buf.append(color.b.as_str());
            buf.append(",");
            buf.append(color.a.as_str());
            buf.append(")");
            assert(buf@ =~= old(buf)@ + opt_color_text(*c));
        },
        None => {
            buf.append("none");
        },
    }
}

/// Whether two clip boxes differ in one of their four bounds.
pub fn clip_box_changed(a: &ClipBox, b: &ClipBox) -> (changed: bool)
    ensures
        changed == clip_box_differs(*a, *b),
{
    !(a.min_x.equals(&b.min_x) && a.min_y.equals(&b.min_y) && a.max_x.equals(&b.max_x)
        && a.max_y.equals(&b.max_y))
}

fn push_clip_box_change(buf: &mut String, a: &ClipBox, b: &ClipBox)
    ensures
        final(buf)@ == old(buf)@ + clip_box_change(*a, *b),
{
    if clip_box_changed(a, b) {
        buf.append("<li><b>prim_clip_rect</b> changed from ");
        buf.append(a.min_x.as_str());
        buf.append(",");
        buf.append(a.min_y.as_str());
        buf.append(" -> ");
        buf.append(a.max_x.as_str());
        buf.append(",");
        buf.append(a.max_y.as_str());
        buf.append(" to ");
        buf.append(b.min_x.as_str());
        buf.append(",");
        buf.append(b.min_y.as_str());
        buf.append(" -> ");
        buf.append(b.max_x.as_str());
        buf.append(",");
        buf.append(b.max_y.as_str());
        buf.append("</li>");
    }
    assert(buf@ =~= old(buf)@ + clip_box_change(*a, *b));
}

fn push_same_descriptor_explanation(
    buf: &mut String,
    names: &HashMap<u64, String>,
    a: &PrimitiveDescriptor,
    b: &PrimitiveDescriptor,
)
    requires
        a.prim_uid == b.prim_uid,
    ensures
        final(buf)@ == old(buf)@ + descriptor_explanation(names@, *a, *b),
{
    let mut text = String::new();
    text.append("<b>Content: Descriptor</b> changed for uid ");
    push_decimal(&mut text, a.prim_uid.uid);
    text.append("<br/>");
    text.append("<ul>");
    push_clip_box_change(&mut text, &a.prim_clip_box, &b.prim_clip_box);
    text.append("<li>Item: ");
    push_display_name(&mut text, names, a.prim_uid);
    text.append("</li></ul>");
    assert(text@ =~= descriptor_explanation(names@, *a, *b));
    buf.append(text.as_str());
}

fn descriptor_side_string(names: &HashMap<u64, String>, label: &str, d: &PrimitiveDescriptor) -> (side:
    String)
    ensures
        side@ == descriptor_side(names@, label@, *d),
{
    let mut side = String::new();
    side.append(label);
    side.append(d.dump.as_str());
    side.append("</li><li>Item: ");
    push_display_name(&mut side, names, d.prim_uid);
    side.append("</li></ul>");
    assert(side@ =~= descriptor_side(names@, label@, *d));
    side
}

fn push_other_descriptor_explanation(
    buf: &mut String,
    names: &HashMap<u64, String>,
    a: &PrimitiveDescriptor,
    b: &PrimitiveDescriptor,
)
    requires
        a.prim_uid != b.prim_uid,
    ensures
        final(buf)@ == old(buf)@ + descriptor_explanation(names@, *a, *b),
{
    let before = descriptor_side_string(names, "old:<ul><li>Desc: ", a);
    let after = descriptor_side_string(names, "new:<ul><li>Desc: ", b);
    let mut text = String::new();
    text.append("<b>Content: Descriptor</b> changed; old uid ");
    push_decimal(&mut text, a.prim_uid.uid);
    text.append(", new uid ");
    push_decimal(&mut text, b.prim_uid.uid);
    text.append(":<br/>");
    text.append(before.as_str());
    text.append(after.as_str());
    assert(text@ =~= descriptor_explanation(names@, *a, *b));
    buf.append(text.as_str());
}

fn push_descriptor_explanation(
    buf: &mut String,
    names: &HashMap<u64, String>,
    a: &PrimitiveDescriptor,
    b: &PrimitiveDescriptor,
)
    ensures
        final(buf)@ == old(buf)@ + descriptor_explanation(names@, *a, *b),
{
    if a.prim_uid.uid == b.prim_uid.uid {
        push_same_descriptor_explanation(buf, names, a, b);
    } else {
        push_other_descriptor_explanation(buf, names, a, b);
    }
}

fn push_clip_explanation(
    buf: &mut String,
    names: &HashMap<u64, String>,
    detail: &CompareHelperResult,
)
    ensures
        final(buf)@ == old(buf)@ + clip_explanation(names@, *detail),
{
    match detail {
        CompareHelperResult::Count { prev_count, curr_count } => {
            buf.append("<b>Content: Clip</b> count changed from ");
            push_decimal(buf, *prev_count as u64);
            buf.append(" to ");
            push_decimal(buf, *curr_count as u64);
            buf.append("<br/>");
            assert(buf@ =~= old(buf)@ + clip_explanation(names@, *detail));
        },
        CompareHelperResult::NotEqual { prev, curr } => {
            buf.append("<b>Content: Clip</b> ItemUids changed from ");
            push_decimal(buf, prev.uid);
            buf.append(" to ");
            push_decimal(buf, curr.uid);
            buf.append(":<br/>");
            buf.append("old:<ul><li>");
            push_display_name(buf, names, *prev);
            buf.append("</li></ul>");
            buf.append("new:<ul><li>");
            push_display_name(buf, names, *curr);
            buf.append("</li></ul>");
            assert(buf@ =~= old(buf)@ + clip_explanation(names@, *detail));
        },
        CompareHelperResult::Other { dump } => {
            buf.append(dump.as_str());
        },
    }
}

fn push_content_explanation(
    buf: &mut String,
    names: &HashMap<u64, String>,
    detail: &PrimitiveCompareResultDetail,
)
    ensures
        final(buf)@ == old(buf)@ + content_explanation(names@, *detail),
{
    match detail {
        PrimitiveCompareResultDetail::Descriptor { old: a, new: b } => {
            push_descriptor_explanation(buf, names, a, b);
        },
        PrimitiveCompareResultDetail::Clip { detail: clip } => {
            push_clip_explanation(buf, names, clip);
        },
        PrimitiveCompareResultDetail::Other { dump } => {
            buf.append(dump.as_str());
        },
    }
}

fn push_prim_count_explanation(
    buf: &mut String,
    names: &HashMap<u64, String>,
    before: &Vec<ItemUid>,
    after: &Vec<ItemUid>,
)
    ensures
        final(buf)@ == old(buf)@ + prim_count_explanation(names@, before@, after@),
{
    let removed = item_lines_string(names, &difference_of(before, after));
    let added = item_lines_string(names, &difference_of(after, before));
    buf.append("<b>PrimCount</b> changed from ");
    push_decimal(buf, before.len() as u64);
    buf.append(" to ");
    push_decimal(buf, after.len() as u64);
    buf.append(":<br/>removed:<ul>");
    buf.append(removed.as_str());
    buf.append("</ul>\n                              added:<ul>");
    buf.append(added.as_str());
    buf.append("</ul>");
    assert(buf@ =~= old(buf)@ + prim_count_explanation(names@, before@, after@));
}

/// Appends the explanation of a cause to `buf`.
pub fn push_explanation(buf: &mut String, names: &HashMap<u64, String>, cause: &Cause)
    ensures
        final(buf)@ == old(buf)@ + explanation(names@, *cause),
{
    match &cause.reason {
        InvalidationReason::FractionalOffset { old: a, new: b } => {
            buf.append("<b>FractionalOffset</b> changed from (");
            buf.append(a.x.as_str());
            buf.append(",");
            buf.append(a.y.as_str());
            buf.append(") to (");
            buf.append(b.x.as_str());
            buf.append(",");
            buf.append(b.y.as_str());
            buf.append(")");
            assert(buf@ =~= old(buf)@ + explanation(names@, *cause));
        },
        InvalidationReason::BackgroundColor { old: a, new: b } => {
            buf.append("<b>BackGroundColor</b> changed from ");
            push_opt_color_text(buf, a);
            buf.append(" to ");
            push_opt_color_text(buf, b);
            assert(buf@ =~= old(buf)@ + explanation(names@, *cause));
        },
        InvalidationReason::SurfaceOpacityChanged { became_opaque } => {
            buf.append("<b>SurfaceOpacityChanged</b> changed from ");
            push_bool(buf, !*became_opaque);
            buf.append(" to ");
            push_bool(buf, *became_opaque);
            assert(buf@ =~= old(buf)@ + explanation(names@, *cause));
        },
        InvalidationReason::PrimCount { old: a, new: b } => {
            push_prim_count_explanation(buf, names, a, b);
        },
        InvalidationReason::Content { prim_compare_result_detail, .. } => {
            push_content_explanation(buf, names, prim_compare_result_detail);
        },
        InvalidationReason::NoTexture => {
            buf.append(cause.dump.as_str());
        },
        InvalidationReason::NoSurface => {
            buf.append(cause.dump.as_str());
        },
        InvalidationReason::CompositorKindChanged => {
            buf.append(cause.dump.as_str());
        },
        InvalidationReason::ValidRectChanged => {
            buf.append(cause.dump.as_str());
        },
        InvalidationReason::ScaleChanged => {
            buf.append(cause.dump.as_str());
        },
    }
}

/// The style a tile is filled with and the explanation of its cause. A tile
/// without a cause is filled by its background and has no explanation.
pub fn classify(
    cause: &Option<Cause>,
    current_background: Option<Rgb>,
    fallback_background: Option<Rgb>,
    names: &HashMap<u64, String>,
) -> (result: (String, String))
    ensures
        result.0@ == fill_style(*cause, current_background, fallback_background),
        result.1@ == cause_explanation(names@, *cause),
{
    let style = fill_style_string(cause, current_background, fallback_background);
    let mut text = String::new();
    match cause {
        Some(cause) => {
            push_explanation(&mut text, names, cause);
        },
        None => {},
    }
    assert(text@ =~= cause_explanation(names@, *cause));
    (style, text)
}

/// The fill of a tile that has a cause depends on the variant of the cause
/// alone: not on its fields, not on its dump, and not on any background.
pub proof fn lemma_style_by_variant(
    a: Cause,
    b: Cause,
    current_a: Option<Rgb>,
    fallback_a: Option<Rgb>,
    current_b: Option<Rgb>,
    fallback_b: Option<Rgb>,
)
    requires
        variant_index(a.reason) == variant_index(b.reason),
    ensures
        reason_style(a.reason) == reason_style(b.reason),
        fill_style(Some(a), current_a, fallback_a) == fill_style(Some(b), current_b, fallback_b),
{
}

/// Causes of different variants are filled differently.
pub proof fn lemma_styles_differ(a: InvalidationReason, b: InvalidationReason)
    requires
        variant_index(a) != variant_index(b),
    ensures
        reason_style(a) != reason_style(b),
{
    reveal_strlit("fill:#4040c0;fill-opacity:0.1;");
    reveal_strlit("fill:#10c070;fill-opacity:0.1;");
    reveal_strlit("fill:#c040c0;fill-opacity:0.1;");
    reveal_strlit("fill:#c04040;fill-opacity:0.1;");
    reveal_strlit("fill:#40c040;fill-opacity:0.1;");
    reveal_strlit("fill:#40f0f0;fill-opacity:0.1;");
    reveal_strlit("fill:#f04040;fill-opacity:0.1;");
    reveal_strlit("fill:#f0c070;fill-opacity:0.1;");
    reveal_strlit("fill:#ff00ff;fill-opacity:0.1;");
    reveal_strlit("fill:#ff80ff;fill-opacity:0.1;");
    let x = reason_style(a);
    let y = reason_style(b);
    if x == y {
        assert(x[6] == y[6] && x[7] == y[7] && x[8] == y[8] && x[9] == y[9] && x[10] == y[10]
            && x[11] == y[11]);
    }
}

/// A tile without a cause that has a background is filled with the colour of
/// that background, its own before that of its tile cache, and never with no
/// fill.
pub proof fn lemma_background_fill(current: Option<Rgb>, fallback: Option<Rgb>)
    requires
        current is Some || fallback is Some,
    ensures
        current is Some ==> fill_style(None, current, fallback) == color_style(current->0),
        current is None ==> fill_style(None, current, fallback) == color_style(fallback->0),
        fill_style(None, current, fallback) != "fill:none;"@,
{
    reveal_strlit("fill:rgb(");
    reveal_strlit("fill:none;");
    let style = fill_style(None, current, fallback);
    assert(style[5] == 'r');
    assert("fill:none;"@[5] == 'n');
}

/// A tile without a cause and without any background has no fill.
pub proof fn lemma_no_fill()
    ensures
        fill_style(None, None, None) == "fill:none;"@,
{
}

/// Classification is a function of its inputs: the same cause, backgrounds and
/// display names give the same style and the same explanation.
pub proof fn lemma_classify_deterministic(
    cause_a: Option<Cause>,
    current_a: Option<Rgb>,
    fallback_a: Option<Rgb>,
    names_a: Map<u64, String>,
    cause_b: Option<Cause>,
    current_b: Option<Rgb>,
    fallback_b: Option<Rgb>,
    names_b: Map<u64, String>,
)
    requires
        cause_a == cause_b,
        current_a == current_b,
        fallback_a == fallback_b,
        names_a == names_b,
    ensures
        fill_style(cause_a, current_a, fallback_a) == fill_style(cause_b, current_b, fallback_b),
        cause_explanation(names_a, cause_a) == cause_explanation(names_b, cause_b),
{
}

} // verus!
