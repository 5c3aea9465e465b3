//! The snapshot data that the renderer reads.

use vstd::prelude::*;
use crate::number::Number;

verus! {

/// The identifier of an interned item.
#[derive(Clone, Copy, Debug, PartialEq, Eq, Hash, Structural)]
pub struct ItemUid {
    pub uid: u64,
}

/// The coordinate of a tile within its tile cache.
#[derive(Clone, Copy, Debug, PartialEq, Eq, Hash, Structural)]
pub struct TileOffset {
    pub x: i32,
    pub y: i32,
}

/// A background colour with its red, green and blue channels scaled to bytes.
#[derive(Clone, Copy, Debug, PartialEq, Eq, Hash, Structural)]
pub struct Rgb {
    pub r: u8,
    pub g: u8,
    pub b: u8,
}

/// A rectangle in the coordinates of the drawing.
#[derive(Clone, Debug, PartialEq, Eq)]
pub struct SvgRect {
    pub x: Number,
    pub y: Number,
    pub width: Number,
    pub height: Number,
}

/// A fractional offset.
#[derive(Clone, Debug, PartialEq, Eq)]
pub struct Offset {
    pub x: Number,
    pub y: Number,
}

/// A colour as its four channels.
#[derive(Clone, Debug, PartialEq, Eq)]
pub struct Color {
    pub r: Number,
    pub g: Number,
    pub b: Number,
    pub a: Number,
}

/// The clip box of a primitive, by its two corners.
#[derive(Clone, Debug, PartialEq, Eq)]
pub struct ClipBox {
    pub min_x: Number,
    pub min_y: Number,
    pub max_x: Number,
    pub max_y: Number,
}

/// What a tile records of one primitive it depends on, with its structured
/// dump.
#[derive(Clone, Debug, PartialEq, Eq)]
pub struct PrimitiveDescriptor {
    pub prim_uid: ItemUid,
    pub prim_clip_box: ClipBox,
    pub dump: String,
}

/// How two lists of identifiers differ.
#[derive(Clone, Debug, PartialEq, Eq)]
pub enum CompareHelperResult {
    /// The lists differ in length.
    Count { prev_count: u8, curr_count: u8 },
    /// One identifier stands where another stood.
    NotEqual { prev: ItemUid, curr: ItemUid },
    /// Any other outcome, kept as its structured dump.
    Other { dump: String },
}

/// The part of a primitive in which a content change was found.
#[derive(Clone, Copy, Debug, PartialEq, Eq)]
pub enum PrimitiveCompareResult {
    Equal,
    Descriptor,
    Clip,
    Transform,
    Image,
    OpacityBinding,
    ColorBinding,
}

/// The detail of a content change.
#[derive(Clone, Debug, PartialEq, Eq)]
pub enum PrimitiveCompareResultDetail {
    /// The descriptor of a primitive changed.
    Descriptor { old: PrimitiveDescriptor, new: PrimitiveDescriptor },
    /// The clip list of a primitive changed.
    Clip { detail: CompareHelperResult },
    /// Any other detail, or none, kept as its structured dump.
    Other { dump: String },
}

/// Why a tile was invalidated.
#[derive(Clone, Debug, PartialEq, Eq)]
pub enum InvalidationReason {
    FractionalOffset { old: Offset, new: Offset },
    BackgroundColor { old: Option<Color>, new: Option<Color> },
    SurfaceOpacityChanged { became_opaque: bool },
    NoTexture,
    NoSurface,
    PrimCount { old: Vec<ItemUid>, new: Vec<ItemUid> },
    Content {
        prim_compare_result: PrimitiveCompareResult,
        prim_compare_result_detail: PrimitiveCompareResultDetail,
    },
    CompositorKindChanged,
    ValidRectChanged,
    ScaleChanged,
}

/// The cause of an invalidation, with its structured dump: the variant and its
/// fields written out in full.
#[derive(Clone, Debug, PartialEq, Eq)]
pub struct Cause {
    pub reason: InvalidationReason,
    pub dump: String,
}

/// One cached rectangular region of a snapshot.
#[derive(Clone, Debug, PartialEq, Eq)]
pub struct Tile {
    pub rect: SvgRect,
    pub invalidation_reason: Option<Cause>,
    pub background_color: Option<Rgb>,
}

/// A node of the spatial subdivision of a tile.
#[derive(Debug)]
pub enum TileNode {
    /// A leaf with its rectangle in the coordinates of the drawing, or `None`
    /// where the transform of its snapshot gives no finite rectangle.
    Leaf { rect: Option<SvgRect> },
    /// An interior node with its children in drawing order.
    Node { children: Vec<TileNode> },
}

} // verus!
