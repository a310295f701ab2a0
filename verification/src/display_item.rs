use vstd::prelude::*;
use crate::geometry::{ColorF, Matrix4, Point, Rect, Scalar, Size};
use crate::ids::{PipelineId, StackingContextId};

verus! {

/// A length in app units, sixty to the pixel.
#[derive(Clone, Copy, Debug, PartialEq, Eq, Structural, Hash)]
pub struct Au(pub i32);

#[derive(Clone, Copy, Debug, PartialEq, Eq, Structural, Hash)]
pub struct ImageKey(pub u64);

#[derive(Clone, Copy, Debug, PartialEq, Eq, Structural, Hash)]
pub struct FontKey(pub u64);

/// The paint phase an entry of a display list belongs to, in paint order.
#[derive(Clone, Copy, Debug, PartialEq, Eq, Structural, Hash)]
pub enum StackingLevel {
    BackgroundAndBorders,
    BlockBackgroundAndBorders,
    Floats,
    Content,
    PositionedContent,
    Outlines,
}

#[derive(Clone, Copy, Debug, PartialEq, Eq, Structural, Hash)]
pub enum ImageRendering {
    Auto,
    CrispEdges,
    Pixelated,
}

#[derive(Clone, Copy, Debug, PartialEq, Eq, Structural, Hash)]
pub enum ScrollPolicy {
    Scrollable,
    Fixed,
}

#[derive(Clone, Copy, Debug, PartialEq, Eq, Structural, Hash)]
pub enum MixBlendMode {
    Normal,
    Multiply,
    Screen,
    Overlay,
    Darken,
    Lighten,
    ColorDodge,
    ColorBurn,
    HardLight,
    SoftLight,
    Difference,
    Exclusion,
    Hue,
    Saturation,
    Color,
    Luminosity,
}

#[derive(Clone, Copy, Debug, PartialEq, Eq, Structural, Hash)]
pub enum FilterOp {
    Blur(Au),
    Brightness(Scalar),
    Contrast(Scalar),
    Grayscale(Scalar),
    HueRotate(Scalar),
    Invert(Scalar),
    Opacity(Scalar),
    Saturate(Scalar),
    Sepia(Scalar),
}

#[derive(Clone, Copy, Debug, PartialEq, Eq, Structural, Hash)]
pub struct BorderRadius {
    pub top_left: Size,
    pub top_right: Size,
    pub bottom_left: Size,
    pub bottom_right: Size,
}

/// A rounded rectangle that narrows a clip.
#[derive(Clone, Copy, Debug, PartialEq, Eq, Structural, Hash)]
pub struct ComplexClipRegion {
    pub rect: Rect,
    pub radii: BorderRadius,
}

/// Where an item may paint: inside `main`, and inside each of `complex`.
#[derive(Clone, Debug, PartialEq, Eq, Hash)]
pub struct ClipRegion {
    pub main: Rect,
    pub complex: Vec<ComplexClipRegion>,
}

#[derive(Clone, Copy, Debug, PartialEq, Eq, Structural, Hash)]
pub struct GlyphInstance {
    pub index: u32,
    pub x: Scalar,
    pub y: Scalar,
}

#[derive(Clone, Copy, Debug, PartialEq, Eq, Structural, Hash)]
pub struct RectangleDisplayItem {
    pub color: ColorF,
}

#[derive(Clone, Copy, Debug, PartialEq, Eq, Structural, Hash)]
pub struct ImageDisplayItem {
    pub image_key: ImageKey,
    pub stretch_size: Size,
    pub tile_spacing: Size,
    pub image_rendering: ImageRendering,
}

#[derive(Clone, Debug, PartialEq, Eq, Hash)]
pub struct TextDisplayItem {
    pub glyphs: Vec<GlyphInstance>,
    pub font_key: FontKey,
    pub color: ColorF,
    pub size: Au,
    pub blur_radius: Au,
}

#[derive(Clone, Debug, PartialEq, Eq, Hash)]
pub enum SpecificDisplayItem {
    Rectangle(RectangleDisplayItem),
    Image(ImageDisplayItem),
    Text(TextDisplayItem),
}

/// One drawable thing: what it is, the rectangle it covers and its clip.
#[derive(Clone, Debug, PartialEq, Eq, Hash)]
pub struct DisplayItem {
    pub item: SpecificDisplayItem,
    pub rect: Rect,
    pub clip: ClipRegion,
}

/// A run of drawable items that belong to one paint phase.
#[derive(Clone, Debug, PartialEq, Eq, Hash)]
pub struct DrawListInfo {
    pub items: Vec<DisplayItem>,
}

/// Stands in a display list for a stacking context that is submitted apart.
#[derive(Clone, Copy, Debug, PartialEq, Eq, Structural, Hash)]
pub struct StackingContextInfo {
    pub id: StackingContextId,
}

/// Stands in a display list for the content of another pipeline.
#[derive(Clone, Copy, Debug, PartialEq, Eq, Structural, Hash)]
pub struct IframeInfo {
    pub id: PipelineId,
    pub offset: Point,
    pub clip: Rect,
}

#[derive(Clone, Debug, PartialEq, Eq, Hash)]
pub enum SpecificDisplayListItem {
    DrawList(DrawListInfo),
    StackingContext(StackingContextInfo),
    Iframe(Box<IframeInfo>),
}

/// One entry of a display list as a content source submits it.
#[derive(Clone, Debug, PartialEq, Eq, Hash)]
pub struct DisplayListItem {
    pub stacking_level: StackingLevel,
    pub specific: SpecificDisplayListItem,
}

/// What a submitted entry is.
pub ghost enum SubmittedView {
    DrawList(Seq<DisplayItem>),
    StackingContext(StackingContextId),
    Iframe(IframeInfo),
}

/// What a `DisplayListItem` holds.
pub ghost struct DisplayListItemView {
    pub stacking_level: StackingLevel,
    pub specific: SubmittedView,
}

impl View for DisplayListItem {
    type V = DisplayListItemView;

    open spec fn view(&self) -> DisplayListItemView {
        DisplayListItemView {
            stacking_level: self.stacking_level,
            specific: match self.specific {
                SpecificDisplayListItem::DrawList(info) => SubmittedView::DrawList(info.items@),
                SpecificDisplayListItem::StackingContext(info) => SubmittedView::StackingContext(
                    info.id,
                ),
                SpecificDisplayListItem::Iframe(info) => SubmittedView::Iframe(*info),
            },
        }
    }
}

/// A compositing group: where it sits, how far its content may reach, and
/// how it is transformed and blended.
#[derive(Clone, Debug, PartialEq, Eq, Hash)]
pub struct StackingContext {
    pub scroll_policy: ScrollPolicy,
    pub bounds: Rect,
    pub overflow: Rect,
    pub z_index: i32,
    pub transform: Matrix4,
    pub perspective: Matrix4,
    pub mix_blend_mode: MixBlendMode,
    pub filters: Vec<FilterOp>,
}

/// `draw_list` is the one filled rectangle that paints a root background:
/// it has the given colour, covers `area`, and is clipped to `area` and to
/// nothing else.
pub open spec fn background_fill(draw_list: Seq<DisplayItem>, color: ColorF, area: Rect) -> bool {
    &&& draw_list.len() == 1
    &&& draw_list[0].item == SpecificDisplayItem::Rectangle(RectangleDisplayItem { color })
    &&& draw_list[0].rect == area
    &&& draw_list[0].clip.main == area
    &&& draw_list[0].clip.complex@.len() == 0
}

/// Builds the draw list of a root background.
pub fn root_background(color: ColorF, area: Rect) -> (draw_list: Vec<DisplayItem>)
    ensures
        background_fill(draw_list@, color, area),
{
    let clip = ClipRegion { main: area, complex: Vec::new() };
    let fill = DisplayItem {
        item: SpecificDisplayItem::Rectangle(RectangleDisplayItem { color }),
        rect: area,
        clip,
    };
    let mut draw_list: Vec<DisplayItem> = Vec::new();
    draw_list.push(fill);
    draw_list
}

} // verus!
