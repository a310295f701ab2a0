use vstd::prelude::*;
use vstd::string::StrSliceExecFns;
use crate::display_item::{
    Au, ClipRegion, DisplayItem, FontKey, GlyphInstance, ImageDisplayItem, ImageKey,
    ImageRendering, MixBlendMode, RectangleDisplayItem, ScrollPolicy, SpecificDisplayItem,
    StackingContext, TextDisplayItem,
};
use crate::geometry::{ColorF, Matrix4, Point, Rect, Scalar, Size};

verus! {

/// What an item of a scene description asks to be drawn.
#[derive(Clone, Copy, Debug, PartialEq, Eq, Structural, Hash)]
pub enum ItemKind {
    Rect,
    Image,
    Text,
    StackingContext,
}

/// The keys of an item that say what it is when it is written in short form.
#[derive(Clone, Copy, Debug, PartialEq, Eq, Structural, Hash)]
pub struct ItemKeys {
    pub rect: bool,
    pub image: bool,
    pub text: bool,
    pub glyphs: bool,
    pub stacking_context: bool,
}

/// The text of an optional string.
pub open spec fn text_of(name: Option<&str>) -> Option<Seq<char>> {
    match name {
        Some(s) => Some(s@),
        None => None,
    }
}

/// The kind that the value of a `type` key names.
pub open spec fn kind_named(name: Seq<char>) -> Option<ItemKind> {
    if name == "rect"@ {
        Some(ItemKind::Rect)
    } else if name == "image"@ {
        Some(ItemKind::Image)
    } else if name == "text"@ {
        Some(ItemKind::Text)
    } else if name == "stacking_context"@ {
        Some(ItemKind::StackingContext)
    } else {
        None
    }
}

/// The kind of an item. The short form is looked at first: a `rect` key,
/// then an `image` key, then a `text` or `glyphs` key, then a
/// `stacking_context` key. Without any of them the `type` key decides, and
/// an item that it does not name as one of the four kinds has no kind.
pub open spec fn kind_of(keys: ItemKeys, declared: Option<Seq<char>>) -> Option<ItemKind> {
    if keys.rect {
        Some(ItemKind::Rect)
    } else if keys.image {
        Some(ItemKind::Image)
    } else if keys.text || keys.glyphs {
        Some(ItemKind::Text)
    } else if keys.stacking_context {
        Some(ItemKind::StackingContext)
    } else {
        match declared {
            Some(name) => kind_named(name),
            None => None,
        }
    }
}

/// The rendering that the value of a `rendering` key asks for. Without the
/// key it is `Auto`; a value other than the three names asks for none.
pub open spec fn rendering_named(name: Option<Seq<char>>) -> Option<ImageRendering> {
    match name {
        None => Some(ImageRendering::Auto),
        Some(name) => {
            if name == "auto"@ {
                Some(ImageRendering::Auto)
            } else if name == "crisp_edges"@ {
                Some(ImageRendering::CrispEdges)
            } else if name == "pixelated"@ {
                Some(ImageRendering::Pixelated)
            } else {
                None
            }
        },
    }
}

/// Whether two strings hold the same characters.
pub fn same_text(a: &str, b: &str) -> (same: bool)
    ensures
        same == (a@ == b@),
{
    let n = a.unicode_len();
    if n != b.unicode_len() {
        return false;
    }
    let mut i: usize = 0;
    while i < n
        invariant
            i <= n,
            n == a@.len(),
            n == b@.len(),
            forall|j: int| 0 <= j < i ==> a@[j] == b@[j],
        decreases n - i,
    {
        if a.get_char(i) != b.get_char(i) {
            return false;
        }
        i += 1;
    }
    assert(a@ =~= b@);
    true
}

/// The kind of an item with the given keys and value of its `type` key, or
/// `None` for an item to skip.
pub fn item_kind(keys: ItemKeys, declared: Option<&str>) -> (kind: Option<ItemKind>)
    ensures
        kind == kind_of(keys, text_of(declared)),
{
    if keys.rect {
        return Some(ItemKind::Rect);
    }
    if keys.image {
        return Some(ItemKind::Image);
    }
    if keys.text || keys.glyphs {
        return Some(ItemKind::Text);
    }
    if keys.stacking_context {
        return Some(ItemKind::StackingContext);
    }
    match declared {
        Some(name) => {
            if same_text(name, "rect") {
                Some(ItemKind::Rect)
            } else if same_text(name, "image") {
                Some(ItemKind::Image)
            } else if same_text(name, "text") {
                Some(ItemKind::Text)
            } else if same_text(name, "stacking_context") {
                Some(ItemKind::StackingContext)
            } else {
                None
            }
        },
        None => None,
    }
}

/// The key under which a rectangle item holds its bounds: `bounds` where the
/// item has a `type` key, `rect` in the short form.
pub fn rect_bounds_key(has_type: bool) -> (key: &'static str)
    ensures
        key@ == (if has_type {
            "bounds"@
        } else {
            "rect"@
        }),
{
    if has_type {
        "bounds"
    } else {
        "rect"
    }
}

/// The key under which an image item holds the name of its file: `src`
/// where the item has a `type` key, `image` in the short form.
pub fn image_source_key(has_type: bool) -> (key: &'static str)
    ensures
        key@ == (if has_type {
            "src"@
        } else {
            "image"@
        }),
{
    if has_type {
        "src"
    } else {
        "image"
    }
}

/// The rendering that an image item asks for, or `None` where the value of
/// its `rendering` key is none of `auto`, `crisp_edges` and `pixelated`.
pub fn image_rendering(name: Option<&str>) -> (rendering: Option<ImageRendering>)
    ensures
        rendering == rendering_named(text_of(name)),
{
    match name {
        None => Some(ImageRendering::Auto),
        Some(name) => {
            if same_text(name, "auto") {
                Some(ImageRendering::Auto)
            } else if same_text(name, "crisp_edges") {
                Some(ImageRendering::CrispEdges)
            } else if same_text(name, "pixelated") {
                Some(ImageRendering::Pixelated)
            } else {
                None
            }
        },
    }
}

/// The largest length in app units, and the negative of the smallest.
pub const MAX_AU: i32 = 0x3fff_ffff;

/// The app units of one pixel.
pub const AU_PER_PX: i32 = 60;

/// `value` held to the range of lengths in app units.
pub open spec fn clamped_au(value: int) -> int {
    if value < -MAX_AU {
        -(MAX_AU as int)
    } else if value > MAX_AU {
        MAX_AU as int
    } else {
        value
    }
}

/// `app_units::Au::from_px`: the length of `px` pixels, sixty app units to
/// the pixel, held to the range from `MIN_AU` to `MAX_AU`.
#[verifier::external_body]
fn au_from_px(px: i32) -> (au: Au)
    ensures
        au.0 == clamped_au(px * AU_PER_PX),
{
    Au(app_units::Au::from_px(px).0)
}

/// The size of a text item: the one given, or sixteen pixels, which are 960
/// app units.
pub fn text_size(given: Option<Au>) -> (size: Au)
    ensures
        size == (match given {
            Some(size) => size,
            None => Au(960),
        }),
{
    match given {
        Some(size) => size,
        None => au_from_px(16),
    }
}

/// The blur radius of a text item: the one given, or none.
pub fn text_blur_radius(given: Option<Au>) -> (radius: Au)
    ensures
        radius == (match given {
            Some(radius) => radius,
            None => Au(0),
        }),
{
    match given {
        Some(radius) => radius,
        None => au_from_px(0),
    }
}

/// Opaque white.
pub open spec fn white() -> ColorF {
    let one = Scalar { bits: crate::geometry::ONE_BITS };
    ColorF { r: one, g: one, b: one, a: one }
}

/// The colour of an item: the one given, or opaque white.
pub fn item_color(given: Option<ColorF>) -> (color: ColorF)
    ensures
        color == (match given {
            Some(color) => color,
            None => white(),
        }),
{
    match given {
        Some(color) => color,
        None => ColorF::new(Scalar::one(), Scalar::one(), Scalar::one(), Scalar::one()),
    }
}

/// The clip of an item that names none: the whole window.
pub fn full_clip(window_size: Size) -> (clip: ClipRegion)
    ensures
        clip.main == Rect::at_origin(window_size),
        clip.complex@.len() == 0,
{
    ClipRegion { main: Rect::at_origin(window_size), complex: Vec::new() }
}

/// A rectangle item: filled with the colour given, or with white, and
/// clipped as given, or to `window_clip`.
pub fn rect_item(
    bounds: Rect,
    color: Option<ColorF>,
    clip: Option<ClipRegion>,
    window_clip: ClipRegion,
) -> (item: DisplayItem)
    ensures
        item.item == SpecificDisplayItem::Rectangle(
            RectangleDisplayItem {
                color: match color {
                    Some(color) => color,
                    None => white(),
                },
            },
        ),
        item.rect == bounds,
        item.clip == (match clip {
            Some(clip) => clip,
            None => window_clip,
        }),
{
    let color = item_color(color);
    let clip = match clip {
        Some(clip) => clip,
        None => window_clip,
    };
    DisplayItem { item: SpecificDisplayItem::Rectangle(RectangleDisplayItem { color }), rect: bounds, clip }
}

/// The bounds of an image item from the numbers under its `bounds` key: two
/// numbers place the image at its own size, four give its place and size,
/// and any other count gives no bounds.
pub open spec fn image_bounds_of(raw: Seq<Scalar>, image_dims: Size) -> Option<Rect> {
    if raw.len() == 2 {
        Some(Rect { origin: Point { x: raw[0], y: raw[1] }, size: image_dims })
    } else if raw.len() == 4 {
        Some(
            Rect { origin: Point { x: raw[0], y: raw[1] }, size: Size { width: raw[2], height: raw[3] } },
        )
    } else {
        None
    }
}

pub fn image_bounds(raw: &Vec<Scalar>, image_dims: Size) -> (bounds: Option<Rect>)
    ensures
        bounds == image_bounds_of(raw@, image_dims),
{
    if raw.len() == 2 {
        Some(Rect { origin: Point { x: raw[0], y: raw[1] }, size: image_dims })
    } else if raw.len() == 4 {
        Some(
            Rect { origin: Point { x: raw[0], y: raw[1] }, size: Size { width: raw[2], height: raw[3] } },
        )
    } else {
        None
    }
}

/// An image item. It is stretched to the size given, or to the size of the
/// image; its tiles are spaced as given, or not at all; and it is clipped as
/// given, or to `window_clip`.
pub fn image_item(
    bounds: Rect,
    clip: Option<ClipRegion>,
    window_clip: ClipRegion,
    stretch_size: Option<Size>,
    tile_spacing: Option<Size>,
    image_rendering: ImageRendering,
    image_key: ImageKey,
    image_dims: Size,
) -> (item: DisplayItem)
    ensures
        item.item == SpecificDisplayItem::Image(
            ImageDisplayItem {
                image_key,
                stretch_size: match stretch_size {
                    Some(size) => size,
                    None => image_dims,
                },
                tile_spacing: match tile_spacing {
                    Some(size) => size,
                    None => Size { width: Scalar { bits: 0 }, height: Scalar { bits: 0 } },
                },
                image_rendering,
            },
        ),
        item.rect == bounds,
        item.clip == (match clip {
            Some(clip) => clip,
            None => window_clip,
        }),
{
    let stretch_size = match stretch_size {
        Some(size) => size,
        None => image_dims,
    };
    let tile_spacing = match tile_spacing {
        Some(size) => size,
        None => Size { width: Scalar::zero(), height: Scalar::zero() },
    };
    let clip = match clip {
        Some(clip) => clip,
        None => window_clip,
    };
    DisplayItem {
        item: SpecificDisplayItem::Image(
            ImageDisplayItem { image_key, stretch_size, tile_spacing, image_rendering },
        ),
        rect: bounds,
        clip,
    }
}

/// Where the font of a text item comes from.
#[derive(Clone, Copy, Debug, PartialEq, Eq, Structural, Hash)]
pub enum FontSource {
    /// Looked up by the family that the item names.
    Family,
    /// Read from the file that the item names.
    File,
    /// The default face of the platform.
    PlatformDefault,
}

/// A `family` key wins over a `font` key; an item with neither takes the
/// default face of the platform.
pub fn font_source(has_family: bool, has_font: bool) -> (source: FontSource)
    ensures
        source == (if has_family {
            FontSource::Family
        } else if has_font {
            FontSource::File
        } else {
            FontSource::PlatformDefault
        }),
{
    if has_family {
        FontSource::Family
    } else if has_font {
        FontSource::File
    } else {
        FontSource::PlatformDefault
    }
}

/// Where the glyphs of a text item come from.
#[derive(Clone, Copy, Debug, PartialEq, Eq, Structural, Hash)]
pub enum GlyphSource {
    /// The item lists its glyphs and their places.
    Given,
    /// The text of the item is laid out.
    Layout,
}

/// An item with a `text` key is laid out; one with `glyphs` only lists its
/// glyphs; one with neither is no text item.
pub fn glyph_source(has_text: bool, has_glyphs: bool) -> (source: Option<GlyphSource>)
    ensures
        source == (if has_text {
            Some(GlyphSource::Layout)
        } else if has_glyphs {
            Some(GlyphSource::Given)
        } else {
            None
        }),
{
    if has_text {
        Some(GlyphSource::Layout)
    } else if has_glyphs {
        Some(GlyphSource::Given)
    } else {
        None
    }
}

/// `glyphs` are the glyphs `indices`, the one at `k` placed at the pair of
/// numbers that starts at `2 * k` in `positions`.
pub open spec fn glyphs_placed(
    indices: Seq<u32>,
    positions: Seq<Scalar>,
    glyphs: Seq<GlyphInstance>,
) -> bool {
    &&& glyphs.len() == indices.len()
    &&& positions.len() == 2 * indices.len()
    &&& forall|k: int|
        0 <= k < indices.len() ==> #[trigger] glyphs[k] == (GlyphInstance {
            index: indices[k],
            x: positions[2 * k],
            y: positions[2 * k + 1],
        })
}

/// Pairs each glyph with its place, or gives `None` where there are not
/// exactly two numbers for each glyph.
pub fn place_glyphs(indices: &Vec<u32>, positions: &Vec<Scalar>) -> (glyphs: Option<
    Vec<GlyphInstance>,
>)
    ensures
        match glyphs {
            Some(glyphs) => glyphs_placed(indices@, positions@, glyphs@),
            None => positions@.len() != 2 * indices@.len(),
        },
{
    let n = indices.len();
    if positions.len() % 2 != 0 || positions.len() / 2 != n {
        return None;
    }
    let mut glyphs: Vec<GlyphInstance> = Vec::new();
    let mut k: usize = 0;
    while k < n
        invariant
            k <= n,
            n == indices@.len(),
            positions@.len() == 2 * n,
            2 * n <= usize::MAX,
            glyphs@.len() == k,
            forall|j: int|
                0 <= j < k ==> #[trigger] glyphs@[j] == (GlyphInstance {
                    index: indices@[j],
                    x: positions@[2 * j],
                    y: positions@[2 * j + 1],
                }),
        decreases n - k,
    {
        glyphs.push(GlyphInstance { index: indices[k], x: positions[2 * k], y: positions[2 * k + 1] });
        k += 1;
    }
    Some(glyphs)
}

/// A text item, clipped as given, or to `window_clip`.
pub fn text_item(
    bounds: Rect,
    clip: Option<ClipRegion>,
    window_clip: ClipRegion,
    glyphs: Vec<GlyphInstance>,
    font_key: FontKey,
    color: Option<ColorF>,
    size: Option<Au>,
    blur_radius: Option<Au>,
) -> (item: DisplayItem)
    ensures
        item.item matches SpecificDisplayItem::Text(text) && text.glyphs == glyphs && text.font_key
            == font_key && text.color == (match color {
            Some(color) => color,
            None => white(),
        }) && text.size == (match size {
            Some(size) => size,
            None => Au(960),
        }) && text.blur_radius == (match blur_radius {
            Some(radius) => radius,
            None => Au(0),
        }),
        item.rect == bounds,
        item.clip == (match clip {
            Some(clip) => clip,
            None => window_clip,
        }),
{
    let clip = match clip {
        Some(clip) => clip,
        None => window_clip,
    };
    let text = TextDisplayItem {
        glyphs,
        font_key,
        color: item_color(color),
        size: text_size(size),
        blur_radius: text_blur_radius(blur_radius),
    };
    DisplayItem { item: SpecificDisplayItem::Text(text), rect: bounds, clip }
}

/// The stacking context that a description gives. What it leaves out is
/// filled in: the bounds are the window, the overflow area is the bounds,
/// the z-index is zero, and the two transforms are the identity. The
/// z-index is cut down to 32 bits. The context scrolls, blends normally and
/// has no filter.
pub fn described_stacking_context(
    bounds: Option<Rect>,
    overflow: Option<Rect>,
    z_index: Option<i64>,
    transform: Option<Matrix4>,
    perspective: Option<Matrix4>,
    window_size: Size,
) -> (context: StackingContext)
    ensures
        context.scroll_policy == ScrollPolicy::Scrollable,
        context.bounds == (match bounds {
            Some(bounds) => bounds,
            None => Rect::at_origin(window_size),
        }),
        context.overflow == (match overflow {
            Some(overflow) => overflow,
            None => context.bounds,
        }),
        context.z_index == (match z_index {
            Some(z) => z as i32,
            None => 0i32,
        }),
        context.transform == (match transform {
            Some(transform) => transform,
            None => Matrix4::identity(),
        }),
        context.perspective == (match perspective {
            Some(perspective) => perspective,
            None => Matrix4::identity(),
        }),
        context.mix_blend_mode == MixBlendMode::Normal,
        context.filters@.len() == 0,
{
    let bounds = match bounds {
        Some(bounds) => bounds,
        None => Rect::at_origin(window_size),
    };
    let overflow = match overflow {
        Some(overflow) => overflow,
        None => bounds,
    };
    let z_index: i32 = match z_index {
        Some(z) => #[verifier::truncate]
        (z as i32),
        None => 0,
    };
    let transform = match transform {
        Some(transform) => transform,
        None => Matrix4::identity(),
    };
    let perspective = match perspective {
        Some(perspective) => perspective,
        None => Matrix4::identity(),
    };
    StackingContext {
        scroll_policy: ScrollPolicy::Scrollable,
        bounds,
        overflow,
        z_index,
        transform,
        perspective,
        mix_blend_mode: MixBlendMode::Normal,
        filters: Vec::new(),
    }
}

/// Why a scene description cannot be built from.
#[derive(Clone, Copy, Debug, PartialEq, Eq, Structural, Hash)]
pub enum BuildError {
    /// The file holds this many documents, not one.
    DocumentCount(usize),
    /// The document has no `root` key.
    MissingRoot,
}

/// A description is built from where its file holds one document and that
/// document has a root stacking context. The count is looked at first.
pub fn check_document(document_count: usize, has_root: bool) -> (checked: Result<(), BuildError>)
    ensures
        checked == (if document_count != 1 {
            Err::<(), BuildError>(BuildError::DocumentCount(document_count))
        } else if !has_root {
            Err(BuildError::MissingRoot)
        } else {
            Ok(())
        }),
{
    if document_count != 1 {
        Err(BuildError::DocumentCount(document_count))
    } else if !has_root {
        Err(BuildError::MissingRoot)
    } else {
        Ok(())
    }
}

/// What the reader does with a frame.
#[derive(Clone, Copy, Debug, PartialEq, Eq, Structural, Hash)]
pub enum FrameAction {
    /// Build the display lists from the description, then send them.
    BuildAndSend,
    /// Send the display lists that were built before.
    Send,
    /// Show again what was sent before.
    Refresh,
}

/// How far a reader has come: whether it has built its display lists, the
/// frames it has made, and how many frames it queues.
#[derive(Clone, Copy, Debug, PartialEq, Eq, Structural, Hash)]
pub struct FrameState {
    pub frame_built: bool,
    pub frame_count: u32,
    pub queue_depth: u32,
}

impl FrameState {
    /// A reader that has built nothing and queues `queue_depth` frames.
    pub fn new(queue_depth: u32) -> (state: FrameState)
        ensures
            state == (FrameState { frame_built: false, frame_count: 0, queue_depth }),
    {
        FrameState { frame_built: false, frame_count: 0, queue_depth }
    }

    /// The frames that the reader queues.
    pub fn queue_frames(&self) -> (depth: u32)
        ensures
            depth == self.queue_depth,
    {
        self.queue_depth
    }

    /// What the next frame takes, given whether the window asks for the
    /// display lists again: the first frame builds and sends them whatever
    /// the window asks.
    pub open spec fn next_action(self, should_rebuild: bool) -> FrameAction {
        if !self.frame_built {
            FrameAction::BuildAndSend
        } else if should_rebuild {
            FrameAction::Send
        } else {
            FrameAction::Refresh
        }
    }

    /// Makes one frame: counts it, says what to do for it, and from then on
    /// the display lists count as built. Returns the action and the number
    /// of the frame.
    pub fn do_frame(&mut self, should_rebuild: bool) -> (step: (FrameAction, u32))
        requires
            old(self).frame_count < u32::MAX,
        ensures
            step.0 == old(self).next_action(should_rebuild),
            step.1 == old(self).frame_count + 1,
            *final(self) == (FrameState {
                frame_built: true,
                frame_count: step.1,
                queue_depth: old(self).queue_depth,
            }),
    {
        let action = if !self.frame_built {
            FrameAction::BuildAndSend
        } else if should_rebuild {
            FrameAction::Send
        } else {
            FrameAction::Refresh
        };
        self.frame_count += 1;
        self.frame_built = true;
        (action, self.frame_count)
    }
}

} // verus!
