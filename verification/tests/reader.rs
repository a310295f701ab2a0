use scene_graph::display_item::{
    Au, ClipRegion, ComplexClipRegion, BorderRadius, DisplayItem, FontKey, GlyphInstance,
    ImageDisplayItem, ImageKey, ImageRendering, MixBlendMode, RectangleDisplayItem, ScrollPolicy,
    SpecificDisplayItem, TextDisplayItem,
};
use scene_graph::geometry::{ColorF, Matrix4, Point, Rect, Scalar, Size};
use scene_graph::reader::{
    check_document, described_stacking_context, font_source, full_clip, glyph_source,
    image_bounds, image_item, image_rendering, image_source_key, item_color, item_kind,
    place_glyphs, rect_bounds_key, rect_item, same_text, text_blur_radius, text_item, text_size,
    BuildError, FontSource, FrameAction, FrameState, GlyphSource, ItemKeys, ItemKind, AU_PER_PX,
    MAX_AU,
};

fn num(v: f32) -> Scalar {
    Scalar::from_bits(v.to_bits())
}

fn rect(x: f32, y: f32, w: f32, h: f32) -> Rect {
    Rect { origin: Point { x: num(x), y: num(y) }, size: Size { width: num(w), height: num(h) } }
}

fn size(w: f32, h: f32) -> Size {
    Size { width: num(w), height: num(h) }
}

fn white() -> ColorF {
    ColorF::new(num(1.0), num(1.0), num(1.0), num(1.0))
}

fn no_keys() -> ItemKeys {
    ItemKeys { rect: false, image: false, text: false, glyphs: false, stacking_context: false }
}

fn rounded() -> ClipRegion {
    let corner = size(2.0, 2.0);
    ClipRegion {
        main: rect(1.0, 1.0, 8.0, 8.0),
        complex: vec![ComplexClipRegion {
            rect: rect(2.0, 2.0, 4.0, 4.0),
            radii: BorderRadius {
                top_left: corner,
                top_right: corner,
                bottom_left: corner,
                bottom_right: corner,
            },
        }],
    }
}

#[test]
fn same_text_compares_characters() {
    assert!(same_text("", ""));
    assert!(same_text("rect", "rect"));
    assert!(!same_text("rect", "rect "));
    assert!(!same_text("rect", "rec"));
    assert!(!same_text("rect", "Rect"));
    assert!(same_text("héllo", "héllo"));
    assert!(!same_text("héllo", "hèllo"));
}

#[test]
fn short_form_keys_decide_in_their_order() {
    let mut keys = ItemKeys { rect: true, image: true, text: true, glyphs: true, stacking_context: true };
    assert_eq!(item_kind(keys, Some("image")), Some(ItemKind::Rect));
    keys.rect = false;
    assert_eq!(item_kind(keys, Some("rect")), Some(ItemKind::Image));
    keys.image = false;
    assert_eq!(item_kind(keys, Some("rect")), Some(ItemKind::Text));
    keys.text = false;
    assert_eq!(item_kind(keys, None), Some(ItemKind::Text));
    keys.glyphs = false;
    assert_eq!(item_kind(keys, Some("rect")), Some(ItemKind::StackingContext));
    keys.stacking_context = false;
    assert_eq!(item_kind(keys, Some("rect")), Some(ItemKind::Rect));
}

#[test]
fn type_key_names_the_kind() {
    assert_eq!(item_kind(no_keys(), Some("rect")), Some(ItemKind::Rect));
    assert_eq!(item_kind(no_keys(), Some("image")), Some(ItemKind::Image));
    assert_eq!(item_kind(no_keys(), Some("text")), Some(ItemKind::Text));
    assert_eq!(item_kind(no_keys(), Some("stacking_context")), Some(ItemKind::StackingContext));
    assert_eq!(item_kind(no_keys(), Some("border")), None);
    assert_eq!(item_kind(no_keys(), Some("")), None);
    assert_eq!(item_kind(no_keys(), Some("RECT")), None);
    assert_eq!(item_kind(no_keys(), None), None);
}

#[test]
fn keys_follow_the_form_of_the_item() {
    assert_eq!(rect_bounds_key(false), "rect");
    assert_eq!(rect_bounds_key(true), "bounds");
    assert_eq!(image_source_key(false), "image");
    assert_eq!(image_source_key(true), "src");
}

#[test]
fn rendering_is_one_of_three_names() {
    assert_eq!(image_rendering(None), Some(ImageRendering::Auto));
    assert_eq!(image_rendering(Some("auto")), Some(ImageRendering::Auto));
    assert_eq!(image_rendering(Some("crisp_edges")), Some(ImageRendering::CrispEdges));
    assert_eq!(image_rendering(Some("pixelated")), Some(ImageRendering::Pixelated));
    assert_eq!(image_rendering(Some("crisp-edges")), None);
    assert_eq!(image_rendering(Some("")), None);
}

#[test]
fn image_bounds_take_two_or_four_numbers() {
    let dims = size(32.0, 16.0);
    assert_eq!(image_bounds(&vec![num(5.0), num(6.0)], dims), Some(rect(5.0, 6.0, 32.0, 16.0)));
    assert_eq!(
        image_bounds(&vec![num(5.0), num(6.0), num(7.0), num(8.0)], dims),
        Some(rect(5.0, 6.0, 7.0, 8.0))
    );
    assert_eq!(image_bounds(&vec![], dims), None);
    assert_eq!(image_bounds(&vec![num(1.0)], dims), None);
    assert_eq!(image_bounds(&vec![num(1.0), num(2.0), num(3.0)], dims), None);
    assert_eq!(image_bounds(&vec![num(1.0); 5], dims), None);
}

#[test]
fn text_size_defaults_to_sixteen_pixels() {
    assert_eq!(text_size(None), Au(960));
    assert_eq!(text_size(None).0, 16 * AU_PER_PX);
    assert_eq!(text_size(Some(Au(720))), Au(720));
    assert_eq!(text_size(Some(Au(0))), Au(0));
    assert_eq!(text_blur_radius(None), Au(0));
    assert_eq!(text_blur_radius(Some(Au(120))), Au(120));
    assert_eq!(MAX_AU, (1 << 30) - 1);
}

#[test]
fn colour_defaults_to_white() {
    assert_eq!(item_color(None), white());
    let teal = ColorF::new(num(0.0), num(0.5), num(0.5), num(1.0));
    assert_eq!(item_color(Some(teal)), teal);
}

#[test]
fn rect_item_fills_in_colour_and_clip() {
    let window = full_clip(size(800.0, 600.0));
    assert_eq!(window, ClipRegion { main: rect(0.0, 0.0, 800.0, 600.0), complex: vec![] });
    let bounds = rect(10.0, 20.0, 30.0, 40.0);
    assert_eq!(
        rect_item(bounds, None, None, window.clone()),
        DisplayItem {
            item: SpecificDisplayItem::Rectangle(RectangleDisplayItem { color: white() }),
            rect: bounds,
            clip: window.clone(),
        }
    );
    let teal = ColorF::new(num(0.0), num(0.5), num(0.5), num(1.0));
    assert_eq!(
        rect_item(bounds, Some(teal), Some(rounded()), window),
        DisplayItem {
            item: SpecificDisplayItem::Rectangle(RectangleDisplayItem { color: teal }),
            rect: bounds,
            clip: rounded(),
        }
    );
}

#[test]
fn image_item_fills_in_stretch_and_spacing() {
    let window = full_clip(size(800.0, 600.0));
    let dims = size(64.0, 48.0);
    let bounds = rect(0.0, 0.0, 128.0, 96.0);
    assert_eq!(
        image_item(bounds, None, window.clone(), None, None, ImageRendering::Auto, ImageKey(7), dims),
        DisplayItem {
            item: SpecificDisplayItem::Image(ImageDisplayItem {
                image_key: ImageKey(7),
                stretch_size: dims,
                tile_spacing: size(0.0, 0.0),
                image_rendering: ImageRendering::Auto,
            }),
            rect: bounds,
            clip: window.clone(),
        }
    );
    assert_eq!(
        image_item(
            bounds,
            Some(rounded()),
            window,
            Some(size(8.0, 8.0)),
            Some(size(1.0, 2.0)),
            ImageRendering::Pixelated,
            ImageKey(9),
            dims,
        ),
        DisplayItem {
            item: SpecificDisplayItem::Image(ImageDisplayItem {
                image_key: ImageKey(9),
                stretch_size: size(8.0, 8.0),
                tile_spacing: size(1.0, 2.0),
                image_rendering: ImageRendering::Pixelated,
            }),
            rect: bounds,
            clip: rounded(),
        }
    );
}

#[test]
fn font_and_glyphs_come_from_what_the_item_names() {
    assert_eq!(font_source(true, true), FontSource::Family);
    assert_eq!(font_source(true, false), FontSource::Family);
    assert_eq!(font_source(false, true), FontSource::File);
    assert_eq!(font_source(false, false), FontSource::PlatformDefault);
    assert_eq!(glyph_source(true, true), Some(GlyphSource::Layout));
    assert_eq!(glyph_source(true, false), Some(GlyphSource::Layout));
    assert_eq!(glyph_source(false, true), Some(GlyphSource::Given));
    assert_eq!(glyph_source(false, false), None);
}

#[test]
fn glyphs_are_paired_with_their_places() {
    assert_eq!(place_glyphs(&vec![], &vec![]), Some(vec![]));
    assert_eq!(
        place_glyphs(&vec![7, 8, 9], &vec![num(1.0), num(2.0), num(3.0), num(4.0), num(5.0), num(6.0)]),
        Some(vec![
            GlyphInstance { index: 7, x: num(1.0), y: num(2.0) },
            GlyphInstance { index: 8, x: num(3.0), y: num(4.0) },
            GlyphInstance { index: 9, x: num(5.0), y: num(6.0) },
        ])
    );
    assert_eq!(place_glyphs(&vec![7], &vec![num(1.0)]), None);
    assert_eq!(place_glyphs(&vec![7], &vec![num(1.0), num(2.0), num(3.0)]), None);
    assert_eq!(place_glyphs(&vec![7, 8], &vec![num(1.0), num(2.0)]), None);
    assert_eq!(place_glyphs(&vec![], &vec![num(1.0), num(2.0)]), None);
}

#[test]
fn text_item_fills_in_colour_size_and_blur() {
    let window = full_clip(size(800.0, 600.0));
    let glyphs = vec![GlyphInstance { index: 3, x: num(1.0), y: num(2.0) }];
    let bounds = rect(0.0, 0.0, 100.0, 20.0);
    assert_eq!(
        text_item(bounds, None, window.clone(), glyphs.clone(), FontKey(2), None, None, None),
        DisplayItem {
            item: SpecificDisplayItem::Text(TextDisplayItem {
                glyphs: glyphs.clone(),
                font_key: FontKey(2),
                color: white(),
                size: Au(960),
                blur_radius: Au(0),
            }),
            rect: bounds,
            clip: window.clone(),
        }
    );
    let teal = ColorF::new(num(0.0), num(0.5), num(0.5), num(1.0));
    assert_eq!(
        text_item(
            bounds,
            Some(rounded()),
            window,
            glyphs.clone(),
            FontKey(2),
            Some(teal),
            Some(Au(600)),
            Some(Au(60)),
        ),
        DisplayItem {
            item: SpecificDisplayItem::Text(TextDisplayItem {
                glyphs,
                font_key: FontKey(2),
                color: teal,
                size: Au(600),
                blur_radius: Au(60),
            }),
            rect: bounds,
            clip: rounded(),
        }
    );
}

#[test]
fn stacking_context_fills_in_what_is_left_out() {
    let window = size(800.0, 600.0);
    let plain = described_stacking_context(None, None, None, None, None, window);
    assert_eq!(plain.scroll_policy, ScrollPolicy::Scrollable);
    assert_eq!(plain.bounds, rect(0.0, 0.0, 800.0, 600.0));
    assert_eq!(plain.overflow, rect(0.0, 0.0, 800.0, 600.0));
    assert_eq!(plain.z_index, 0);
    assert_eq!(plain.transform, Matrix4::identity());
    assert_eq!(plain.perspective, Matrix4::identity());
    assert_eq!(plain.mix_blend_mode, MixBlendMode::Normal);
    assert!(plain.filters.is_empty());

    let mut turned = Matrix4::identity();
    turned.m12 = num(0.5);
    let mut deep = Matrix4::identity();
    deep.m34 = num(-0.001);
    let given = described_stacking_context(
        Some(rect(1.0, 2.0, 3.0, 4.0)),
        None,
        Some(-7),
        Some(turned),
        Some(deep),
        window,
    );
    assert_eq!(given.bounds, rect(1.0, 2.0, 3.0, 4.0));
    assert_eq!(given.overflow, rect(1.0, 2.0, 3.0, 4.0));
    assert_eq!(given.z_index, -7);
    assert_eq!(given.transform, turned);
    assert_eq!(given.perspective, deep);

    let clipped = described_stacking_context(
        Some(rect(1.0, 2.0, 3.0, 4.0)),
        Some(rect(0.0, 0.0, 9.0, 9.0)),
        Some(12),
        None,
        None,
        window,
    );
    assert_eq!(clipped.overflow, rect(0.0, 0.0, 9.0, 9.0));
    assert_eq!(clipped.z_index, 12);
}

#[test]
fn z_index_is_cut_down_to_32_bits() {
    let z = |value: i64| {
        described_stacking_context(None, None, Some(value), None, None, size(1.0, 1.0)).z_index
    };
    assert_eq!(z(i64::from(i32::MAX)), i32::MAX);
    assert_eq!(z(i64::from(i32::MIN)), i32::MIN);
    assert_eq!(z(i64::from(i32::MAX) + 1), i32::MIN);
    assert_eq!(z(1 << 32), 0);
    assert_eq!(z((1 << 32) + 5), 5);
    assert_eq!(z(-1), -1);
    assert_eq!(z(i64::MIN), 0);
    assert_eq!(z(i64::MAX), -1);
}

#[test]
fn document_is_checked_for_count_then_root() {
    assert_eq!(check_document(1, true), Ok(()));
    assert_eq!(check_document(1, false), Err(BuildError::MissingRoot));
    assert_eq!(check_document(0, false), Err(BuildError::DocumentCount(0)));
    assert_eq!(check_document(0, true), Err(BuildError::DocumentCount(0)));
    assert_eq!(check_document(2, true), Err(BuildError::DocumentCount(2)));
    assert_eq!(check_document(3, false), Err(BuildError::DocumentCount(3)));
}

#[test]
fn first_frame_builds_and_later_frames_send_or_refresh() {
    let mut state = FrameState::new(1);
    assert_eq!(state, FrameState { frame_built: false, frame_count: 0, queue_depth: 1 });
    assert_eq!(state.queue_frames(), 1);
    assert_eq!(state.do_frame(false), (FrameAction::BuildAndSend, 1));
    assert_eq!(state, FrameState { frame_built: true, frame_count: 1, queue_depth: 1 });
    assert_eq!(state.do_frame(false), (FrameAction::Refresh, 2));
    assert_eq!(state.do_frame(true), (FrameAction::Send, 3));
    assert_eq!(state.do_frame(false), (FrameAction::Refresh, 4));
    assert_eq!(state, FrameState { frame_built: true, frame_count: 4, queue_depth: 1 });

    let mut other = FrameState::new(3);
    assert_eq!(other.queue_frames(), 3);
    assert_eq!(other.do_frame(true), (FrameAction::BuildAndSend, 1));
    assert_eq!(other.queue_frames(), 3);
}

#[test]
fn last_frame_number_is_reached() {
    let mut state = FrameState { frame_built: true, frame_count: u32::MAX - 1, queue_depth: 2 };
    assert_eq!(state.do_frame(true), (FrameAction::Send, u32::MAX));
    assert_eq!(state.frame_count, u32::MAX);
}
