use scene_graph::builder::DisplayListBuilder;
use scene_graph::display_item::{
    ClipRegion, DisplayItem, DisplayListItem, DrawListInfo, IframeInfo, RectangleDisplayItem,
    SpecificDisplayItem, SpecificDisplayListItem, StackingContextInfo, StackingLevel,
};
use scene_graph::geometry::{ColorF, Point, Rect, Scalar, Size};
use scene_graph::ids::{PipelineId, StackingContextId};

fn num(v: f32) -> Scalar {
    Scalar::from_bits(v.to_bits())
}

fn square(side: f32) -> DisplayItem {
    let area = Rect {
        origin: Point { x: num(0.0), y: num(0.0) },
        size: Size { width: num(side), height: num(side) },
    };
    DisplayItem {
        item: SpecificDisplayItem::Rectangle(RectangleDisplayItem {
            color: ColorF::new(num(1.0), num(1.0), num(1.0), num(1.0)),
        }),
        rect: area,
        clip: ClipRegion { main: area, complex: vec![] },
    }
}

fn group(level: StackingLevel, items: Vec<DisplayItem>) -> DisplayListItem {
    DisplayListItem {
        stacking_level: level,
        specific: SpecificDisplayListItem::DrawList(DrawListInfo { items }),
    }
}

#[test]
fn empty_builder_finalizes_to_nothing() {
    assert_eq!(DisplayListBuilder::new().finalize(), vec![]);
}

#[test]
fn items_of_one_level_form_one_group() {
    let mut builder = DisplayListBuilder::new();
    builder.push_item(StackingLevel::Content, square(1.0));
    builder.push_item(StackingLevel::Content, square(2.0));
    builder.push_item(StackingLevel::Content, square(3.0));
    assert_eq!(
        builder.finalize(),
        vec![group(StackingLevel::Content, vec![square(1.0), square(2.0), square(3.0)])]
    );
}

#[test]
fn first_item_at_the_first_level_opens_a_group() {
    let mut builder = DisplayListBuilder::new();
    builder.push_item(StackingLevel::BackgroundAndBorders, square(1.0));
    assert_eq!(
        builder.finalize(),
        vec![group(StackingLevel::BackgroundAndBorders, vec![square(1.0)])]
    );
}

#[test]
fn change_of_level_closes_the_group() {
    let mut builder = DisplayListBuilder::new();
    builder.push_item(StackingLevel::Content, square(1.0));
    builder.push_item(StackingLevel::Outlines, square(2.0));
    builder.push_item(StackingLevel::Content, square(3.0));
    assert_eq!(
        builder.finalize(),
        vec![
            group(StackingLevel::Content, vec![square(1.0)]),
            group(StackingLevel::Outlines, vec![square(2.0)]),
            group(StackingLevel::Content, vec![square(3.0)]),
        ]
    );
}

#[test]
fn stacking_context_and_iframe_close_the_group() {
    let frame = IframeInfo {
        id: PipelineId(4),
        offset: Point { x: num(1.0), y: num(2.0) },
        clip: Rect {
            origin: Point { x: num(0.0), y: num(0.0) },
            size: Size { width: num(10.0), height: num(10.0) },
        },
    };
    let mut builder = DisplayListBuilder::new();
    builder.push_stacking_context(StackingLevel::Floats, StackingContextId(1));
    builder.push_item(StackingLevel::Content, square(1.0));
    builder.push_item(StackingLevel::Content, square(2.0));
    builder.push_stacking_context(StackingLevel::Content, StackingContextId(2));
    builder.push_item(StackingLevel::Content, square(3.0));
    builder.push_iframe(StackingLevel::PositionedContent, frame);
    builder.push_iframe(StackingLevel::PositionedContent, frame);
    assert_eq!(
        builder.finalize(),
        vec![
            DisplayListItem {
                stacking_level: StackingLevel::Floats,
                specific: SpecificDisplayListItem::StackingContext(StackingContextInfo {
                    id: StackingContextId(1),
                }),
            },
            group(StackingLevel::Content, vec![square(1.0), square(2.0)]),
            DisplayListItem {
                stacking_level: StackingLevel::Content,
                specific: SpecificDisplayListItem::StackingContext(StackingContextInfo {
                    id: StackingContextId(2),
                }),
            },
            group(StackingLevel::Content, vec![square(3.0)]),
            DisplayListItem {
                stacking_level: StackingLevel::PositionedContent,
                specific: SpecificDisplayListItem::Iframe(Box::new(frame)),
            },
            DisplayListItem {
                stacking_level: StackingLevel::PositionedContent,
                specific: SpecificDisplayListItem::Iframe(Box::new(frame)),
            },
        ]
    );
}
