use iced_inspector::button::{Dimensions, Length, Padding, FIVE_PIXELS, TEN_PIXELS};
use iced_inspector::geometry::Rectangle;
use iced_inspector::inspector::{self, Element, Inspectable, Properties, State};
use iced_inspector::location::Location;
use iced_inspector::widget_id::WidgetId;

fn state(line: u32) -> State {
    let location = Location { file: "src/main.rs".to_string(), line, column: 9 };
    State {
        properties: Properties::button(
            location,
            Dimensions { width: Length::Shrink, height: Length::Shrink },
        ),
    }
}

fn rect(x: f32) -> Rectangle {
    Rectangle { x: x.to_bits(), y: 0, width: 10.0f32.to_bits(), height: 5.0f32.to_bits() }
}

fn custom(id: &str) -> Option<WidgetId> {
    Some(WidgetId::new(id.to_string()))
}

fn by_line(mut widgets: Vec<Element>) -> Vec<Element> {
    widgets.sort_by_key(|e| e.properties.location.line);
    widgets
}

#[test]
fn a_widget_outside_any_container_has_no_children() {
    let mut op = inspector::map();
    op.custom(&state(1), None, WidgetId::Unique(0), rect(1.0));
    let widgets = op.finish().widgets();
    assert_eq!(widgets.len(), 1);
    assert!(widgets[0].children().is_empty());
    assert_eq!(widgets[0].size().width, 10.0f32.to_bits());
}

#[test]
fn widgets_met_in_a_container_become_its_children() {
    let mut op = inspector::map();
    op.custom(&state(1), custom("column"), WidgetId::Unique(0), rect(0.0));
    let column = op.container_enter(custom("column"), WidgetId::Unique(1));
    assert!(column == WidgetId::new("column".to_string()));
    op.custom(&state(2), custom("first"), WidgetId::Unique(2), rect(1.0));
    op.custom(&state(3), None, WidgetId::Unique(3), rect(2.0));
    op.container_exit(column);
    let widgets = by_line(op.finish().widgets());
    assert_eq!(widgets.len(), 3);
    let children = widgets[0].children();
    assert_eq!(children.len(), 2);
    assert!(children[0] == WidgetId::new("first".to_string()));
    assert!(children[1] == WidgetId::Unique(3));
    assert!(widgets[1].children().is_empty());
}

#[test]
fn a_container_without_a_recorded_widget_changes_nothing() {
    let mut op = inspector::map();
    let outer = op.container_enter(None, WidgetId::Unique(10));
    op.custom(&state(1), None, WidgetId::Unique(11), rect(0.0));
    op.container_exit(outer);
    let widgets = op.finish().widgets();
    assert_eq!(widgets.len(), 1);
    assert!(widgets[0].children().is_empty());
}

#[test]
fn a_button_and_its_content_container_go_by_different_fresh_ids() {
    // A button reports itself with no id, then its content as a container
    // with no id: the two get different fresh ids, so the button keeps no
    // children.
    let mut op = inspector::map();
    op.custom(&state(1), None, WidgetId::Unique(20), rect(0.0));
    let content = op.container_enter(None, WidgetId::Unique(21));
    op.custom(&state(2), None, WidgetId::Unique(22), rect(1.0));
    op.container_exit(content);
    let widgets = by_line(op.finish().widgets());
    assert_eq!(widgets.len(), 2);
    assert!(widgets[0].children().is_empty());
}

#[test]
fn nested_containers_give_children_to_the_innermost() {
    let mut op = inspector::map();
    op.custom(&state(1), custom("outer"), WidgetId::Unique(0), rect(0.0));
    let outer = op.container_enter(custom("outer"), WidgetId::Unique(1));
    op.custom(&state(2), custom("inner"), WidgetId::Unique(2), rect(0.0));
    let inner = op.container_enter(custom("inner"), WidgetId::Unique(3));
    op.custom(&state(3), custom("leaf"), WidgetId::Unique(4), rect(0.0));
    op.container_exit(inner);
    op.container_exit(outer);
    let widgets = by_line(op.finish().widgets());
    assert_eq!(widgets.len(), 3);
    assert_eq!(widgets[0].children().len(), 1);
    assert!(widgets[0].children()[0] == WidgetId::new("inner".to_string()));
    assert_eq!(widgets[1].children().len(), 1);
    assert!(widgets[1].children()[0] == WidgetId::new("leaf".to_string()));
}

#[test]
fn leaving_with_no_container_clears_the_children() {
    let mut op = inspector::map();
    op.custom(&state(1), custom("a"), WidgetId::Unique(0), rect(0.0));
    let a = op.container_enter(custom("a"), WidgetId::Unique(1));
    op.custom(&state(2), custom("b"), WidgetId::Unique(2), rect(0.0));
    op.container_exit(a);
    op.container_exit(WidgetId::new("a".to_string()));
    let widgets = by_line(op.finish().widgets());
    assert!(widgets[0].children().is_empty());
}

#[test]
fn meeting_a_widget_again_replaces_it() {
    let mut op = inspector::map();
    op.custom(&state(1), custom("a"), WidgetId::Unique(0), rect(0.0));
    op.custom(&state(5), custom("a"), WidgetId::Unique(1), rect(3.0));
    let widgets = op.finish().widgets();
    assert_eq!(widgets.len(), 1);
    assert_eq!(widgets[0].properties.location.line, 5);
    assert_eq!(widgets[0].bounds.x, 3.0f32.to_bits());
}

#[test]
fn state_hands_out_its_properties() {
    let s = state(4);
    assert_eq!(s.properties().location.line, 4);
    assert_eq!(s.properties().name, "Button");
}

#[test]
fn a_new_button_has_the_default_padding_and_no_handlers() {
    let p = state(1).properties;
    assert_eq!(p.name, "Button");
    assert_eq!(
        p.padding,
        Some(Padding {
            top: 5.0f32.to_bits(),
            right: 10.0f32.to_bits(),
            bottom: 5.0f32.to_bits(),
            left: 10.0f32.to_bits(),
        })
    );
    assert_eq!(FIVE_PIXELS, 5.0f32.to_bits());
    assert_eq!(TEN_PIXELS, 10.0f32.to_bits());
    assert!(p.handlers.is_empty());
    assert_eq!(p.clip, Some(false));
}

#[test]
fn builders_set_one_property_each() {
    let p = state(1)
        .properties
        .width(Length::Fill)
        .height(Length::Fixed(40.0f32.to_bits()))
        .padding(Padding { top: 0, right: 0, bottom: 0, left: 0 })
        .clip(true);
    assert_eq!(p.size, Dimensions { width: Length::Fill, height: Length::Fixed(40.0f32.to_bits()) });
    assert_eq!(p.padding, Some(Padding { top: 0, right: 0, bottom: 0, left: 0 }));
    assert_eq!(p.clip, Some(true));
    assert_eq!(p.name, "Button");
    let q = state(1).properties.width(Length::FillPortion(3));
    assert_eq!(q.size.width, Length::FillPortion(3));
    assert_eq!(q.size.height, Length::Shrink);
}

#[test]
fn pressing_handlers_are_recorded_once_per_name() {
    let p = state(1)
        .properties
        .on_press("Increment".to_string())
        .on_press_maybe("None".to_string())
        .on_press("Decrement".to_string())
        .on_press_with();
    assert_eq!(p.handlers.len(), 3);
    assert_eq!(p.handlers[0].name, "on_press");
    assert_eq!(p.handlers[0].message, "Decrement");
    assert_eq!(p.handlers[1].name, "on_press_maybe");
    assert_eq!(p.handlers[1].message, "None");
    assert_eq!(p.handlers[2].name, "on_press_with");
    assert_eq!(p.handlers[2].message, "");
}

#[test]
fn cloned_properties_are_equal_field_by_field() {
    let p = state(2).properties.on_press("Go".to_string());
    let q = p.clone();
    assert_eq!(q.name, p.name);
    assert_eq!(q.handlers[0].message, "Go");
    assert_eq!(q.location.line, 2);
}
