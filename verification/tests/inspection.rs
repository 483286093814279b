use iced_inspector::geometry::Rectangle;
use iced_inspector::inspectable::{self, EditOutcome, Inspectable, Properties};
use iced_inspector::location::Location;
use iced_inspector::specific::{Field, Specific};
use iced_inspector::widget_id::WidgetId;

fn location(file: &str, line: u32, column: u32) -> Location {
    Location { file: file.to_string(), line, column }
}

fn object(fields: &[(&str, &str)]) -> Specific {
    Specific::Object(
        fields
            .iter()
            .map(|(name, value)| Field { name: name.to_string(), value: value.to_string() })
            .collect(),
    )
}

fn properties(id: WidgetId, name: &str, line: u32) -> Properties {
    Properties {
        id,
        name: name.to_string(),
        location: location("src/main.rs", line, 5),
        specific: object(&[("padding", "5.0")]),
        messages: Specific::Other("null".to_string()),
    }
}

fn rect(x: f32, y: f32, width: f32, height: f32) -> Rectangle {
    Rectangle { x: x.to_bits(), y: y.to_bits(), width: width.to_bits(), height: height.to_bits() }
}

#[test]
fn widget_ids_compare_by_kind_and_value() {
    assert!(WidgetId::Unique(3) == WidgetId::Unique(3));
    assert!(WidgetId::Unique(3) != WidgetId::Unique(4));
    assert!(WidgetId::new("a".to_string()) == WidgetId::Custom("a".to_string()));
    assert!(WidgetId::Custom("3".to_string()) != WidgetId::Unique(3));
}

#[test]
fn locations_compare_by_file_line_and_column() {
    assert!(location("a.rs", 1, 2) == location("a.rs", 1, 2));
    assert!(location("a.rs", 1, 2) != location("b.rs", 1, 2));
    assert!(location("a.rs", 1, 2) != location("a.rs", 1, 3));
}

#[test]
fn fields_of_an_object_come_in_order() {
    let s = object(&[("b", "1"), ("a", "[2]")]);
    assert!(s.is_object());
    let fields = s.fields();
    assert_eq!(fields.len(), 2);
    assert_eq!(fields[0].name, "b");
    assert_eq!(fields[1].value, "[2]");
    assert!(!Specific::Other("3".to_string()).is_object());
}

#[test]
fn find_and_get_takes_the_first_value_that_decodes() {
    let s = object(&[("name", "\"button\""), ("width", "12"), ("height", "30")]);
    let decode = |text: &String| text.parse::<u32>().ok();
    assert_eq!(s.find_and_get(decode), Some(12));
}

#[test]
fn find_and_get_is_none_when_nothing_decodes() {
    let s = object(&[("name", "\"button\"")]);
    assert_eq!(s.find_and_get(|text: &String| text.parse::<u32>().ok()), None);
    assert_eq!(object(&[]).find_and_get(|text: &String| text.parse::<u32>().ok()), None);
}

#[test]
fn find_and_get_is_none_for_a_value_that_is_no_object() {
    let s = Specific::Other("12".to_string());
    assert_eq!(s.find_and_get(|text: &String| text.parse::<u32>().ok()), None);
}

#[test]
fn properties_are_equal_when_their_locations_are() {
    let a = properties(WidgetId::Unique(1), "Button", 10);
    let b = properties(WidgetId::Unique(2), "Text", 10);
    let c = properties(WidgetId::Unique(1), "Button", 11);
    assert!(a == b);
    assert!(a != c);
}

#[test]
fn edit_replaces_only_the_specific_data() {
    let mut p = properties(WidgetId::Unique(1), "Button", 10);
    p.edit("{\"padding\": 8.0, \"clip\": true}".to_string());
    let fields = p.specific.fields();
    assert_eq!(fields.len(), 2);
    assert_eq!(fields[0].name, "clip");
    assert_eq!(fields[0].value, "true");
    assert_eq!(fields[1].name, "padding");
    assert_eq!(fields[1].value, "8.0");
    assert_eq!(p.name, "Button");
    assert!(p.id == WidgetId::Unique(1));
    assert!(!p.messages.is_object());
    let q = p.properties();
    assert_eq!(q.location.line, 10);
}

#[test]
fn map_records_each_widget_under_its_id() {
    let mut op = inspectable::map();
    op.inspectable(&properties(WidgetId::Unique(1), "Button", 10), rect(0.0, 0.0, 10.0, 20.0));
    op.inspectable(&properties(WidgetId::new("title".to_string()), "Text", 12), rect(1.0, 2.0, 3.0, 4.0));
    let map = op.finish();
    let mut widgets = map.widgets();
    widgets.sort_by_key(|e| e.properties.location.line);
    assert_eq!(widgets.len(), 2);
    assert_eq!(widgets[0].properties.name, "Button");
    assert_eq!(widgets[1].properties.name, "Text");
    assert_eq!(widgets[1].size().width, 3.0f32.to_bits());
    assert_eq!(widgets[1].size().height, 4.0f32.to_bits());
}

#[test]
fn map_replaces_a_widget_met_again_under_the_same_id() {
    let mut op = inspectable::map();
    op.inspectable(&properties(WidgetId::Unique(7), "Button", 10), rect(0.0, 0.0, 1.0, 1.0));
    op.inspectable(&properties(WidgetId::Unique(7), "Text", 20), rect(5.0, 5.0, 2.0, 2.0));
    let widgets = op.finish().widgets();
    assert_eq!(widgets.len(), 1);
    assert_eq!(widgets[0].properties.name, "Text");
    assert_eq!(widgets[0].bounds.x, 5.0f32.to_bits());
}

#[test]
fn empty_map_has_no_widgets() {
    let op = inspectable::map();
    assert!(op.finish().widgets().is_empty());
}

#[test]
fn a_finished_map_is_not_changed_by_later_inspection() {
    let mut op = inspectable::map();
    op.inspectable(&properties(WidgetId::Unique(1), "Button", 10), rect(0.0, 0.0, 1.0, 1.0));
    let first = op.finish();
    op.inspectable(&properties(WidgetId::Unique(2), "Text", 11), rect(0.0, 0.0, 1.0, 1.0));
    assert_eq!(first.widgets().len(), 1);
    assert_eq!(first.clone().widgets().len(), 1);
    assert_eq!(op.finish().widgets().len(), 2);
}

#[test]
fn edit_changes_the_target_only() {
    let focus = inspectable::edit(WidgetId::Unique(4), "{\"padding\":1.0}".to_string());
    let mut target = properties(WidgetId::Unique(4), "Button", 10);
    let mut other = properties(WidgetId::Unique(5), "Button", 10);
    assert_eq!(focus.inspectable(&mut target), EditOutcome::Edited);
    assert_eq!(target.specific.fields()[0].value, "1.0");
    assert_eq!(target.name, "Button");
    assert_eq!(focus.inspectable(&mut other), EditOutcome::Skipped);
    assert_eq!(other.specific.fields()[0].value, "5.0");
}

#[test]
fn edit_with_text_that_is_not_json_leaves_the_target_as_it_was() {
    let focus = inspectable::edit(WidgetId::Unique(4), "{".to_string());
    let mut target = properties(WidgetId::Unique(4), "Button", 10);
    assert_eq!(focus.inspectable(&mut target), EditOutcome::Rejected);
    assert_eq!(target.specific.fields()[0].value, "5.0");
    let mut other = properties(WidgetId::Unique(5), "Button", 10);
    assert_eq!(focus.inspectable(&mut other), EditOutcome::Skipped);
}

#[test]
fn parsing_json_keeps_members_by_name_and_other_values_as_text() {
    let s = Specific::parse("{\"width\": 12, \"name\": \"b\", \"size\": [1, 2]}").unwrap();
    let fields = s.fields();
    let names: Vec<&str> = fields.iter().map(|f| f.name.as_str()).collect();
    assert_eq!(names, vec!["name", "size", "width"]);
    assert_eq!(fields[0].value, "\"b\"");
    assert_eq!(fields[1].value, "[1,2]");
    match Specific::parse(" [1, 2] ").unwrap() {
        Specific::Other(text) => assert_eq!(text, "[1,2]"),
        Specific::Object(_) => panic!("not an object"),
    }
    match Specific::from_str("null") {
        Specific::Other(text) => assert_eq!(text, "null"),
        Specific::Object(_) => panic!("not an object"),
    }
}

#[test]
fn text_that_is_not_json_does_not_parse() {
    assert!(Specific::parse("{").is_none());
    assert!(Specific::parse("").is_none());
    assert!(Specific::parse("padding").is_none());
}
