//! Inspection of a widget tree: every inspectable widget is recorded under its
//! id, and the widget-specific data of one chosen widget can be replaced.
//!
//! The tree itself is walked by the widget library; the walk hands each
//! inspectable widget to [`InspectableMap::inspectable`] or to
//! [`Focus::inspectable`], and the map is taken with
//! [`InspectableMap::finish`].
use vstd::prelude::*;
use vstd::std_specs::cmp::PartialEqSpecImpl;

use crate::geometry::{Rectangle, Size};
use crate::location::{Location, LocationView};
use crate::specific::{parsed_json, Specific, SpecificView};
use crate::widget_id::{WidgetId, WidgetIdView};

verus! {

/// What the inspector knows of a widget.
#[derive(Debug)]
pub struct Properties {
    pub id: WidgetId,
    pub name: String,
    pub location: Location,
    pub specific: Specific,
    pub messages: Specific,
}

pub struct PropertiesView {
    pub id: WidgetIdView,
    pub name: Seq<char>,
    pub location: LocationView,
    pub specific: SpecificView,
    pub messages: SpecificView,
}

impl View for Properties {
    type V = PropertiesView;

    open spec fn view(&self) -> PropertiesView {
        PropertiesView {
            id: self.id@,
            name: self.name@,
            location: self.location@,
            specific: self.specific@,
            messages: self.messages@,
        }
    }
}

impl Clone for Properties {
    fn clone(&self) -> (r: Self)
        ensures
            r@ == self@,
    {
        Properties {
            id: self.id.clone(),
            name: self.name.clone(),
            location: self.location.clone(),
            specific: self.specific.clone(),
            messages: self.messages.clone(),
        }
    }
}

/// Two properties are equal when they describe the same place in the source.
impl PartialEq for Properties {
    fn eq(&self, other: &Self) -> (r: bool) {
        self.location.eq(&other.location)
    }
}

impl PartialEqSpecImpl for Properties {
    open spec fn obeys_eq_spec() -> bool {
        true
    }

    open spec fn eq_spec(&self, other: &Properties) -> bool {
        self.location@ == other.location@
    }
}

/// A widget that can be inspected and edited.
pub trait Inspectable {
    /// Gives the widget the widget-specific data written as the JSON text
    /// `specific`.
    fn edit(&mut self, specific: String)
        requires
            parsed_json(specific@) is Some,
    ;

    fn properties(&self) -> &Properties;
}

impl Inspectable for Properties {
    /// Replaces the widget-specific data with what the JSON text reads as;
    /// nothing else changes.
    fn edit(&mut self, specific: String)
        ensures
            parsed_json(specific@) == Some(final(self).specific@),
            final(self).id == old(self).id,
            final(self).name == old(self).name,
            final(self).location == old(self).location,
            final(self).messages == old(self).messages,
    {
        self.specific = Specific::from_str(specific.as_str());
    }

    fn properties(&self) -> (r: &Properties)
        ensures
            r == self,
    {
        self
    }
}

/// An inspected widget: where it was laid out, and its properties.
#[derive(Debug)]
pub struct Element {
    pub bounds: Rectangle,
    pub properties: Properties,
}

pub struct ElementView {
    pub bounds: Rectangle,
    pub properties: PropertiesView,
}

impl View for Element {
    type V = ElementView;

    open spec fn view(&self) -> ElementView {
        ElementView { bounds: self.bounds, properties: self.properties@ }
    }
}

impl Clone for Element {
    fn clone(&self) -> (r: Self)
        ensures
            r@ == self@,
    {
        Element { bounds: self.bounds, properties: self.properties.clone() }
    }
}

impl Element {
    /// The size of the widget's bounds.
    pub fn size(&self) -> (s: Size)
        ensures
            s.width == self.bounds.width,
            s.height == self.bounds.height,
    {
        self.bounds.size()
    }
}

/// The inspected widgets of a tree, keyed by id, in a `FxHashMap`.
#[verifier::external_body]
pub struct ElementTable {
    entries: rustc_hash::FxHashMap<WidgetId, Element>,
}

/// What an [`ElementTable`] holds: each id, by its view, with its element.
pub uninterp spec fn element_table_entries(table: ElementTable) -> Map<WidgetIdView, ElementView>;

/// Lists the values of a map, each once per key, in some order.
pub open spec fn lists_values<K, V>(entries: Map<K, V>, values: Seq<V>) -> bool {
    exists|keys: Seq<K>|
        {
            &&& keys.len() == values.len()
            &&& keys.no_duplicates()
            &&& keys.to_set() == entries.dom()
            &&& forall|i: int| 0 <= i < keys.len() ==> #[trigger] values[i] == entries[keys[i]]
        }
}

/// `FxHashMap::default`: an empty map.
#[verifier::external_body]
fn table_new() -> (r: ElementTable)
    ensures
        element_table_entries(r).is_empty(),
{
    ElementTable { entries: rustc_hash::FxHashMap::default() }
}

/// `FxHashMap::insert`: afterwards the id maps to the element and every other
/// id keeps its element. Keys are compared with `WidgetId`'s `==`, which
/// compares views, and hashed with its derived `Hash`, which agrees with it.
#[verifier::external_body]
fn table_insert(table: &mut ElementTable, id: WidgetId, element: Element)
    ensures
        element_table_entries(*final(table)) == element_table_entries(*old(table)).insert(
            id@,
            element@,
        ),
{
    let _ = table.entries.insert(id, element);
}

/// `FxHashMap::values`, each cloned: every element of the map once per key, in
/// the order in which the map is walked, which is left open.
#[verifier::external_body]
fn table_values(table: &ElementTable) -> (values: Vec<Element>)
    ensures
        lists_values(element_table_entries(*table), values@.map_values(|e: Element| e@)),
{
    table.entries.values().map(|e| e.clone()).collect()
}

/// `FxHashMap::clone`: a map with the same entries.
#[verifier::external_body]
fn table_clone(table: &ElementTable) -> (copy: ElementTable)
    ensures
        element_table_entries(copy) == element_table_entries(*table),
{
    ElementTable { entries: table.entries.clone() }
}

/// The inspected widgets of a tree, by id.
pub struct WidgetMap {
    elements: ElementTable,
}

impl View for WidgetMap {
    type V = Map<WidgetIdView, ElementView>;

    closed spec fn view(&self) -> Map<WidgetIdView, ElementView> {
        element_table_entries(self.elements)
    }
}

impl Clone for WidgetMap {
    fn clone(&self) -> (r: Self)
        ensures
            r@ == self@,
    {
        WidgetMap { elements: table_clone(&self.elements) }
    }
}

impl WidgetMap {
    /// Every inspected widget, once per id, in no particular order.
    pub fn widgets(&self) -> (r: Vec<Element>)
        ensures
            lists_values(self@, r@.map_values(|e: Element| e@)),
    {
        table_values(&self.elements)
    }
}

/// The state of the operation that records the inspectable widgets of a tree.
pub struct InspectableMap {
    elements: ElementTable,
}

impl View for InspectableMap {
    type V = Map<WidgetIdView, ElementView>;

    closed spec fn view(&self) -> Map<WidgetIdView, ElementView> {
        element_table_entries(self.elements)
    }
}

/// Starts recording the inspectable widgets of a tree: nothing recorded yet.
pub fn map() -> (op: InspectableMap)
    ensures
        op@ == Map::<WidgetIdView, ElementView>::empty(),
{
    InspectableMap { elements: table_new() }
}

impl InspectableMap {
    /// Records an inspectable widget under the id in its properties, with the
    /// bounds it was laid out in; a widget recorded earlier under the same id
    /// is replaced.
    pub fn inspectable(&mut self, properties: &Properties, bounds: Rectangle)
        ensures
            final(self)@ == old(self)@.insert(
                properties.id@,
                ElementView { bounds, properties: properties@ },
            ),
    {
        let id = properties.id.clone();
        let element = Element { bounds, properties: properties.clone() };
        table_insert(&mut self.elements, id, element);
    }

    /// The widgets recorded so far.
    pub fn finish(&self) -> (r: WidgetMap)
        ensures
            r@ == self@,
    {
        WidgetMap { elements: table_clone(&self.elements) }
    }
}

/// The map after recording, in order, each widget of `met` with its
/// properties and bounds.
pub open spec fn recorded(met: Seq<(PropertiesView, Rectangle)>) -> Map<WidgetIdView, ElementView>
    decreases met.len(),
{
    if met.len() == 0 {
        Map::empty()
    } else {
        recorded(met.drop_last()).insert(
            met.last().0.id,
            ElementView { bounds: met.last().1, properties: met.last().0 },
        )
    }
}

/// Recording one more widget is what [`InspectableMap::inspectable`] does to
/// the map.
pub proof fn lemma_recorded_push(met: Seq<(PropertiesView, Rectangle)>, next: (PropertiesView, Rectangle))
    ensures
        recorded(met.push(next)) == recorded(met).insert(
            next.0.id,
            ElementView { bounds: next.1, properties: next.0 },
        ),
{
    assert(met.push(next).drop_last() =~= met);
}

/// `i` is the last position in `met` of a widget with id `id`.
pub open spec fn is_last_with_id(met: Seq<(PropertiesView, Rectangle)>, id: WidgetIdView, i: int) -> bool {
    &&& 0 <= i < met.len()
    &&& met[i].0.id == id
    &&& forall|j: int| i < j < met.len() ==> met[j].0.id != id
}

/// After recording a run of widgets, the map holds exactly the ids met.
pub proof fn lemma_recorded_ids(met: Seq<(PropertiesView, Rectangle)>, id: WidgetIdView)
    ensures
        recorded(met).contains_key(id) <==> exists|i: int|
            0 <= i < met.len() && #[trigger] met[i].0.id == id,
    decreases met.len(),
{
    if met.len() > 0 {
        let rest = met.drop_last();
        lemma_recorded_ids(rest, id);
        if exists|i: int| 0 <= i < rest.len() && #[trigger] rest[i].0.id == id {
            let i = choose|i: int| 0 <= i < rest.len() && #[trigger] rest[i].0.id == id;
            assert(met[i].0.id == id);
        }
        if exists|i: int| 0 <= i < met.len() && #[trigger] met[i].0.id == id {
            let i = choose|i: int| 0 <= i < met.len() && #[trigger] met[i].0.id == id;
            if i < met.len() - 1 {
                assert(rest[i].0.id == id);
            }
        }
    }
}

/// After recording a run of widgets, each id met maps to the widget met last
/// under it.
pub proof fn lemma_last_inspection_wins(met: Seq<(PropertiesView, Rectangle)>, id: WidgetIdView, i: int)
    requires
        is_last_with_id(met, id, i),
    ensures
        recorded(met)[id] == (ElementView { bounds: met[i].1, properties: met[i].0 }),
    decreases met.len(),
{
    let n = met.len() - 1;
    if i < n {
        let rest = met.drop_last();
        assert(met[n].0.id != id);
        assert forall|j: int| i < j < rest.len() implies rest[j].0.id != id by {
            assert(rest[j] == met[j]);
        }
        lemma_last_inspection_wins(rest, id, i);
    }
}

/// The state of the operation that replaces the widget-specific data of the
/// widget with a given id.
pub struct Focus {
    target: WidgetId,
    specific: String,
}

pub struct FocusView {
    pub target: WidgetIdView,
    pub specific: Seq<char>,
}

impl View for Focus {
    type V = FocusView;

    closed spec fn view(&self) -> FocusView {
        FocusView { target: self.target@, specific: self.specific@ }
    }
}

/// Starts an edit of the widget with id `target`: its widget-specific data
/// becomes the JSON text `specific`.
pub fn edit(target: WidgetId, specific: String) -> (op: Focus)
    ensures
        op@ == (FocusView { target: target@, specific: specific@ }),
{
    Focus { target, specific }
}

/// What an edit did to a widget.
#[derive(Clone, Copy, Debug, PartialEq, Eq, Structural)]
pub enum EditOutcome {
    /// The widget is not the target; it is unchanged.
    Skipped,
    /// The widget is the target and got the new widget-specific data.
    Edited,
    /// The widget is the target but the text is not JSON; it is unchanged.
    Rejected,
}

impl Focus {
    /// Edits an inspectable widget met in the walk: the target gets the
    /// widget-specific data the JSON text reads as; any other widget, and the
    /// target when the text is not JSON, stay as they were.
    pub fn inspectable(&self, properties: &mut Properties) -> (r: EditOutcome)
        ensures
            old(properties).id@ != self@.target ==> r == EditOutcome::Skipped
                && *final(properties) == *old(properties),
            old(properties).id@ == self@.target && parsed_json(self@.specific) is None ==> r
                == EditOutcome::Rejected && *final(properties) == *old(properties),
            old(properties).id@ == self@.target && parsed_json(self@.specific) is Some ==> {
                &&& r == EditOutcome::Edited
                &&& parsed_json(self@.specific) == Some(final(properties).specific@)
                &&& final(properties).id == old(properties).id
                &&& final(properties).name == old(properties).name
                &&& final(properties).location == old(properties).location
                &&& final(properties).messages == old(properties).messages
            },
    {
        if properties.id == self.target {
            match Specific::parse(self.specific.as_str()) {
                Some(_) => {
                    properties.edit(self.specific.clone());
                    EditOutcome::Edited
                },
                None => EditOutcome::Rejected,
            }
        } else {
            EditOutcome::Skipped
        }
    }
}

} // verus!
