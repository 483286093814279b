//! Inspection of a widget tree that also records which inspected widgets each
//! container holds.
//!
//! The tree is walked by the widget library. Each inspectable widget met is
//! handed to [`InspectableMap::custom`]; around the children of a container
//! the walk calls [`InspectableMap::container_enter`] and
//! [`InspectableMap::container_exit`]; [`InspectableMap::finish`] gives the
//! result.
use std::collections::VecDeque;

use vstd::prelude::*;

use crate::button::{handlers_view, Dimensions, Handler, HandlerView, Padding};
use crate::geometry::{Rectangle, Size};
use crate::inspectable::lists_values;
use crate::location::{Location, LocationView};
use crate::widget_id::{WidgetId, WidgetIdView};

verus! {

/// What the inspector records of a widget: its name, where it was created,
/// and its padding, size, message handlers and clipping.
#[derive(Debug)]
pub struct Properties {
    pub name: String,
    pub location: Location,
    pub padding: Option<Padding>,
    pub size: Dimensions,
    pub handlers: Vec<Handler>,
    pub clip: Option<bool>,
}

pub struct PropertiesView {
    pub name: Seq<char>,
    pub location: LocationView,
    pub padding: Option<Padding>,
    pub size: Dimensions,
    pub handlers: Seq<HandlerView>,
    pub clip: Option<bool>,
}

impl View for Properties {
    type V = PropertiesView;

    open spec fn view(&self) -> PropertiesView {
        PropertiesView {
            name: self.name@,
            location: self.location@,
            padding: self.padding,
            size: self.size,
            handlers: handlers_view(self.handlers@),
            clip: self.clip,
        }
    }
}

fn clone_handlers(handlers: &Vec<Handler>) -> (r: Vec<Handler>)
    ensures
        r@ == handlers@,
{
    let mut r: Vec<Handler> = Vec::new();
    let mut i: usize = 0;
    while i < handlers.len()
        invariant
            i <= handlers.len(),
            r@ == handlers@.subrange(0, i as int),
        decreases handlers.len() - i,
    {
        r.push(handlers[i].clone());
        i += 1;
    }
    r
}

impl Clone for Properties {
    fn clone(&self) -> (r: Self)
        ensures
            r@ == self@,
    {
        Properties {
            name: self.name.clone(),
            location: self.location.clone(),
            padding: self.padding,
            size: self.size,
            handlers: clone_handlers(&self.handlers),
            clip: self.clip,
        }
    }
}

/// A widget whose properties can be inspected.
pub trait Inspectable {
    fn properties(&self) -> &Properties;
}

/// The state an inspectable widget keeps in the widget tree.
#[derive(Debug)]
pub struct State {
    pub properties: Properties,
}

impl Inspectable for State {
    fn properties(&self) -> (r: &Properties)
        ensures
            r == &self.properties,
    {
        &self.properties
    }
}

/// An inspected widget: its bounds, its properties, and the inspected widgets
/// it holds.
#[derive(Debug)]
pub struct Element {
    pub bounds: Rectangle,
    pub properties: Properties,
    children: Vec<WidgetId>,
}

pub struct ElementView {
    pub bounds: Rectangle,
    pub properties: PropertiesView,
    pub children: Seq<WidgetIdView>,
}

pub open spec fn ids_view(ids: Seq<WidgetId>) -> Seq<WidgetIdView> {
    ids.map_values(|id: WidgetId| id@)
}

impl View for Element {
    type V = ElementView;

    closed spec fn view(&self) -> ElementView {
        ElementView {
            bounds: self.bounds,
            properties: self.properties@,
            children: ids_view(self.children@),
        }
    }
}

fn clone_ids(ids: &Vec<WidgetId>) -> (r: Vec<WidgetId>)
    ensures
        r@ == ids@,
{
    let mut r: Vec<WidgetId> = Vec::new();
    let mut i: usize = 0;
    while i < ids.len()
        invariant
            i <= ids.len(),
            r@ == ids@.subrange(0, i as int),
        decreases ids.len() - i,
    {
        r.push(ids[i].clone());
        i += 1;
    }
    r
}

impl Clone for Element {
    fn clone(&self) -> (r: Self)
        ensures
            r@ == self@,
    {
        Element {
            bounds: self.bounds,
            properties: self.properties.clone(),
            children: clone_ids(&self.children),
        }
    }
}

impl Element {
    /// The size of the widget's bounds.
    pub fn size(&self) -> (s: Size)
        ensures
            s.width == self@.bounds.width,
            s.height == self@.bounds.height,
    {
        self.bounds.size()
    }

    /// The ids of the inspected widgets this widget holds, in the order met.
    pub fn children(&self) -> (r: &Vec<WidgetId>)
        ensures
            ids_view(r@) == self@.children,
    {
        &self.children
    }
}

/// The inspected widgets of a tree, keyed by id, in a `FxHashMap`.
#[verifier::external_body]
pub struct ElementTable {
    entries: rustc_hash::FxHashMap<WidgetId, Element>,
}

/// What an [`ElementTable`] holds: each id, by its view, with its element.
pub uninterp spec fn element_table_entries(table: ElementTable) -> Map<WidgetIdView, ElementView>;

/// `FxHashMap::default`: an empty map.
#[verifier::external_body]
fn table_new() -> (r: ElementTable)
    ensures
        element_table_entries(r).is_empty(),
{
    ElementTable { entries: rustc_hash::FxHashMap::default() }
}

/// `FxHashMap::insert`: afterwards the id maps to the element and every other
/// id keeps its element. Keys are compared with `WidgetId`'s `==`, which
/// compares views, and hashed with its derived `Hash`, which agrees with it.
#[verifier::external_body]
fn table_insert(table: &mut ElementTable, id: WidgetId, element: Element)
    ensures
        element_table_entries(*final(table)) == element_table_entries(*old(table)).insert(
            id@,
            element@,
        ),
{
    let _ = table.entries.insert(id, element);
}

/// `FxHashMap::get`, cloned: the element of the id, if the map holds one.
#[verifier::external_body]
fn table_get(table: &ElementTable, id: &WidgetId) -> (r: Option<Element>)
    ensures
        r is Some <==> element_table_entries(*table).contains_key(id@),
        r matches Some(e) ==> e@ == element_table_entries(*table)[id@],
{
    table.entries.get(id).map(|e| e.clone())
}

/// `FxHashMap::values`, each cloned: every element of the map once per key, in
/// the order in which the map is walked, which is left open.
#[verifier::external_body]
fn table_values(table: &ElementTable) -> (values: Vec<Element>)
    ensures
        lists_values(element_table_entries(*table), values@.map_values(|e: Element| e@)),
{
    table.entries.values().map(|e| e.clone()).collect()
}

/// `FxHashMap::clone`: a map with the same entries.
#[verifier::external_body]
fn table_clone(table: &ElementTable) -> (copy: ElementTable)
    ensures
        element_table_entries(copy) == element_table_entries(*table),
{
    ElementTable { entries: table.entries.clone() }
}

/// Every child named by an element of the map is itself in the map.
pub open spec fn children_resolve(elements: Map<WidgetIdView, ElementView>) -> bool {
    forall|k: WidgetIdView, c: WidgetIdView|
        elements.contains_key(k) && #[trigger] elements[k].children.contains(c)
            ==> elements.contains_key(c)
}

/// The inspected widgets of a tree, by id.
pub struct WidgetMap {
    elements: ElementTable,
}

impl View for WidgetMap {
    type V = Map<WidgetIdView, ElementView>;

    closed spec fn view(&self) -> Map<WidgetIdView, ElementView> {
        element_table_entries(self.elements)
    }
}

impl Clone for WidgetMap {
    fn clone(&self) -> (r: Self)
        ensures
            r@ == self@,
    {
        WidgetMap { elements: table_clone(&self.elements) }
    }
}

impl WidgetMap {
    /// Every inspected widget, once per id, in no particular order.
    pub fn widgets(&self) -> (r: Vec<Element>)
        ensures
            lists_values(self@, r@.map_values(|e: Element| e@)),
    {
        table_values(&self.elements)
    }
}

/// A container being walked: the ids of the inspected widgets met in it so
/// far.
struct Container {
    children: Vec<WidgetId>,
}

/// The state of the operation that records the inspectable widgets of a tree.
pub struct InspectableMap {
    parent: VecDeque<Container>,
    elements: ElementTable,
}

#[verifier::ext_equal]
pub struct InspectableMapView {
    /// For each container being walked, outermost first, the ids met in it.
    pub parents: Seq<Seq<WidgetIdView>>,
    pub elements: Map<WidgetIdView, ElementView>,
}

spec fn parents_view(parent: Seq<Container>) -> Seq<Seq<WidgetIdView>> {
    parent.map_values(|c: Container| ids_view(c.children@))
}

impl View for InspectableMap {
    type V = InspectableMapView;

    closed spec fn view(&self) -> InspectableMapView {
        InspectableMapView {
            parents: parents_view(self.parent@),
            elements: element_table_entries(self.elements),
        }
    }
}

/// The id a widget is recorded under: its own, or else the fresh one.
pub open spec fn resolved_id(id: Option<WidgetId>, unique: WidgetId) -> WidgetIdView {
    match id {
        Some(i) => i@,
        None => unique@,
    }
}

/// The ids met in the innermost container being walked; none when no
/// container is being walked.
pub open spec fn innermost(parents: Seq<Seq<WidgetIdView>>) -> Seq<WidgetIdView> {
    if parents.len() > 0 {
        parents.last()
    } else {
        Seq::empty()
    }
}

/// The state after meeting a widget recorded under `id` as `element`: it is
/// recorded, and met in the innermost container being walked.
pub open spec fn after_custom(
    v: InspectableMapView,
    id: WidgetIdView,
    element: ElementView,
) -> InspectableMapView {
    InspectableMapView {
        parents: if v.parents.len() > 0 {
            v.parents.update(v.parents.len() - 1, v.parents.last().push(id))
        } else {
            v.parents
        },
        elements: v.elements.insert(id, element),
    }
}

/// The state after starting to walk a container.
pub open spec fn after_enter(v: InspectableMapView) -> InspectableMapView {
    InspectableMapView { parents: v.parents.push(Seq::empty()), elements: v.elements }
}

/// The state after ending the walk of the innermost container, which goes by
/// `id`: the widget recorded under `id`, if any, gets the ids met in it as
/// children.
pub open spec fn after_exit(v: InspectableMapView, id: WidgetIdView) -> InspectableMapView {
    InspectableMapView {
        parents: if v.parents.len() > 0 {
            v.parents.drop_last()
        } else {
            v.parents
        },
        elements: if v.elements.contains_key(id) {
            v.elements.insert(id, ElementView { children: innermost(v.parents), ..v.elements[id] })
        } else {
            v.elements
        },
    }
}

/// The state after meeting, in order, the widgets of `met`, each an id with
/// the element recorded under it.
pub open spec fn after_customs(
    v: InspectableMapView,
    met: Seq<(WidgetIdView, ElementView)>,
) -> InspectableMapView
    decreases met.len(),
{
    if met.len() == 0 {
        v
    } else {
        after_custom(after_customs(v, met.drop_last()), met.last().0, met.last().1)
    }
}

impl InspectableMap {
    /// Every id met in a container being walked, and every child of a
    /// recorded widget, names a recorded widget.
    pub open spec fn wf(&self) -> bool {
        let v = self@;
        &&& forall|f: int, c: WidgetIdView|
            0 <= f < v.parents.len() && #[trigger] v.parents[f].contains(c)
                ==> v.elements.contains_key(c)
        &&& children_resolve(v.elements)
    }

    /// Records an inspectable widget laid out in `bounds`, under its id if it
    /// has one and else under the fresh id `unique`, with no children yet; a
    /// widget recorded earlier under that id is replaced. The widget is also
    /// met in the innermost container being walked.
    pub fn custom(&mut self, state: &State, id: Option<WidgetId>, unique: WidgetId, bounds: Rectangle)
        requires
            old(self).wf(),
        ensures
            final(self).wf(),
            final(self)@ == after_custom(
                old(self)@,
                resolved_id(id, unique),
                ElementView { bounds, properties: state.properties@, children: Seq::empty() },
            ),
            final(self)@.elements.contains_key(resolved_id(id, unique)),
            final(self)@.elements[resolved_id(id, unique)] == (ElementView {
                bounds,
                properties: state.properties@,
                children: Seq::empty(),
            }),
    {
        let ghost old_view = self@;
        let id = match id {
            Some(i) => i,
            None => unique,
        };
        let ghost k = id@;
        match self.parent.pop_back() {
            Some(mut container) => {
                container.children.push(id.clone());
                self.parent.push_back(container);
                assert(ids_view(container.children@) =~= old_view.parents.last().push(k));
                assert(self@.parents =~= old_view.parents.update(
                    old_view.parents.len() - 1,
                    old_view.parents.last().push(k),
                ));
            },
            None => {
                assert(self@.parents =~= old_view.parents);
            },
        }
        let element = Element {
            bounds,
            properties: state.properties.clone(),
            children: Vec::new(),
        };
        assert(element@.children =~= Seq::<WidgetIdView>::empty());
        table_insert(&mut self.elements, id, element);
        proof {
            let v = self@;
            assert forall|f: int, c: WidgetIdView|
                0 <= f < v.parents.len() && #[trigger] v.parents[f].contains(c) implies v.elements.contains_key(c) by {
                if f == v.parents.len() - 1 && c == k {
                } else if f == v.parents.len() - 1 {
                    assert(old_view.parents[f].contains(c)) by {
                        let m = choose|m: int| 0 <= m < v.parents[f].len() && v.parents[f][m] == c;
                        assert(v.parents[f] == old_view.parents[f].push(k));
                        assert(m < old_view.parents[f].len());
                        assert(old_view.parents[f][m] == c);
                    }
                } else {
                    assert(v.parents[f] == old_view.parents[f]);
                }
            }
            assert forall|a: WidgetIdView, c: WidgetIdView|
                v.elements.contains_key(a) && #[trigger] v.elements[a].children.contains(c) implies v.elements.contains_key(c) by {
                if a != k {
                    assert(old_view.elements[a] == v.elements[a]);
                }
            }
        }
    }

    /// Starts walking a container: a new innermost container, with nothing met
    /// in it yet. Returns the id the container goes by: its own, or else the
    /// fresh id `unique`.
    pub fn container_enter(&mut self, id: Option<WidgetId>, unique: WidgetId) -> (r: WidgetId)
        requires
            old(self).wf(),
        ensures
            final(self).wf(),
            r@ == resolved_id(id, unique),
            final(self)@ == after_enter(old(self)@),
    {
        let ghost old_view = self@;
        let id = match id {
            Some(i) => i,
            None => unique,
        };
        let container = Container { children: Vec::new() };
        assert(ids_view(container.children@) =~= Seq::<WidgetIdView>::empty());
        self.parent.push_back(container);
        assert(self@.parents =~= old_view.parents.push(Seq::empty()));
        proof {
            let v = self@;
            assert forall|f: int, c: WidgetIdView|
                0 <= f < v.parents.len() && #[trigger] v.parents[f].contains(c) implies v.elements.contains_key(c) by {
                if f < old_view.parents.len() {
                    assert(v.parents[f] == old_view.parents[f]);
                }
            }
        }
        id
    }

    /// Ends walking the innermost container, which goes by `id`: if a widget
    /// is recorded under `id`, its children become the ids met in the
    /// container.
    pub fn container_exit(&mut self, id: WidgetId)
        requires
            old(self).wf(),
        ensures
            final(self).wf(),
            final(self)@ == after_exit(old(self)@, id@),
            final(self)@.elements.dom() == old(self)@.elements.dom(),
            old(self)@.elements.contains_key(id@) ==> {
                &&& final(self)@.elements[id@].bounds == old(self)@.elements[id@].bounds
                &&& final(self)@.elements[id@].properties == old(self)@.elements[id@].properties
                &&& final(self)@.elements[id@].children == innermost(old(self)@.parents)
            },
            forall|k: WidgetIdView|
                k != id@ && #[trigger] old(self)@.elements.contains_key(k)
                    ==> final(self)@.elements[k] == old(self)@.elements[k],
    {
        let ghost old_view = self@;
        let children = match self.parent.pop_back() {
            Some(container) => container.children,
            None => Vec::new(),
        };
        proof {
            if old_view.parents.len() > 0 {
                assert(self@.parents =~= old_view.parents.drop_last());
                assert(ids_view(children@) == old_view.parents.last());
            } else {
                assert(self@.parents =~= old_view.parents);
                assert(ids_view(children@) =~= Seq::<WidgetIdView>::empty());
            }
        }
        let ghost popped = ids_view(children@);
        match table_get(&self.elements, &id) {
            Some(mut element) => {
                element.children = children;
                let ghost k = id@;
                table_insert(&mut self.elements, id, element);
                proof {
                    let v = self@;
                    assert forall|c: WidgetIdView| #[trigger] popped.contains(c) implies old_view.elements.contains_key(c) by {
                        if old_view.parents.len() > 0 {
                            assert(old_view.parents[old_view.parents.len() - 1].contains(c));
                        } else {
                            assert(popped.len() == 0);
                        }
                    }
                    assert forall|f: int, c: WidgetIdView|
                        0 <= f < v.parents.len() && #[trigger] v.parents[f].contains(c) implies v.elements.contains_key(c) by {
                        assert(v.parents[f] == old_view.parents[f]);
                    }
                    assert forall|a: WidgetIdView, c: WidgetIdView|
                        v.elements.contains_key(a) && #[trigger] v.elements[a].children.contains(c) implies v.elements.contains_key(c) by {
                        if a != k {
                            assert(old_view.elements[a] == v.elements[a]);
                        } else {
                            assert(popped.contains(c));
                        }
                    }
                }
            },
            None => {
                proof {
                    let v = self@;
                    assert forall|f: int, c: WidgetIdView|
                        0 <= f < v.parents.len() && #[trigger] v.parents[f].contains(c) implies v.elements.contains_key(c) by {
                        assert(v.parents[f] == old_view.parents[f]);
                    }
                }
            },
        }
    }

    /// The widgets recorded so far; every child of each names one of them.
    pub fn finish(&self) -> (r: WidgetMap)
        requires
            self.wf(),
        ensures
            r@ == self@.elements,
            children_resolve(r@),
    {
        WidgetMap { elements: table_clone(&self.elements) }
    }
}

/// Starts recording the inspectable widgets of a tree: nothing recorded, no
/// container being walked.
pub fn map() -> (op: InspectableMap)
    ensures
        op.wf(),
        op@.parents == Seq::<Seq<WidgetIdView>>::empty(),
        op@.elements == Map::<WidgetIdView, ElementView>::empty(),
{
    let op = InspectableMap { parent: VecDeque::new(), elements: table_new() };
    assert(op@.parents =~= Seq::<Seq<WidgetIdView>>::empty());
    op
}


/// Meeting widgets just after entering a container puts their ids, in order,
/// into that container.
pub proof fn lemma_customs_fill_innermost(
    v: InspectableMapView,
    met: Seq<(WidgetIdView, ElementView)>,
)
    ensures
        after_customs(after_enter(v), met).parents == v.parents.push(
            met.map_values(|p: (WidgetIdView, ElementView)| p.0),
        ),
    decreases met.len(),
{
    if met.len() > 0 {
        let rest = met.drop_last();
        lemma_customs_fill_innermost(v, rest);
        assert(rest.map_values(|p: (WidgetIdView, ElementView)| p.0).push(met.last().0)
            =~= met.map_values(|p: (WidgetIdView, ElementView)| p.0));
        assert(v.parents.push(rest.map_values(|p: (WidgetIdView, ElementView)| p.0)).update(
            v.parents.len() as int,
            rest.map_values(|p: (WidgetIdView, ElementView)| p.0).push(met.last().0),
        ) =~= v.parents.push(met.map_values(|p: (WidgetIdView, ElementView)| p.0)));
    } else {
        assert(met.map_values(|p: (WidgetIdView, ElementView)| p.0) =~= Seq::<WidgetIdView>::empty());
    }
}

/// Walking a container that goes by `id`, in which the widgets of `met` are
/// met directly, leaves the containers being walked as they were; the widget
/// recorded under `id` at the end of the walk, if any, gets the ids of `met`,
/// in order, as its children; if none is recorded under `id`, the recorded
/// widgets are those the walk recorded.
pub proof fn lemma_container_walk(
    v: InspectableMapView,
    id: WidgetIdView,
    met: Seq<(WidgetIdView, ElementView)>,
)
    ensures
        after_exit(after_customs(after_enter(v), met), id).parents == v.parents,
        after_customs(after_enter(v), met).elements.contains_key(id) ==> after_exit(
            after_customs(after_enter(v), met),
            id,
        ).elements[id].children == met.map_values(|p: (WidgetIdView, ElementView)| p.0),
        !after_customs(after_enter(v), met).elements.contains_key(id) ==> after_exit(
            after_customs(after_enter(v), met),
            id,
        ).elements == after_customs(after_enter(v), met).elements,
{
    lemma_customs_fill_innermost(v, met);
    let w = after_customs(after_enter(v), met);
    assert(w.parents.drop_last() =~= v.parents);
}

/// Meeting a widget records exactly the given element under its id, leaves
/// every other recorded element as it was, and adds the id, at the end, to the
/// innermost container being walked, leaving the other containers as they
/// were.
pub proof fn lemma_after_custom(v: InspectableMapView, id: WidgetIdView, element: ElementView)
    ensures
        after_custom(v, id, element).elements.contains_key(id),
        after_custom(v, id, element).elements[id] == element,
        after_custom(v, id, element).elements.dom() == v.elements.dom().insert(id),
        forall|k: WidgetIdView|
            k != id && #[trigger] v.elements.contains_key(k) ==> after_custom(
                v,
                id,
                element,
            ).elements[k] == v.elements[k],
        after_custom(v, id, element).parents.len() == v.parents.len(),
        v.parents.len() > 0 ==> after_custom(v, id, element).parents.last() == v.parents.last().push(id),
        forall|f: int|
            0 <= f < v.parents.len() - 1 ==> #[trigger] after_custom(v, id, element).parents[f]
                == v.parents[f],
{
}

/// Ending the walk of a container changes nothing but the children of the
/// element recorded under its id, which become the ids met in the innermost
/// container; the bounds and properties of that element, and every other
/// element, stay as they were, and the innermost container is no longer
/// walked.
pub proof fn lemma_after_exit(v: InspectableMapView, id: WidgetIdView)
    ensures
        after_exit(v, id).elements.dom() == v.elements.dom(),
        v.elements.contains_key(id) ==> {
            &&& after_exit(v, id).elements[id].bounds == v.elements[id].bounds
            &&& after_exit(v, id).elements[id].properties == v.elements[id].properties
            &&& after_exit(v, id).elements[id].children == innermost(v.parents)
        },
        forall|k: WidgetIdView|
            k != id && #[trigger] v.elements.contains_key(k) ==> after_exit(v, id).elements[k]
                == v.elements[k],
        v.parents.len() > 0 ==> after_exit(v, id).parents.len() == v.parents.len() - 1,
        forall|f: int|
            0 <= f < v.parents.len() - 1 ==> #[trigger] after_exit(v, id).parents[f] == v.parents[f],
        v.parents.len() == 0 ==> after_exit(v, id).parents == v.parents,
        innermost(v.parents) == (if v.parents.len() > 0 {
            v.parents[v.parents.len() - 1]
        } else {
            Seq::<WidgetIdView>::empty()
        }),
{
    if v.elements.contains_key(id) {
        assert(after_exit(v, id).elements.dom() =~= v.elements.dom());
    }
}

} // verus!
