//! Identifiers of widgets.
use vstd::prelude::*;
use vstd::std_specs::cmp::PartialEqSpecImpl;

verus! {

/// The identifier of a widget: either one handed out by a counter, or one
/// chosen by the application.
#[derive(Debug, Hash)]
pub enum WidgetId {
    Unique(usize),
    Custom(String),
}

/// What an identifier means: two identifiers are the same exactly when their
/// views are equal.
pub enum WidgetIdView {
    Unique(usize),
    Custom(Seq<char>),
}

impl View for WidgetId {
    type V = WidgetIdView;

    open spec fn view(&self) -> WidgetIdView {
        match self {
            WidgetId::Unique(n) => WidgetIdView::Unique(*n),
            WidgetId::Custom(s) => WidgetIdView::Custom(s@),
        }
    }
}

impl WidgetId {
    /// Creates an identifier chosen by the application.
    pub fn new(id: String) -> (r: WidgetId)
        ensures
            r@ == WidgetIdView::Custom(id@),
    {
        WidgetId::Custom(id)
    }
}

impl Clone for WidgetId {
    fn clone(&self) -> (r: Self)
        ensures
            r == *self,
    {
        match self {
            WidgetId::Unique(n) => WidgetId::Unique(*n),
            WidgetId::Custom(s) => WidgetId::Custom(s.clone()),
        }
    }
}

impl PartialEq for WidgetId {
    fn eq(&self, other: &Self) -> (r: bool) {
        match self {
            WidgetId::Unique(a) => match other {
                WidgetId::Unique(b) => *a == *b,
                WidgetId::Custom(_) => false,
            },
            WidgetId::Custom(a) => match other {
                WidgetId::Unique(_) => false,
                WidgetId::Custom(b) => a.eq(b),
            },
        }
    }
}

impl Eq for WidgetId {
}

impl PartialEqSpecImpl for WidgetId {
    open spec fn obeys_eq_spec() -> bool {
        true
    }

    open spec fn eq_spec(&self, other: &WidgetId) -> bool {
        self@ == other@
    }
}

} // verus!
