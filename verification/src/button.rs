//! What the inspector records of a button, and how each of the button's
//! builder methods changes it.
use vstd::prelude::*;

use crate::inspector::{Properties, PropertiesView};
use crate::location::Location;

verus! {

/// How a widget fills space along one axis. A fixed length is the bit pattern
/// of the `f32` number of pixels.
#[derive(Clone, Copy, Debug, PartialEq, Eq, Structural)]
pub enum Length {
    Fill,
    FillPortion(u16),
    Shrink,
    Fixed(u32),
}

/// The width and height of a widget.
#[derive(Clone, Copy, Debug, PartialEq, Eq, Structural)]
pub struct Dimensions {
    pub width: Length,
    pub height: Length,
}

/// Space around the content of a widget; each side is the bit pattern of an
/// `f32` number of pixels.
#[derive(Clone, Copy, Debug, PartialEq, Eq, Structural)]
pub struct Padding {
    pub top: u32,
    pub right: u32,
    pub bottom: u32,
    pub left: u32,
}

/// The bit pattern of `5.0_f32`.
pub const FIVE_PIXELS: u32 = 0x40a0_0000;

/// The bit pattern of `10.0_f32`.
pub const TEN_PIXELS: u32 = 0x4120_0000;

/// The padding a button starts with: 5 pixels above and below, 10 on each side.
pub open spec fn default_padding() -> Padding {
    Padding { top: FIVE_PIXELS, right: TEN_PIXELS, bottom: FIVE_PIXELS, left: TEN_PIXELS }
}

/// A message handler of a widget: its name, and the message it produces as
/// debug text.
#[derive(Debug)]
pub struct Handler {
    pub name: String,
    pub message: String,
}

pub struct HandlerView {
    pub name: Seq<char>,
    pub message: Seq<char>,
}

impl View for Handler {
    type V = HandlerView;

    open spec fn view(&self) -> HandlerView {
        HandlerView { name: self.name@, message: self.message@ }
    }
}

impl Clone for Handler {
    fn clone(&self) -> (r: Self)
        ensures
            r == *self,
    {
        Handler { name: self.name.clone(), message: self.message.clone() }
    }
}

pub open spec fn handlers_view(handlers: Seq<Handler>) -> Seq<HandlerView> {
    handlers.map_values(|h: Handler| h@)
}

/// `i` is the first position of a handler named `name`.
pub open spec fn is_first_named(handlers: Seq<HandlerView>, name: Seq<char>, i: int) -> bool {
    &&& 0 <= i < handlers.len()
    &&& handlers[i].name == name
    &&& forall|j: int| 0 <= j < i ==> handlers[j].name != name
}

/// The handlers after setting the one named `name` to produce `message`: the
/// handler of that name, if there is one, gets the new message in place;
/// otherwise a handler is added at the end.
pub open spec fn with_handler(
    handlers: Seq<HandlerView>,
    name: Seq<char>,
    message: Seq<char>,
) -> Seq<HandlerView> {
    if exists|i: int| is_first_named(handlers, name, i) {
        handlers.update(
            choose|i: int| is_first_named(handlers, name, i),
            HandlerView { name, message },
        )
    } else {
        handlers.push(HandlerView { name, message })
    }
}

/// No two handlers share a name.
pub open spec fn distinct_names(handlers: Seq<HandlerView>) -> bool {
    forall|i: int, j: int|
        0 <= i < handlers.len() && 0 <= j < handlers.len() && i != j ==> handlers[i].name
            != handlers[j].name
}

/// Sets the handler named `name` to produce `message`.
fn set_handler(handlers: &mut Vec<Handler>, name: String, message: String)
    ensures
        handlers_view(final(handlers)@) == with_handler(
            handlers_view(old(handlers)@),
            name@,
            message@,
        ),
{
    let ghost hv = handlers_view(handlers@);
    let mut i: usize = 0;
    while i < handlers.len()
        invariant
            i <= handlers.len(),
            hv == handlers_view(handlers@),
            hv == handlers_view(old(handlers)@),
            forall|j: int| 0 <= j < i ==> hv[j].name != name@,
        decreases handlers.len() - i,
    {
        if handlers[i].name == name {
            proof {
                assert(is_first_named(hv, name@, i as int));
                assert forall|k: int| #[trigger] is_first_named(hv, name@, k) implies k == i by {
                    if k < i {
                    } else if k > i {
                        assert(hv[i as int].name == name@);
                    }
                }
            }
            handlers.set(i, Handler { name, message });
            assert(handlers_view(handlers@) =~= with_handler(hv, name@, message@));
            return ;
        }
        i += 1;
    }
    proof {
        assert forall|k: int| !is_first_named(hv, name@, k) by {
            if 0 <= k < hv.len() {
                assert(hv[k].name != name@);
            }
        }
    }
    handlers.push(Handler { name, message });
    assert(handlers_view(handlers@) =~= with_handler(hv, name@, message@));
}

/// Setting a handler keeps the names of the handlers distinct.
pub proof fn lemma_with_handler_keeps_names_distinct(
    handlers: Seq<HandlerView>,
    name: Seq<char>,
    message: Seq<char>,
)
    requires
        distinct_names(handlers),
    ensures
        distinct_names(with_handler(handlers, name, message)),
{
    let r = with_handler(handlers, name, message);
    if exists|i: int| is_first_named(handlers, name, i) {
        let k = choose|i: int| is_first_named(handlers, name, i);
        assert forall|i: int, j: int|
            0 <= i < r.len() && 0 <= j < r.len() && i != j implies r[i].name != r[j].name by {
            if i == k {
                assert(handlers[j].name != handlers[k].name);
            } else if j == k {
                assert(handlers[i].name != handlers[k].name);
            }
        }
    } else {
        assert forall|i: int, j: int|
            0 <= i < r.len() && 0 <= j < r.len() && i != j implies r[i].name != r[j].name by {
            if i == handlers.len() {
                if handlers[j].name == name {
                    assert(is_first_named(handlers, name, j));
                }
            } else if j == handlers.len() {
                if handlers[i].name == name {
                    assert(is_first_named(handlers, name, i));
                }
            }
        }
    }
}

/// Setting the handler named `name` keeps every other handler where it was,
/// with its message: the handlers keep their positions, the one named `name`
/// alone gets `message`, and one handler is added at the end exactly when none
/// was named `name`.
pub proof fn lemma_with_handler_keeps_others(
    handlers: Seq<HandlerView>,
    name: Seq<char>,
    message: Seq<char>,
)
    ensures
        (exists|i: int| 0 <= i < handlers.len() && #[trigger] handlers[i].name == name) ==> with_handler(
            handlers,
            name,
            message,
        ).len() == handlers.len(),
        !(exists|i: int| 0 <= i < handlers.len() && #[trigger] handlers[i].name == name) ==> {
            &&& with_handler(handlers, name, message).len() == handlers.len() + 1
            &&& with_handler(handlers, name, message)[handlers.len() as int] == (HandlerView {
                name,
                message,
            })
        },
        forall|i: int|
            0 <= i < handlers.len() && #[trigger] handlers[i].name != name ==> with_handler(
                handlers,
                name,
                message,
            )[i] == handlers[i],
        forall|i: int|
            0 <= i < with_handler(handlers, name, message).len() ==> (#[trigger] with_handler(
                handlers,
                name,
                message,
            )[i].name == name <==> (i < handlers.len() && handlers[i].name == name) || i
                == handlers.len()),
{
    let r = with_handler(handlers, name, message);
    if exists|i: int| 0 <= i < handlers.len() && #[trigger] handlers[i].name == name {
        lemma_first_named_exists(handlers, name);
        let k = choose|i: int| is_first_named(handlers, name, i);
        assert(r == handlers.update(k, HandlerView { name, message }));
    } else {
        assert forall|k: int| !is_first_named(handlers, name, k) by {
            if 0 <= k < handlers.len() {
                assert(handlers[k].name != name);
            }
        }
        assert(r == handlers.push(HandlerView { name, message }));
    }
}

/// Some handler named `name` is the first one so named.
proof fn lemma_first_named_exists(handlers: Seq<HandlerView>, name: Seq<char>)
    requires
        exists|i: int| 0 <= i < handlers.len() && #[trigger] handlers[i].name == name,
    ensures
        exists|i: int| is_first_named(handlers, name, i),
    decreases handlers.len(),
{
    let n = handlers.len() - 1;
    if handlers[n].name == name && forall|j: int| 0 <= j < n ==> handlers[j].name != name {
        assert(is_first_named(handlers, name, n));
    } else {
        let rest = handlers.drop_last();
        if handlers[n].name != name {
            let i = choose|i: int| 0 <= i < handlers.len() && #[trigger] handlers[i].name == name;
            assert(rest[i].name == name);
        } else {
            let j = choose|j: int| 0 <= j < n && handlers[j].name == name;
            assert(rest[j].name == name);
        }
        lemma_first_named_exists(rest, name);
        let i = choose|i: int| is_first_named(rest, name, i);
        assert(rest[i] == handlers[i]);
        assert forall|j: int| 0 <= j < i implies handlers[j].name != name by {
            assert(rest[j] == handlers[j]);
        }
        assert(is_first_named(handlers, name, i));
    }
}

/// After setting the handler named `name`, exactly one handler has that name,
/// and it produces `message`.
pub proof fn lemma_with_handler_sets(
    handlers: Seq<HandlerView>,
    name: Seq<char>,
    message: Seq<char>,
)
    requires
        distinct_names(handlers),
    ensures
        exists|i: int|
            0 <= i < with_handler(handlers, name, message).len() && #[trigger] with_handler(
                handlers,
                name,
                message,
            )[i] == (HandlerView { name, message }),
        forall|i: int, j: int|
            0 <= i < with_handler(handlers, name, message).len() && 0 <= j < with_handler(
                handlers,
                name,
                message,
            ).len() && #[trigger] with_handler(handlers, name, message)[i].name == name
                && #[trigger] with_handler(handlers, name, message)[j].name == name ==> i == j,
{
    lemma_with_handler_keeps_names_distinct(handlers, name, message);
    let r = with_handler(handlers, name, message);
    if exists|i: int| is_first_named(handlers, name, i) {
        let k = choose|i: int| is_first_named(handlers, name, i);
        assert(r[k] == HandlerView { name, message });
    } else {
        assert(r[handlers.len() as int] == HandlerView { name, message });
    }
}

impl Properties {
    /// The properties of a new button laid out with `size`, created at
    /// `location`: named "Button", with the default padding, no handlers, and
    /// clipping off.
    pub fn button(location: Location, size: Dimensions) -> (p: Properties)
        ensures
            p@ == (PropertiesView {
                name: "Button"@,
                location: location@,
                padding: Some(default_padding()),
                size,
                handlers: Seq::empty(),
                clip: Some(false),
            }),
    {
        let p = Properties {
            name: "Button".to_owned(),
            location,
            padding: Some(
                Padding { top: FIVE_PIXELS, right: TEN_PIXELS, bottom: FIVE_PIXELS, left: TEN_PIXELS },
            ),
            size,
            handlers: Vec::new(),
            clip: Some(false),
        };
        assert(handlers_view(p.handlers@) =~= Seq::empty());
        p
    }

    /// Sets the width.
    pub fn width(self, width: Length) -> (r: Self)
        ensures
            r@ == (PropertiesView { size: Dimensions { width, ..self@.size }, ..self@ }),
    {
        let mut r = self;
        r.size.width = width;
        r
    }

    /// Sets the height.
    pub fn height(self, height: Length) -> (r: Self)
        ensures
            r@ == (PropertiesView { size: Dimensions { height, ..self@.size }, ..self@ }),
    {
        let mut r = self;
        r.size.height = height;
        r
    }

    /// Sets the padding.
    pub fn padding(self, padding: Padding) -> (r: Self)
        ensures
            r@ == (PropertiesView { padding: Some(padding), ..self@ }),
    {
        let mut r = self;
        r.padding = Some(padding);
        r
    }

    /// Records the message produced on a press.
    pub fn on_press(self, message: String) -> (r: Self)
        ensures
            r@ == (PropertiesView {
                handlers: with_handler(self@.handlers, "on_press"@, message@),
                ..self@
            }),
    {
        let mut r = self;
        set_handler(&mut r.handlers, "on_press".to_owned(), message);
        r
    }

    /// Records that a press produces a message made by a function. The
    /// function is called only when the button is pressed, so no message text
    /// is known: the handler's text is empty.
    pub fn on_press_with(self) -> (r: Self)
        ensures
            r@ == (PropertiesView {
                handlers: with_handler(self@.handlers, "on_press_with"@, Seq::empty()),
                ..self@
            }),
    {
        let mut r = self;
        let message = String::new();
        set_handler(&mut r.handlers, "on_press_with".to_owned(), message);
        r
    }

    /// Records the optional message produced on a press.
    pub fn on_press_maybe(self, message: String) -> (r: Self)
        ensures
            r@ == (PropertiesView {
                handlers: with_handler(self@.handlers, "on_press_maybe"@, message@),
                ..self@
            }),
    {
        let mut r = self;
        set_handler(&mut r.handlers, "on_press_maybe".to_owned(), message);
        r
    }

    /// Sets whether the content is clipped.
    pub fn clip(self, clip: bool) -> (r: Self)
        ensures
            r@ == (PropertiesView { clip: Some(clip), ..self@ }),
    {
        let mut r = self;
        r.clip = Some(clip);
        r
    }
}

} // verus!
