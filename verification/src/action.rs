//! Actions a command asks the runtime to perform, and changing the messages
//! they produce.
use vstd::prelude::*;

verus! {

/// An action: a future producing a message, a clipboard action, a window
/// action, or reading back a region of the framebuffer and turning the pixels
/// into a message.
pub enum Action<F, C, W, M> {
    Future(F),
    Clipboard(C),
    Window(W),
    ReadFramebuffer { x: u32, y: u32, width: u32, height: u32, message: M },
}

/// `r` is `a` with its future, clipboard action and message function related
/// to the originals by `on_future`, `on_clipboard` and `on_message`: the same
/// kind of action, the same window action, the same framebuffer region.
pub open spec fn maps_with<F, C, W, M, F2, C2, M2>(
    a: Action<F, C, W, M>,
    r: Action<F2, C2, W, M2>,
    on_future: spec_fn(F, F2) -> bool,
    on_clipboard: spec_fn(C, C2) -> bool,
    on_message: spec_fn(M, M2) -> bool,
) -> bool {
    match a {
        Action::Future(f) => r matches Action::Future(g) && on_future(f, g),
        Action::Clipboard(c) => r matches Action::Clipboard(d) && on_clipboard(c, d),
        Action::Window(w) => r matches Action::Window(v) && v == w,
        Action::ReadFramebuffer { x, y, width, height, message } => r matches Action::ReadFramebuffer {
            x: x2,
            y: y2,
            width: width2,
            height: height2,
            message: message2,
        } && x2 == x && y2 == y && width2 == width && height2 == height && on_message(
            message,
            message2,
        ),
    }
}

/// Relating by `p` and then by `q`.
pub open spec fn then_relate<A, B, C>(p: spec_fn(A, B) -> bool, q: spec_fn(B, C) -> bool) -> spec_fn(
    A,
    C,
) -> bool {
    |a: A, c: C| exists|b: B| #[trigger] p(a, b) && q(b, c)
}

impl<F, C, W, M> Action<F, C, W, M> {
    /// The same action producing other messages: the future, the clipboard
    /// action and the message function are each transformed by the matching
    /// function; a window action and the framebuffer region stay as they are.
    pub fn map<F2, C2, M2, TF, TC, TM>(self, on_future: TF, on_clipboard: TC, on_message: TM) -> (r:
        Action<F2, C2, W, M2>) where
        TF: FnOnce(F) -> F2,
        TC: FnOnce(C) -> C2,
        TM: FnOnce(M) -> M2,

        requires
            self matches Action::Future(f) ==> call_requires(on_future, (f,)),
            self matches Action::Clipboard(c) ==> call_requires(on_clipboard, (c,)),
            self matches Action::ReadFramebuffer { message, .. } ==> call_requires(
                on_message,
                (message,),
            ),
        ensures
            maps_with(
                self,
                r,
                |f: F, g: F2| call_ensures(on_future, (f,), g),
                |c: C, d: C2| call_ensures(on_clipboard, (c,), d),
                |m: M, n: M2| call_ensures(on_message, (m,), n),
            ),
    {
        match self {
            Action::Future(future) => Action::Future(on_future(future)),
            Action::Clipboard(action) => Action::Clipboard(on_clipboard(action)),
            Action::Window(window) => Action::Window(window),
            Action::ReadFramebuffer { x, y, width, height, message } => Action::ReadFramebuffer {
                x,
                y,
                width,
                height,
                message: on_message(message),
            },
        }
    }
}

/// Mapping with functions that give back what they are given gives back the
/// action.
pub proof fn lemma_map_identity<F, C, W, M>(
    a: Action<F, C, W, M>,
    r: Action<F, C, W, M>,
    on_future: spec_fn(F, F) -> bool,
    on_clipboard: spec_fn(C, C) -> bool,
    on_message: spec_fn(M, M) -> bool,
)
    requires
        forall|f: F, g: F| #[trigger] on_future(f, g) ==> g == f,
        forall|c: C, d: C| #[trigger] on_clipboard(c, d) ==> d == c,
        forall|m: M, n: M| #[trigger] on_message(m, n) ==> n == m,
        maps_with(a, r, on_future, on_clipboard, on_message),
    ensures
        r == a,
{
}

/// Mapping twice is mapping once with the two transformations one after the
/// other.
pub proof fn lemma_map_composition<F, C, W, M, F2, C2, M2, F3, C3, M3>(
    a: Action<F, C, W, M>,
    b: Action<F2, C2, W, M2>,
    c: Action<F3, C3, W, M3>,
    f1: spec_fn(F, F2) -> bool,
    c1: spec_fn(C, C2) -> bool,
    m1: spec_fn(M, M2) -> bool,
    f2: spec_fn(F2, F3) -> bool,
    c2: spec_fn(C2, C3) -> bool,
    m2: spec_fn(M2, M3) -> bool,
)
    requires
        maps_with(a, b, f1, c1, m1),
        maps_with(b, c, f2, c2, m2),
    ensures
        maps_with(a, c, then_relate(f1, f2), then_relate(c1, c2), then_relate(m1, m2)),
{
    match a {
        Action::Future(x) => {
            let y = b->Future_0;
            assert(f1(x, y) && f2(y, c->Future_0));
        },
        Action::Clipboard(x) => {
            let y = b->Clipboard_0;
            assert(c1(x, y) && c2(y, c->Clipboard_0));
        },
        Action::Window(_) => {},
        Action::ReadFramebuffer { message, .. } => {
            let y = b->message;
            assert(m1(message, y) && m2(y, c->message));
        },
    }
}

} // verus!
