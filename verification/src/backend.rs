//! The OpenGL backend: which of its renderers draws, and the default text
//! size.
use vstd::prelude::*;

verus! {

/// The renderer a backend draws with.
#[derive(Clone, Copy, Debug, PartialEq, Eq, Structural)]
pub enum Mode {
    Modern,
    Compatibility,
    Embedded,
}

/// A backend: the renderer it draws with and the text size it defaults to.
#[derive(Debug)]
pub struct Backend {
    mode: Mode,
    default_text_size: u16,
}

pub struct BackendView {
    pub mode: Mode,
    pub default_text_size: u16,
}

impl View for Backend {
    type V = BackendView;

    closed spec fn view(&self) -> BackendView {
        BackendView { mode: self.mode, default_text_size: self.default_text_size }
    }
}

impl Backend {
    /// A backend for the given default text size, drawing with the embedded
    /// renderer.
    pub fn new(default_text_size: u16) -> (b: Backend)
        ensures
            b@ == (BackendView { mode: Mode::Embedded, default_text_size }),
    {
        Backend { mode: Mode::Embedded, default_text_size }
    }

    /// The renderer every drawing, measuring and trimming call goes to.
    pub fn mode(&self) -> (m: Mode)
        ensures
            m == self@.mode,
    {
        self.mode
    }

    /// The text size used when none is given.
    pub fn default_size(&self) -> (s: u16)
        ensures
            s == self@.default_text_size,
    {
        self.default_text_size
    }
}

} // verus!
