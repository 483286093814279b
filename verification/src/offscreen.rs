//! When the offscreen pipeline must make a new source texture.
use vstd::prelude::*;

verus! {

/// The source texture an offscreen pass renders from, by its size: none
/// before the first frame is prepared.
pub struct SourceTexture {
    size: Option<(u32, u32)>,
}

impl View for SourceTexture {
    type V = Option<(u32, u32)>;

    closed spec fn view(&self) -> Option<(u32, u32)> {
        self.size
    }
}

/// A texture is made anew when there is none, or when the one there is does
/// not have the frame's size.
pub open spec fn needs_new_texture(current: Option<(u32, u32)>, width: u32, height: u32) -> bool {
    match current {
        None => true,
        Some((w, h)) => w != width || h != height,
    }
}

impl SourceTexture {
    /// No texture yet.
    pub fn new() -> (r: Self)
        ensures
            r@ is None,
    {
        SourceTexture { size: None }
    }

    /// Prepares for a frame of `width` by `height` pixels: returns whether a
    /// new texture of the frame's size has to be made. Afterwards the texture
    /// has the frame's size.
    pub fn prepare(&mut self, width: u32, height: u32) -> (recreate: bool)
        ensures
            recreate == needs_new_texture(old(self)@, width, height),
            recreate == (old(self)@ != Some((width, height))),
            final(self)@ == Some((width, height)),
    {
        let recreate = match self.size {
            None => true,
            Some((w, h)) => w != width || h != height,
        };
        if recreate {
            self.size = Some((width, height));
        }
        recreate
    }

    /// The size of the texture, if one was made.
    pub fn size(&self) -> (r: Option<(u32, u32)>)
        ensures
            r == self@,
    {
        self.size
    }
}

/// A new texture is needed exactly when there is none or the one there has
/// another size than the frame.
pub proof fn lemma_new_texture_iff_size_differs(current: Option<(u32, u32)>, width: u32, height: u32)
    ensures
        needs_new_texture(current, width, height) == (current != Some((width, height))),
        needs_new_texture(current, width, height) <==> (current is None || (current matches Some(
            (w, h),
        ) && (w != width || h != height))),
{
}

/// Preparing twice for frames of the same size makes a texture at most once.
pub proof fn lemma_prepare_same_size_once(current: Option<(u32, u32)>, width: u32, height: u32)
    ensures
        !needs_new_texture(Some((width, height)), width, height),
{
}

} // verus!
