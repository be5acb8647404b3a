//! The frame program: it holds the frame that is waiting to be uploaded, and
//! remembers what a renderer needs to know once the frame has been handed
//! over.

use crate::yuv::{Renderable, Size, Yuv};
use vstd::prelude::*;

verus! {

/// A frame source for a renderer. A new frame waits in it until the next
/// draw takes it; between frames the program still knows the picture size
/// and the chroma downsampling factor it was built with.
pub struct Program {
    dimensions: Size<u32>,
    sampling_factor: u32,
    data: Option<Renderable>,
}

/// What a draw hands to the renderer, for the area `bounds` it draws into.
#[derive(Debug)]
pub enum State<B> {
    /// A frame that has yet to be uploaded.
    Pending { yuv: Renderable, bounds: B },
    /// The frame is with the renderer; only its measures are kept.
    Prepared { image_dimensions: Size<u32>, sampling_factor: u32, bounds: B },
}

impl Program {
    /// Size of the picture the program was built with.
    pub closed spec fn dimensions(&self) -> Size<u32> {
        self.dimensions
    }

    /// Chroma downsampling factor of the frame the program was built with.
    pub closed spec fn sampling_factor(&self) -> u32 {
        self.sampling_factor
    }

    /// The frame that waits for the next draw, if any.
    pub closed spec fn pending(&self) -> Option<Renderable> {
        self.data
    }

    /// A program whose first frame is `yuv`, in planar form.
    pub fn new(yuv: Yuv) -> (program: Self)
        ensures
            program.pending() matches Some(frame) && frame.renders(yuv)
                && program.sampling_factor() == frame.spec_downsampling_factor(),
            program.dimensions() == yuv.dimensions,
    {
        let renderable = Renderable::from(yuv);
        Program {
            dimensions: renderable.dimensions(),
            sampling_factor: renderable.downsampling_factor(),
            data: Some(renderable),
        }
    }

    /// Replaces the waiting frame by `yuv`, in planar form. The size and the
    /// downsampling factor stay those of the first frame.
    pub fn update_frame(&mut self, yuv: Yuv)
        ensures
            final(self).pending() matches Some(frame) && frame.renders(yuv),
            final(self).dimensions() == old(self).dimensions(),
            final(self).sampling_factor() == old(self).sampling_factor(),
    {
        self.data = Some(Renderable::from(yuv));
    }

    /// Hands out the waiting frame, which then waits no longer; without one,
    /// the measures the program was built with.
    pub fn draw<B>(&mut self, bounds: B) -> (state: State<B>)
        ensures
            final(self).pending() is None,
            final(self).dimensions() == old(self).dimensions(),
            final(self).sampling_factor() == old(self).sampling_factor(),
            state == match old(self).pending() {
                Some(yuv) => State::Pending { yuv, bounds },
                None => State::Prepared {
                    image_dimensions: old(self).dimensions(),
                    sampling_factor: old(self).sampling_factor(),
                    bounds,
                },
            },
    {
        match self.data.take() {
            Some(yuv) => State::Pending { yuv, bounds },
            None => State::Prepared {
                bounds,
                image_dimensions: self.dimensions,
                sampling_factor: self.sampling_factor,
            },
        }
    }
}

impl<B: Copy> State<B> {
    pub open spec fn spec_bounds(&self) -> B {
        match *self {
            State::Pending { bounds, .. } => bounds,
            State::Prepared { bounds, .. } => bounds,
        }
    }

    pub open spec fn spec_image_dimensions(&self) -> Size<u32> {
        match *self {
            State::Pending { yuv, .. } => yuv.spec_dimensions(),
            State::Prepared { image_dimensions, .. } => image_dimensions,
        }
    }

    pub open spec fn spec_sampling_factor(&self) -> u32 {
        match *self {
            State::Pending { yuv, .. } => yuv.spec_downsampling_factor(),
            State::Prepared { sampling_factor, .. } => sampling_factor,
        }
    }

    /// The area drawn into.
    #[verifier::when_used_as_spec(spec_bounds)]
    pub fn bounds(&self) -> (bounds: B)
        ensures
            bounds == self.spec_bounds(),
    {
        match self {
            State::Pending { bounds, .. } => *bounds,
            State::Prepared { bounds, .. } => *bounds,
        }
    }

    /// Size of the picture: that of the frame while it is pending.
    #[verifier::when_used_as_spec(spec_image_dimensions)]
    pub fn image_dimensions(&self) -> (size: Size<u32>)
        ensures
            size == self.spec_image_dimensions(),
    {
        match self {
            State::Prepared { image_dimensions, .. } => *image_dimensions,
            State::Pending { yuv, .. } => yuv.dimensions(),
        }
    }

    /// Chroma downsampling factor: that of the frame while it is pending.
    #[verifier::when_used_as_spec(spec_sampling_factor)]
    pub fn sampling_factor(&self) -> (factor: u32)
        ensures
            factor == self.spec_sampling_factor(),
    {
        match self {
            State::Prepared { sampling_factor, .. } => *sampling_factor,
            State::Pending { yuv, .. } => yuv.downsampling_factor(),
        }
    }

    /// The state once the renderer has the frame: the same bounds and
    /// measures, the frame itself let go.
    pub fn prepared(self) -> (state: Self)
        ensures
            state == (State::Prepared {
                bounds: self.spec_bounds(),
                image_dimensions: self.spec_image_dimensions(),
                sampling_factor: self.spec_sampling_factor(),
            }),
    {
        State::Prepared {
            bounds: self.bounds(),
            image_dimensions: self.image_dimensions(),
            sampling_factor: self.sampling_factor(),
        }
    }
}

} // verus!
