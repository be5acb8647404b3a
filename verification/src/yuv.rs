//! Planar YUV frames as a renderer takes them. A frame arrives in one of the
//! supported formats and is brought into planar form: luma first, then the
//! two chroma planes.

use crate::picture::DecodedPicture;
use itertools::{Either, Itertools};
use vstd::prelude::*;

verus! {

/// Supported YUV formats.
#[derive(Clone, Copy, Debug, PartialEq, Eq, Structural)]
pub enum Format {
    /// Planar, chroma at half resolution in both directions.
    I420,
    /// Planar, chroma at full resolution.
    Y444,
    /// Luma plane followed by interleaved chroma at half resolution.
    NV12,
}

/// A width and a height.
#[derive(Debug, Clone, Copy, PartialEq, Eq)]
pub struct Size<T> {
    pub width: T,
    pub height: T,
}

impl From<(u32, u32)> for Size<u32> {
    fn from(value: (u32, u32)) -> (size: Self) {
        Size { width: value.0, height: value.1 }
    }
}

impl vstd::std_specs::convert::FromSpecImpl<(u32, u32)> for Size<u32> {
    open spec fn obeys_from_spec() -> bool {
        true
    }

    open spec fn from_spec(value: (u32, u32)) -> Self {
        Size { width: value.0, height: value.1 }
    }
}

/// A frame as it arrives: its bytes, their format and the picture's size.
#[derive(Debug, Clone)]
pub struct Yuv {
    pub format: Format,
    pub data: Vec<u8>,
    pub dimensions: Size<u32>,
}

impl Yuv {
    /// The frame that a decoded picture makes: an I420 frame of the luma
    /// plane's dimensions, cut to 32 bits, whose bytes are the three planes
    /// one after the other, strides included.
    pub fn from(picture: DecodedPicture) -> (yuv: Self)
        ensures
            yuv.format == Format::I420,
            yuv.dimensions == (Size {
                width: picture.y.width as u32,
                height: picture.y.height as u32,
            }),
            yuv.data@ == picture.y.data@ + picture.u.data@ + picture.v.data@,
    {
        let DecodedPicture { y, u, v } = picture;
        let mut data = y.data;
        let mut u_data = u.data;
        let mut v_data = v.data;
        data.append(&mut u_data);
        data.append(&mut v_data);
        Yuv {
            format: Format::I420,
            dimensions: Size {
                width: #[verifier::truncate]
                (y.width as u32),
                height: #[verifier::truncate]
                (y.height as u32),
            },
            data,
        }
    }
}

/// The bytes at the even positions of `s`, in order.
pub open spec fn evens(s: Seq<u8>) -> Seq<u8> {
    Seq::new(((s.len() + 1) / 2) as nat, |j: int| s[2 * j])
}

/// The bytes at the odd positions of `s`, in order.
pub open spec fn odds(s: Seq<u8>) -> Seq<u8> {
    Seq::new((s.len() / 2) as nat, |j: int| s[2 * j + 1])
}

/// The planar form of an NV12 frame. Of every six bytes four are luma; the
/// luma stays in front, and what follows it is taken apart into the bytes at
/// even positions (U) and those at odd positions (V).
pub open spec fn planar_of_nv12(data: Seq<u8>) -> Seq<u8> {
    let luma = data.len() / 6 * 4;
    let chroma = data.subrange(luma as int, data.len() as int);
    data.subrange(0, luma as int) + evens(chroma) + odds(chroma)
}

/// The plane to which the byte at position `i` of interleaved chroma goes:
/// `Err` carries it to the first plane (U), `Ok` to the second (V).
pub open spec fn spec_chroma_plane(i: usize, byte: u8) -> Result<u8, u8> {
    if i % 2 == 0 {
        Err(byte)
    } else {
        Ok(byte)
    }
}

#[verifier::when_used_as_spec(spec_chroma_plane)]
pub fn chroma_plane(i: usize, byte: u8) -> (plane: Result<u8, u8>)
    ensures
        plane == spec_chroma_plane(i, byte),
{
    if i % 2 == 0 {
        Err(byte)
    } else {
        Ok(byte)
    }
}

/// What `chroma_plane` sends to one plane, the second or the first, when it
/// is asked about each byte of `chroma` in turn.
pub open spec fn routed(chroma: Seq<u8>, second: bool) -> Seq<u8>
    decreases chroma.len(),
{
    if chroma.len() == 0 {
        Seq::empty()
    } else {
        let before = routed(chroma.drop_last(), second);
        match spec_chroma_plane((chroma.len() - 1) as usize, chroma.last()) {
            Err(byte) => if second {
                before
            } else {
                before.push(byte)
            },
            Ok(byte) => if second {
                before.push(byte)
            } else {
                before
            },
        }
    }
}

/// Takes interleaved chroma apart with `Itertools::partition_map`.
///
/// The bytes are numbered from zero by `Iterator::enumerate`, and the closure
/// handed to `partition_map` asks `chroma_plane` about each and turns the
/// answer into an `Either` with `Either::from`, which maps `Err` to `Left`
/// and `Ok` to `Right`. Believed, not proved: `partition_map` visits the
/// bytes in order and appends what `Left` carries to the first vector and
/// what `Right` carries to the second.
#[verifier::external_body]
fn partition_chroma(chroma: Vec<u8>) -> (planes: (Vec<u8>, Vec<u8>))
    ensures
        planes.0@ == routed(chroma@, false),
        planes.1@ == routed(chroma@, true),
{
    chroma.into_iter().enumerate().partition_map(|(i, byte)| Either::from(chroma_plane(i, byte)))
}

/// Routing by `chroma_plane` sends the even positions to the first plane and
/// the odd positions to the second.
pub proof fn lemma_routed_by_parity(chroma: Seq<u8>)
    requires
        chroma.len() <= usize::MAX,
    ensures
        routed(chroma, false) == evens(chroma),
        routed(chroma, true) == odds(chroma),
    decreases chroma.len(),
{
    if chroma.len() > 0 {
        let before = chroma.drop_last();
        lemma_routed_by_parity(before);
        assert forall|j: int| 0 <= j < before.len() implies before[j] == chroma[j] by {}
        assert(routed(chroma, false) =~= evens(chroma));
        assert(routed(chroma, true) =~= odds(chroma));
    } else {
        assert(routed(chroma, false) =~= evens(chroma));
        assert(routed(chroma, true) =~= odds(chroma));
    }
}

/// A frame in planar form, ready for rendering.
#[derive(Debug)]
pub enum Renderable {
    /// Full-resolution chroma: three planes of one third of the bytes each.
    Y444 { data: Vec<u8>, dimensions: Size<u32> },
    /// Half-resolution chroma: of every six bytes four are luma, then one of
    /// each chroma plane.
    I420 { data: Vec<u8>, dimensions: Size<u32> },
}

impl Renderable {
    /// All bytes of the frame, plane after plane.
    pub open spec fn bytes(&self) -> Seq<u8> {
        match *self {
            Renderable::Y444 { data, .. } => data@,
            Renderable::I420 { data, .. } => data@,
        }
    }

    pub open spec fn spec_dimensions(&self) -> Size<u32> {
        match *self {
            Renderable::Y444 { dimensions, .. } => dimensions,
            Renderable::I420 { dimensions, .. } => dimensions,
        }
    }

    /// Where the luma plane ends and the first chroma plane begins.
    pub open spec fn luma_end(&self) -> int {
        match *self {
            Renderable::Y444 { data, .. } => data@.len() as int / 3,
            Renderable::I420 { data, .. } => data@.len() as int / 6 * 4,
        }
    }

    /// Where the first chroma plane ends and the second begins.
    pub open spec fn chroma_split(&self) -> int {
        match *self {
            Renderable::Y444 { data, .. } => data@.len() as int / 3 * 2,
            Renderable::I420 { data, .. } => data@.len() as int / 6 * 5,
        }
    }

    /// How many luma samples there are per chroma sample along each axis.
    pub open spec fn spec_downsampling_factor(&self) -> u32 {
        match *self {
            Renderable::Y444 { .. } => 1,
            Renderable::I420 { .. } => 2,
        }
    }

    /// `self` is what `yuv` becomes in planar form: Y444 stays Y444, I420
    /// stays I420, both with their bytes untouched, and NV12 becomes I420
    /// with its chroma taken apart.
    pub open spec fn renders(&self, yuv: Yuv) -> bool {
        match yuv.format {
            Format::I420 => *self == (Renderable::I420 {
                data: yuv.data,
                dimensions: yuv.dimensions,
            }),
            Format::Y444 => *self == (Renderable::Y444 {
                data: yuv.data,
                dimensions: yuv.dimensions,
            }),
            Format::NV12 => {
                &&& *self is I420
                &&& self.spec_dimensions() == yuv.dimensions
                &&& self.bytes() == planar_of_nv12(yuv.data@)
            },
        }
    }

    /// Brings a frame into planar form.
    pub fn from(yuv: Yuv) -> (renderable: Self)
        ensures
            renderable.renders(yuv),
    {
        let Yuv { format, data, dimensions } = yuv;
        match format {
            Format::I420 => Renderable::I420 { data, dimensions },
            Format::Y444 => Renderable::Y444 { data, dimensions },
            Format::NV12 => {
                let mut data = data;
                let n: usize = data.len() / 6;
                let chroma = data.split_off(n * 4);
                proof {
                    lemma_routed_by_parity(chroma@);
                }
                let (mut u, mut v) = partition_chroma(chroma);
                data.append(&mut u);
                data.append(&mut v);
                Renderable::I420 { data, dimensions }
            },
        }
    }

    #[verifier::when_used_as_spec(spec_dimensions)]
    pub fn dimensions(&self) -> (size: Size<u32>)
        ensures
            size == self.spec_dimensions(),
    {
        match self {
            Renderable::I420 { dimensions, .. } => *dimensions,
            Renderable::Y444 { dimensions, .. } => *dimensions,
        }
    }

    /// The luma plane.
    pub fn y(&self) -> (plane: &[u8])
        ensures
            plane@ == self.bytes().subrange(0, self.luma_end()),
    {
        match self {
            Renderable::I420 { data, .. } => {
                let end: usize = data.len() / 6 * 4;
                &data.as_slice()[0..end]
            },
            Renderable::Y444 { data, .. } => {
                let end: usize = data.len() / 3;
                &data.as_slice()[0..end]
            },
        }
    }

    /// The first chroma plane.
    pub fn u(&self) -> (plane: &[u8])
        ensures
            plane@ == self.bytes().subrange(self.luma_end(), self.chroma_split()),
    {
        match self {
            Renderable::I420 { data, .. } => {
                let start: usize = data.len() / 6 * 4;
                let end: usize = data.len() / 6 * 5;
                &data.as_slice()[start..end]
            },
            Renderable::Y444 { data, .. } => {
                let start: usize = data.len() / 3;
                let end: usize = data.len() / 3 * 2;
                &data.as_slice()[start..end]
            },
        }
    }

    /// The second chroma plane: whatever follows the first.
    pub fn v(&self) -> (plane: &[u8])
        ensures
            plane@ == self.bytes().subrange(self.chroma_split(), self.bytes().len() as int),
    {
        match self {
            Renderable::I420 { data, .. } => {
                let start: usize = data.len() / 6 * 5;
                &data.as_slice()[start..data.len()]
            },
            Renderable::Y444 { data, .. } => {
                let start: usize = data.len() / 3 * 2;
                &data.as_slice()[start..data.len()]
            },
        }
    }

    /// Size of each chroma plane: the picture's size, divided along both
    /// axes by the downsampling factor.
    pub fn chroma_dimensions(&self) -> (size: Size<u32>)
        ensures
            size.width == self.spec_dimensions().width / self.spec_downsampling_factor(),
            size.height == self.spec_dimensions().height / self.spec_downsampling_factor(),
    {
        let dimensions = self.dimensions();
        let factor = self.downsampling_factor();
        Size { width: dimensions.width / factor, height: dimensions.height / factor }
    }

    /// How many luma samples there are per chroma sample along each axis:
    /// two for I420, one for Y444.
    #[verifier::when_used_as_spec(spec_downsampling_factor)]
    pub fn downsampling_factor(&self) -> (factor: u32)
        ensures
            factor == self.spec_downsampling_factor(),
    {
        match self {
            Renderable::I420 { .. } => 2,
            Renderable::Y444 { .. } => 1,
        }
    }
}

} // verus!
