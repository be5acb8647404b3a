//! The records that flow through the pipeline: coded units going in, decoded
//! pictures coming out, and the slot that pairs a picture with the time at
//! which it is to be shown.

use vstd::prelude::*;

verus! {

/// One compressed picture's worth of bytes in decoder-ready form, with its
/// timing. Units arrive in decode order.
///
/// A unit can only be built when its presentation time fits in an `i64`, so
/// every unit in circulation has one.
#[derive(Debug, PartialEq, Eq)]
pub struct CodedAccessUnit {
    decode_time: u64,
    duration: u32,
    rendering_offset: i32,
    payload: Vec<u8>,
}

impl CodedAccessUnit {
    #[verifier::type_invariant]
    spec fn representable(self) -> bool {
        self.decode_time + self.rendering_offset <= i64::MAX
    }

    /// Decode timestamp of the unit.
    pub closed spec fn spec_decode_time(&self) -> u64 {
        self.decode_time
    }

    /// Duration of the unit.
    pub closed spec fn spec_duration(&self) -> u32 {
        self.duration
    }

    /// Signed distance from decode time to presentation time.
    pub closed spec fn spec_rendering_offset(&self) -> i32 {
        self.rendering_offset
    }

    /// The coded bytes.
    pub closed spec fn spec_payload(&self) -> Seq<u8> {
        self.payload@
    }

    /// Presentation time of the unit: decode time plus rendering offset.
    pub open spec fn spec_presentation_time(&self) -> int {
        self.spec_decode_time() + self.spec_rendering_offset()
    }

    /// Builds a unit, or nothing when its presentation time would not fit in
    /// an `i64`.
    pub fn new(decode_time: u64, duration: u32, rendering_offset: i32, payload: Vec<u8>) -> (unit:
        Option<Self>)
        ensures
            unit is Some <==> decode_time + rendering_offset <= i64::MAX,
            unit matches Some(u) ==> {
                &&& u.spec_decode_time() == decode_time
                &&& u.spec_duration() == duration
                &&& u.spec_rendering_offset() == rendering_offset
                &&& u.spec_payload() == payload@
            },
    {
        if decode_time as i128 + rendering_offset as i128 <= i64::MAX as i128 {
            Some(CodedAccessUnit { decode_time, duration, rendering_offset, payload })
        } else {
            None
        }
    }

    #[verifier::when_used_as_spec(spec_decode_time)]
    pub fn decode_time(&self) -> (t: u64)
        ensures
            t == self.spec_decode_time(),
    {
        self.decode_time
    }

    #[verifier::when_used_as_spec(spec_duration)]
    pub fn duration(&self) -> (d: u32)
        ensures
            d == self.spec_duration(),
    {
        self.duration
    }

    #[verifier::when_used_as_spec(spec_rendering_offset)]
    pub fn rendering_offset(&self) -> (o: i32)
        ensures
            o == self.spec_rendering_offset(),
    {
        self.rendering_offset
    }

    /// The coded bytes, as handed to the decoder.
    pub fn payload(&self) -> (bytes: &Vec<u8>)
        ensures
            bytes@ == self.spec_payload(),
    {
        &self.payload
    }

    /// Presentation time of the unit. It may be negative, and it need not
    /// grow from one unit to the next.
    pub fn presentation_time(&self) -> (t: i64)
        ensures
            t == self.spec_presentation_time(),
    {
        proof {
            use_type_invariant(self);
        }
        (self.decode_time as i128 + self.rendering_offset as i128) as i64
    }
}

/// One plane of a raw picture: rows of `width` samples, `stride` bytes apart.
#[derive(Debug, Clone, PartialEq, Eq)]
pub struct Plane {
    pub stride: usize,
    pub width: usize,
    pub height: usize,
    pub data: Vec<u8>,
}

/// A raw planar picture: luma and two chroma planes, each with its own stride
/// and dimensions. A picture is moved, never copied, on its way from the
/// decoder to the caller.
#[derive(Debug, Clone, PartialEq, Eq)]
pub struct DecodedPicture {
    pub y: Plane,
    pub u: Plane,
    pub v: Plane,
}

impl DecodedPicture {
    /// A picture from the strides, the dimensions (width, then height) and
    /// the bytes of its three planes.
    pub fn from_planes(
        strides: (usize, usize, usize),
        y_dim: (usize, usize),
        u_dim: (usize, usize),
        v_dim: (usize, usize),
        y: Vec<u8>,
        u: Vec<u8>,
        v: Vec<u8>,
    ) -> (picture: Self)
        ensures
            picture == (DecodedPicture {
                y: Plane { stride: strides.0, width: y_dim.0, height: y_dim.1, data: y },
                u: Plane { stride: strides.1, width: u_dim.0, height: u_dim.1, data: u },
                v: Plane { stride: strides.2, width: v_dim.0, height: v_dim.1, data: v },
            }),
    {
        DecodedPicture {
            y: Plane { stride: strides.0, width: y_dim.0, height: y_dim.1, data: y },
            u: Plane { stride: strides.1, width: u_dim.0, height: u_dim.1, data: u },
            v: Plane { stride: strides.2, width: v_dim.0, height: v_dim.1, data: v },
        }
    }
}

/// A decoded picture together with its presentation time, the key by which
/// slots are ordered.
#[derive(Debug, Clone, PartialEq, Eq)]
pub struct ReorderSlot {
    pub presentation_time: i64,
    pub picture: DecodedPicture,
}

/// What the decoder made of one coded unit.
#[derive(Debug, Clone, PartialEq, Eq)]
pub enum DecodeOutcome {
    /// The unit completed a picture.
    Picture(DecodedPicture),
    /// The unit was consumed without completing a picture, as during warm-up.
    NoPicture,
    /// The unit could not be decoded; the decoder remains usable.
    Failed,
    /// The decoder is beyond recovery.
    Fatal,
}

} // verus!
