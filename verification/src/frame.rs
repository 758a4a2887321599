//! Planar frames: one plane of luma and two of chroma, all of one shape.

use vstd::prelude::*;
use crate::color::{pixel_color, pixel_color_spec, Rgb};
use crate::error::ConfigurationError;

verus! {

/// A frame as a mathematical value: its shape and its three planes, each
/// laid out row after row.
pub struct FrameView {
    pub width: nat,
    pub height: nat,
    pub y: Seq<u8>,
    pub u: Seq<u8>,
    pub v: Seq<u8>,
}

impl FrameView {
    /// Each plane holds one sample for every position of the picture.
    pub open spec fn wf(self) -> bool {
        &&& self.y.len() == self.width * self.height
        &&& self.u.len() == self.width * self.height
        &&& self.v.len() == self.width * self.height
    }

    /// The number of samples of a plane.
    pub open spec fn len(self) -> nat {
        self.y.len()
    }

    /// The colour that the sample at position `i` of the planes is drawn with.
    pub open spec fn color_at(self, colored: bool, i: int) -> Rgb {
        let c = pixel_color_spec(colored, self.y[i] as int, self.u[i] as int, self.v[i] as int);
        Rgb { r: c.0 as u8, g: c.1 as u8, b: c.2 as u8 }
    }
}

/// A decoded frame in planar 4:4:4 layout with 8 bits per sample.
pub struct Frame {
    width: usize,
    height: usize,
    y: Vec<u8>,
    u: Vec<u8>,
    v: Vec<u8>,
}

impl View for Frame {
    type V = FrameView;

    closed spec fn view(&self) -> FrameView {
        FrameView {
            width: self.width as nat,
            height: self.height as nat,
            y: self.y@,
            u: self.u@,
            v: self.v@,
        }
    }
}

impl Frame {
    #[verifier::type_invariant]
    spec fn well_formed(self) -> bool {
        self@.wf()
    }

    /// A frame of `width` columns and `height` rows over the three planes,
    /// or `PlaneSize` where a plane has another number of samples.
    pub fn new(width: usize, height: usize, y: Vec<u8>, u: Vec<u8>, v: Vec<u8>) -> (frame: Result<
        Frame,
        ConfigurationError,
    >)
        ensures
            match frame {
                Ok(f) => {
                    &&& f@ == (FrameView {
                        width: width as nat,
                        height: height as nat,
                        y: y@,
                        u: u@,
                        v: v@,
                    })
                    &&& f@.wf()
                },
                Err(e) => {
                    &&& e == ConfigurationError::PlaneSize
                    &&& !(FrameView {
                        width: width as nat,
                        height: height as nat,
                        y: y@,
                        u: u@,
                        v: v@,
                    }).wf()
                },
            },
    {
        let given: usize = y.len();
        match width.checked_mul(height) {
            Some(samples) => {
                if given == samples && u.len() == samples && v.len() == samples {
                    Ok(Frame { width, height, y, u, v })
                } else {
                    Err(ConfigurationError::PlaneSize)
                }
            },
            None => Err(ConfigurationError::PlaneSize),
        }
    }

    /// The number of samples in a row.
    pub fn width(&self) -> (w: usize)
        ensures
            w == self@.width,
            self@.wf(),
    {
        proof {
            use_type_invariant(self);
        }
        self.width
    }

    /// The number of rows.
    pub fn height(&self) -> (h: usize)
        ensures
            h == self@.height,
            self@.wf(),
    {
        proof {
            use_type_invariant(self);
        }
        self.height
    }

    /// The number of samples of a plane.
    pub fn samples(&self) -> (n: usize)
        ensures
            n == self@.len(),
            self@.wf(),
    {
        proof {
            use_type_invariant(self);
        }
        self.y.len()
    }

    /// The luma of the sample at position `i`.
    pub fn luma(&self, i: usize) -> (y: u8)
        requires
            i < self@.len(),
        ensures
            y == self@.y[i as int],
    {
        self.y[i]
    }

    /// The colour that the sample at position `i` is drawn with.
    pub fn color(&self, colored: bool, i: usize) -> (c: Rgb)
        requires
            i < self@.len(),
        ensures
            c == self@.color_at(colored, i as int),
    {
        proof {
            use_type_invariant(self);
        }
        pixel_color(colored, self.y[i], self.u[i], self.v[i])
    }
}

} // verus!
