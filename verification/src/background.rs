//! The background that is drawn before anything else.

use vstd::prelude::*;
use crate::geometry::Color;

verus! {

/// A background of one colour.
pub struct Background {
    color: Color,
}

/// The frame after every whole pixel of it got `color`. Bytes after the last
/// whole pixel stay.
pub open spec fn filled(frame: Seq<u8>, color: Seq<u8>) -> Seq<u8> {
    Seq::new(
        frame.len(),
        |i: int|
            if i < (frame.len() / 4) * 4 {
                color[i % 4]
            } else {
                frame[i]
            },
    )
}

impl Background {
    /// The colour of the background.
    pub closed spec fn color_spec(self) -> Color {
        self.color
    }

    /// A background of the given colour.
    pub fn new(color: Color) -> (background: Self)
        ensures
            background.color_spec() == color,
    {
        Self { color }
    }

    /// Gives every whole pixel of the frame the colour of the background.
    pub fn draw(&self, frame: &mut [u8], _width: u16, _height: u16)
        ensures
            final(frame)@ == filled(old(frame)@, self.color_spec().bytes()),
    {
        let color = self.color.to_color_array();
        let whole: usize = frame.len() / 4 * 4;
        let mut i: usize = 0;
        while i < whole
            invariant
                i <= whole,
                whole == (old(frame)@.len() / 4) * 4,
                frame@.len() == old(frame)@.len(),
                color@ == self.color.bytes(),
                forall|j: int|
                    0 <= j < frame@.len() ==> frame@[j] == if j < i {
                        color@[j % 4]
                    } else {
                        old(frame)@[j]
                    },
            decreases whole - i,
        {
            frame[i] = color[i % 4];
            i += 1;
        }
        assert(frame@ =~= filled(old(frame)@, self.color_spec().bytes()));
    }
}

} // verus!
