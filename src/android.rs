//! Tap positions of the 4x4 puzzle on a device.

use vstd::prelude::*;

use crate::puzzle::{poke_number, BoardPoke};

verus! {

/// A point to tap on the device, in pixels.
#[derive(Debug, Clone, Copy, PartialEq, Eq, Structural)]
pub struct TapPosition {
    pub x: i32,
    pub y: i32,
}

/// Where the 4x4 board and the claim button are on the device.
#[derive(Debug, Clone, Copy, PartialEq, Eq, Structural)]
pub struct TapperConfig {
    pub top_left_arrow: TapPosition,
    pub claim_button: TapPosition,
    pub arrow_diameter: i32,
}

impl TapperConfig {
    /// Where to tap for the poke `p`.
    pub fn arrow_position(&self, p: &BoardPoke) -> (r: TapPosition)
        requires
            0 <= self.arrow_diameter,
            3 * self.arrow_diameter <= i32::MAX,
            self.top_left_arrow.x + 3 * self.arrow_diameter <= i32::MAX,
            self.top_left_arrow.y + 3 * self.arrow_diameter <= i32::MAX,
        ensures
            r.x == self.arrow_diameter * poke_number(p.0) + self.top_left_arrow.x,
            r.y == self.arrow_diameter * poke_number(p.1) + self.top_left_arrow.y,
    {
        let x: i32 = u8::from(p.0) as i32;
        let y: i32 = u8::from(p.1) as i32;
        proof {
            assert(0 <= self.arrow_diameter * x <= 3 * self.arrow_diameter) by (nonlinear_arith)
                requires
                    0 <= x <= 3,
                    0 <= self.arrow_diameter,
            ;
            assert(0 <= self.arrow_diameter * y <= 3 * self.arrow_diameter) by (nonlinear_arith)
                requires
                    0 <= y <= 3,
                    0 <= self.arrow_diameter,
            ;
        }
        TapPosition {
            x: self.arrow_diameter * x + self.top_left_arrow.x,
            y: self.arrow_diameter * y + self.top_left_arrow.y,
        }
    }
}

} // verus!
