use vstd::prelude::*;

verus! {

/// Three readings of one sensor channel. Each field holds the IEEE-754
/// single-precision bit pattern of the reading, so that the engine carries
/// readings through unchanged without ever doing float arithmetic.
#[derive(Clone, Copy, Debug, PartialEq, Eq, Structural)]
pub struct Axes {
    pub x: u32,
    pub y: u32,
    pub z: u32,
}

/// One timestamped reading of all three channels. `time` is the bit pattern
/// of the seconds elapsed since sampling started, as a single-precision float.
#[derive(Clone, Copy, Debug, PartialEq, Eq, Structural)]
pub struct Sample {
    pub time: u32,
    pub acceleration: Axes,
    pub gyroscope: Axes,
    pub magnetometer: Axes,
}

} // verus!
