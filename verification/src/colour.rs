use vstd::prelude::*;

verus! {

/// An 8-bit RGB colour with no alpha channel. Equality is exact channel
/// equality.
#[derive(Copy, Clone, Debug, PartialEq, Eq, Structural)]
pub struct Colour {
    pub r: u8,
    pub g: u8,
    pub b: u8,
}

impl Colour {
    pub fn new(r: u8, g: u8, b: u8) -> (c: Colour)
        ensures
            c == (Colour { r, g, b }),
    {
        Colour { r, g, b }
    }

    /// The default-initialised table entry: black.
    pub open spec fn black_spec() -> Colour {
        Colour { r: 0, g: 0, b: 0 }
    }

    pub fn black() -> (c: Colour)
        ensures
            c == Colour::black_spec(),
    {
        Colour { r: 0, g: 0, b: 0 }
    }
}

} // verus!
