//! Which pixel of a small picture gets which colour.

use vstd::prelude::*;

verus! {

/// A colour: red, green and blue.
#[derive(Clone, Copy, Debug, PartialEq, Eq, Structural)]
pub struct Colour {
    pub r: u8,
    pub g: u8,
    pub b: u8,
}

/// White.
pub fn white() -> (colour: Colour)
    ensures
        colour == (Colour { r: 255, g: 255, b: 255 }),
{
    Colour { r: 255, g: 255, b: 255 }
}

/// The gold of the goldenrod.
pub fn goldenrod() -> (colour: Colour)
    ensures
        colour == (Colour { r: 218, g: 165, b: 32 }),
{
    Colour { r: 218, g: 165, b: 32 }
}

/// The side of a square of the checkerboard.
pub const SQUARE_SIZE: u32 = 32;

/// The colour of a pixel of the checkerboard: the squares whose column and
/// row add up to an even number shade from their place, the others are
/// white.
pub open spec fn spec_checker(x: u32, y: u32) -> Colour {
    if ((x / 32) + (y / 32)) % 2 == 0 {
        Colour { r: x as u8, g: y as u8, b: 200 }
    } else {
        Colour { r: 255, g: 255, b: 255 }
    }
}

/// The colour of a pixel of the checkerboard.
#[verifier::when_used_as_spec(spec_checker)]
pub fn checker(x: u32, y: u32) -> (colour: Colour)
    requires
        x < 256,
        y < 256,
    ensures
        colour == spec_checker(x, y),
{
    if ((x / SQUARE_SIZE) + (y / SQUARE_SIZE)) % 2 == 0 {
        Colour { r: x as u8, g: y as u8, b: 200 }
    } else {
        white()
    }
}

/// The letter that stands for a colour: `R` for red, `G` for lime, `B` for
/// blue, `W` for white; none for any other.
pub open spec fn spec_letter(colour: Colour) -> Option<char> {
    if colour == (Colour { r: 255, g: 0, b: 0 }) {
        Some('R')
    } else if colour == (Colour { r: 0, g: 255, b: 0 }) {
        Some('G')
    } else if colour == (Colour { r: 0, g: 0, b: 255 }) {
        Some('B')
    } else if colour == (Colour { r: 255, g: 255, b: 255 }) {
        Some('W')
    } else {
        None
    }
}

/// The letter that stands for a colour.
#[verifier::when_used_as_spec(spec_letter)]
pub fn letter(colour: Colour) -> (name: Option<char>)
    ensures
        name == spec_letter(colour),
{
    if colour.r == 255 && colour.g == 0 && colour.b == 0 {
        Some('R')
    } else if colour.r == 0 && colour.g == 255 && colour.b == 0 {
        Some('G')
    } else if colour.r == 0 && colour.g == 0 && colour.b == 255 {
        Some('B')
    } else if colour.r == 255 && colour.g == 255 && colour.b == 255 {
        Some('W')
    } else {
        None
    }
}

/// What is drawn on an empty picture of 100 by 100 pixels.
#[derive(Clone, Copy, Debug, PartialEq, Eq, Structural)]
pub enum Operation {
    /// One white pixel at (50, 50).
    Pixel,
    /// One golden pixel at (5, 5).
    Single,
    /// A golden line from corner to corner.
    Diagonal,
    /// A golden line from the corner to the middle.
    House,
}

impl Operation {
    /// The colour that the operation gives the pixel, if it paints it.
    pub open spec fn spec_paints(self, x: u32, y: u32) -> Option<Colour> {
        match self {
            Operation::Pixel => if x == 50 && y == 50 {
                Some(Colour { r: 255, g: 255, b: 255 })
            } else {
                None
            },
            Operation::Single => if x == 5 && y == 5 {
                Some(Colour { r: 218, g: 165, b: 32 })
            } else {
                None
            },
            Operation::Diagonal => if x == y {
                Some(Colour { r: 218, g: 165, b: 32 })
            } else {
                None
            },
            Operation::House => if x == y && x < 50 {
                Some(Colour { r: 218, g: 165, b: 32 })
            } else {
                None
            },
        }
    }

    /// The colour that the operation gives the pixel, if it paints it.
    #[verifier::when_used_as_spec(spec_paints)]
    pub fn paints(self, x: u32, y: u32) -> (colour: Option<Colour>)
        ensures
            colour == self.spec_paints(x, y),
    {
        match self {
            Operation::Pixel => if x == 50 && y == 50 {
                Some(white())
            } else {
                None
            },
            Operation::Single => if x == 5 && y == 5 {
                Some(goldenrod())
            } else {
                None
            },
            Operation::Diagonal => if x == y {
                Some(goldenrod())
            } else {
                None
            },
            Operation::House => {
                let mut colour = None;
                if x == y && x < 50 && y < 50 {
                    colour = Some(goldenrod());
                }
                if x == y && x >= 50 && y < 50 {
                    colour = Some(goldenrod());
                }
                colour
            },
        }
    }

    /// The operation with the given name.
    pub fn named(name: &str) -> (operation: Option<Operation>)
        ensures
            operation == if name@ == "pixel"@ {
                Some(Operation::Pixel)
            } else if name@ == "single"@ {
                Some(Operation::Single)
            } else if name@ == "diagonal"@ {
                Some(Operation::Diagonal)
            } else if name@ == "house"@ {
                Some(Operation::House)
            } else {
                None
            },
    {
        let name = name.to_owned();
        if name == "pixel".to_owned() {
            Some(Operation::Pixel)
        } else if name == "single".to_owned() {
            Some(Operation::Single)
        } else if name == "diagonal".to_owned() {
            Some(Operation::Diagonal)
        } else if name == "house".to_owned() {
            Some(Operation::House)
        } else {
            None
        }
    }
}

} // verus!
