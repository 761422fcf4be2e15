use vstd::prelude::*;

verus! {

/// How a display is rotated, in quarter turns.
#[derive(Debug, Clone, Copy, PartialEq, Eq, Structural)]
pub enum Orientation {
    Landscape,
    Portrait,
    LandscapeFlipped,
    PortraitFlipped,
}

impl Orientation {
    /// The number the display driver uses for this orientation.
    pub open spec fn code(self) -> u32 {
        match self {
            Orientation::Landscape => 0,
            Orientation::Portrait => 1,
            Orientation::LandscapeFlipped => 2,
            Orientation::PortraitFlipped => 3,
        }
    }

    /// The orientation a driver number stands for. Numbers the driver does
    /// not define read as `Landscape`.
    pub open spec fn decode(val: u32) -> Orientation {
        if val == 1 {
            Orientation::Portrait
        } else if val == 2 {
            Orientation::LandscapeFlipped
        } else if val == 3 {
            Orientation::PortraitFlipped
        } else {
            Orientation::Landscape
        }
    }

    /// Whether the long side of the panel stands upright.
    pub open spec fn is_portrait(self) -> bool {
        self == Orientation::Portrait || self == Orientation::PortraitFlipped
    }

    /// Whether turning from `self` to `target` exchanges width and height.
    pub open spec fn crosses_axis(self, target: Orientation) -> bool {
        self.is_portrait() != target.is_portrait()
    }

    /// The rotation angle as it is shown to the user.
    pub open spec fn degrees_text(self) -> Seq<char> {
        match self {
            Orientation::Landscape => "0°"@,
            Orientation::Portrait => "90°"@,
            Orientation::LandscapeFlipped => "180°"@,
            Orientation::PortraitFlipped => "270°"@,
        }
    }

    pub fn from_u32(val: u32) -> (orientation: Self)
        ensures
            orientation == Self::decode(val),
            val <= 3 ==> orientation.code() == val,
    {
        match val {
            0 => Orientation::Landscape,
            1 => Orientation::Portrait,
            2 => Orientation::LandscapeFlipped,
            3 => Orientation::PortraitFlipped,
            _ => Orientation::Landscape,
        }
    }

    pub fn to_u32(self) -> (val: u32)
        ensures
            val == self.code(),
            val <= 3,
    {
        match self {
            Orientation::Landscape => 0,
            Orientation::Portrait => 1,
            Orientation::LandscapeFlipped => 2,
            Orientation::PortraitFlipped => 3,
        }
    }

    pub fn degrees(self) -> (text: &'static str)
        ensures
            text@ == self.degrees_text(),
    {
        match self {
            Orientation::Landscape => "0°",
            Orientation::Portrait => "90°",
            Orientation::LandscapeFlipped => "180°",
            Orientation::PortraitFlipped => "270°",
        }
    }

    pub fn standing(self) -> (upright: bool)
        ensures
            upright == self.is_portrait(),
    {
        match self {
            Orientation::Portrait | Orientation::PortraitFlipped => true,
            _ => false,
        }
    }

    /// Encoding and decoding are inverse on the four orientations.
    pub proof fn lemma_code_round_trip(self)
        ensures
            Self::decode(self.code()) == self,
            self.code() <= 3,
    {
    }
}

impl Default for Orientation {
    fn default() -> (orientation: Self)
        ensures
            orientation == Orientation::Landscape,
    {
        Orientation::Landscape
    }
}

} // verus!
