use vstd::prelude::*;
use vstd::string::StringExecFns;

use crate::text::{decimal, decimal_text};

verus! {

/// One display mode: pixel dimensions, refresh rate in Hz and colour depth.
/// Two modes are equal when all four values are.
#[derive(Debug, Clone, Copy, PartialEq, Eq, Structural)]
pub struct Resolution {
    pub width: u32,
    pub height: u32,
    pub frequency: u32,
    pub bits_per_pixel: u32,
}

impl Resolution {
    /// The mode as it is shown to the user, such as
    /// `1920x1080 @ 60Hz (32bit)`.
    pub open spec fn label_text(self) -> Seq<char> {
        decimal(self.width as nat) + "x"@ + decimal(self.height as nat) + " @ "@ + decimal(
            self.frequency as nat,
        ) + "Hz ("@ + decimal(self.bits_per_pixel as nat) + "bit)"@
    }

    /// Writes the mode as it is shown to the user.
    pub fn label(&self) -> (text: String)
        ensures
            text@ == self.label_text(),
    {
        let mut text = decimal_text(self.width as u64);
        text.append("x");
        text.append(decimal_text(self.height as u64).as_str());
        text.append(" @ ");
        text.append(decimal_text(self.frequency as u64).as_str());
        text.append("Hz (");
        text.append(decimal_text(self.bits_per_pixel as u64).as_str());
        text.append("bit)");
        text
    }
}

} // verus!
