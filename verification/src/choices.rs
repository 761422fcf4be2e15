//! The choices that are offered for a monitor, and how a choice becomes a
//! full mode.
//!
//! The user picks dimensions and a refresh rate, not a mode. The lists to
//! pick from are made from the monitor's capability list: every size once,
//! the largest area first, and for one size every rate once, the fastest
//! first.

use vstd::prelude::*;
use vstd::string::StringExecFns;

use crate::display::modes::{is_ranked_form, ranked_form, Ranked};
use crate::display::{Monitor, Resolution};
use crate::staging::fits;
use crate::text::{decimal, decimal_text};

verus! {

/// The size of a mode in pixels.
#[derive(Debug, Clone, Copy, PartialEq, Eq, Hash, Structural)]
pub struct Dimension {
    pub width: u32,
    pub height: u32,
}

impl Dimension {
    /// The number of pixels.
    pub open spec fn area(self) -> int {
        self.width * self.height
    }

    /// The size as it is shown to the user, such as `1920x1080`.
    pub open spec fn label_text(self) -> Seq<char> {
        decimal(self.width as nat) + "x"@ + decimal(self.height as nat)
    }

    /// The number of pixels.
    pub fn pixels(&self) -> (count: u64)
        ensures
            count == self.area(),
    {
        assert(self.width * self.height <= 0xFFFF_FFFF * 0xFFFF_FFFF) by (nonlinear_arith)
            requires
                0 <= self.width <= 0xFFFF_FFFF,
                0 <= self.height <= 0xFFFF_FFFF,
        ;
        (self.width as u64) * (self.height as u64)
    }

    /// Writes the size as it is shown to the user.
    pub fn label(&self) -> (text: String)
        ensures
            text@ == self.label_text(),
    {
        let mut text = decimal_text(self.width as u64);
        text.append("x");
        text.append(decimal_text(self.height as u64).as_str());
        text
    }
}

/// Sizes go by area, the largest first.
impl Ranked for Dimension {
    open spec fn outranks(self, other: Self) -> bool {
        self.area() > other.area()
    }

    fn ranks_before(&self, other: &Self) -> (before: bool) {
        self.pixels() > other.pixels()
    }

    fn same(&self, other: &Self) -> (equal: bool) {
        *self == *other
    }

    proof fn lemma_precedence(a: Self, b: Self, c: Self) {
    }
}

/// Refresh rates go by their number, the highest first.
impl Ranked for u32 {
    open spec fn outranks(self, other: Self) -> bool {
        self > other
    }

    fn ranks_before(&self, other: &Self) -> (before: bool) {
        *self > *other
    }

    fn same(&self, other: &Self) -> (equal: bool) {
        *self == *other
    }

    proof fn lemma_precedence(a: Self, b: Self, c: Self) {
    }
}

/// The size of a mode.
pub open spec fn dimension_of(mode: Resolution) -> Dimension {
    Dimension { width: mode.width, height: mode.height }
}

/// The size of each mode of a list, in the order of the list.
pub open spec fn dimensions_of(modes: Seq<Resolution>) -> Seq<Dimension> {
    modes.map_values(|mode: Resolution| dimension_of(mode))
}

/// The test for the modes of one size.
pub open spec fn of_size(width: u32, height: u32) -> spec_fn(Resolution) -> bool {
    |mode: Resolution| fits(mode, width, height)
}

/// The refresh rate of each mode of the given size, in the order of the
/// list.
pub open spec fn rates_at(modes: Seq<Resolution>, width: u32, height: u32) -> Seq<u32> {
    modes.filter(of_size(width, height)).map_values(|mode: Resolution| mode.frequency)
}

/// `best` is a mode of the list with the wanted size and rate whose colour
/// depth no other such mode of the list exceeds.
pub open spec fn is_deepest_match(
    modes: Seq<Resolution>,
    width: u32,
    height: u32,
    frequency: u32,
    best: Resolution,
) -> bool {
    &&& modes.contains(best)
    &&& fits(best, width, height)
    &&& best.frequency == frequency
    &&& forall|i: int|
        0 <= i < modes.len() && fits(#[trigger] modes[i], width, height) && modes[i].frequency
            == frequency ==> best.bits_per_pixel >= modes[i].bits_per_pixel
}

/// At most one mode is the deepest match.
pub proof fn lemma_deepest_match_unique(
    modes: Seq<Resolution>,
    width: u32,
    height: u32,
    frequency: u32,
    a: Resolution,
    b: Resolution,
)
    requires
        is_deepest_match(modes, width, height, frequency, a),
        is_deepest_match(modes, width, height, frequency, b),
    ensures
        a == b,
{
    let i = choose|i: int| 0 <= i < modes.len() && modes[i] == a;
    let j = choose|j: int| 0 <= j < modes.len() && modes[j] == b;
    assert(b.bits_per_pixel >= modes[i].bits_per_pixel);
    assert(a.bits_per_pixel >= modes[j].bits_per_pixel);
}

/// The sizes to choose from: every size the monitor has a mode for, once,
/// the largest area first, and sizes of equal area in the order of the
/// capability list.
pub fn dimension_choices(monitor: &Monitor) -> (choices: Vec<Dimension>)
    ensures
        is_ranked_form(dimensions_of(monitor.available_resolutions@), choices@),
{
    let modes = &monitor.available_resolutions;
    let mut sizes: Vec<Dimension> = Vec::new();
    let mut i: usize = 0;
    while i < modes.len()
        invariant
            i <= modes.len(),
            sizes@ == dimensions_of(modes@.take(i as int)),
        decreases modes.len() - i,
    {
        sizes.push(Dimension { width: modes[i].width, height: modes[i].height });
        proof {
            assert(modes@.take(i + 1) =~= modes@.take(i as int).push(modes@[i as int]));
            assert(sizes@ =~= dimensions_of(modes@.take(i + 1)));
        }
        i += 1;
    }
    proof {
        assert(modes@.take(i as int) =~= modes@);
    }
    ranked_form(&sizes)
}

/// The refresh rates to choose from at one size: every rate the monitor has
/// a mode for at that size, once, the highest first.
pub fn frequency_choices(monitor: &Monitor, width: u32, height: u32) -> (choices: Vec<u32>)
    ensures
        is_ranked_form(rates_at(monitor.available_resolutions@, width, height), choices@),
{
    let modes = &monitor.available_resolutions;
    let ghost keep = of_size(width, height);
    let mut rates: Vec<u32> = Vec::new();
    let mut i: usize = 0;
    proof {
        reveal(Seq::filter);
        assert(modes@.take(0) =~= Seq::<Resolution>::empty());
        assert(rates@ =~= rates_at(modes@.take(0), width, height));
    }
    while i < modes.len()
        invariant
            i <= modes.len(),
            keep == of_size(width, height),
            rates@ == rates_at(modes@.take(i as int), width, height),
        decreases modes.len() - i,
    {
        proof {
            assert(modes@.take(i + 1) =~= modes@.take(i as int).push(modes@[i as int]));
            modes@.take(i as int).lemma_filter_push(modes@[i as int], keep);
        }
        if modes[i].width == width && modes[i].height == height {
            rates.push(modes[i].frequency);
            proof {
                assert(rates@ =~= rates_at(modes@.take(i + 1), width, height));
            }
        }
        i += 1;
    }
    proof {
        assert(modes@.take(i as int) =~= modes@);
    }
    ranked_form(&rates)
}

/// Refines a choice of size and refresh rate into a full mode of the
/// monitor: among the modes with exactly this size and rate, the one with
/// the highest colour depth.
pub fn best_match_at(monitor: &Monitor, width: u32, height: u32, frequency: u32) -> (best: Option<
    Resolution,
>)
    ensures
        best is None <==> forall|i: int|
            0 <= i < monitor.available_resolutions@.len() ==> !(fits(
                #[trigger] monitor.available_resolutions@[i],
                width,
                height,
            ) && monitor.available_resolutions@[i].frequency == frequency),
        best matches Some(mode) ==> is_deepest_match(
            monitor.available_resolutions@,
            width,
            height,
            frequency,
            mode,
        ),
{
    let modes = &monitor.available_resolutions;
    let mut best: Option<Resolution> = None;
    let mut i: usize = 0;
    while i < modes.len()
        invariant
            i <= modes.len(),
            best is None <==> forall|k: int|
                0 <= k < i ==> !(fits(#[trigger] modes@[k], width, height) && modes@[k].frequency
                    == frequency),
            best matches Some(mode) ==> {
                &&& exists|w: int| 0 <= w < i && modes@[w] == mode
                &&& fits(mode, width, height)
                &&& mode.frequency == frequency
                &&& forall|k: int|
                    0 <= k < i && fits(#[trigger] modes@[k], width, height) && modes@[k].frequency
                        == frequency ==> mode.bits_per_pixel >= modes@[k].bits_per_pixel
            },
        decreases modes.len() - i,
    {
        let candidate = modes[i];
        if candidate.width == width && candidate.height == height && candidate.frequency
            == frequency {
            let better = match best {
                None => true,
                Some(mode) => candidate.bits_per_pixel >= mode.bits_per_pixel,
            };
            if better {
                best = Some(candidate);
                assert(modes@[i as int] == candidate);
            } else {
                proof {
                    let mode = best.unwrap();
                    let w = choose|w: int| 0 <= w < i && modes@[w] == mode;
                    assert(0 <= w < i + 1 && modes@[w] == mode);
                }
            }
        } else {
            proof {
                if best is Some {
                    let mode = best.unwrap();
                    let w = choose|w: int| 0 <= w < i && modes@[w] == mode;
                    assert(0 <= w < i + 1 && modes@[w] == mode);
                }
            }
        }
        i += 1;
    }
    proof {
        if best is Some {
            let mode = best.unwrap();
            let w = choose|w: int| 0 <= w < i && modes@[w] == mode;
            assert(modes@[w] == mode);
        }
    }
    best
}

} // verus!
