//! Harmony sets: fixed families of related colors derived from a base
//! color by systematic hue rotation or lightness variation.

use vstd::prelude::*;

verus! {

/// The hue offset, in degrees, used by the analogous, tetradic and
/// split-complementary families.
pub const ROT_OFFSET: u8 = 30;

/// Harmony-set generation. Each executable method returns exactly the
/// sequence given by its companion specification function, which every
/// implementing type defines from its own hue-rotation and lightness
/// rules.
pub trait ComplementaryColors: Sized {
    /// The three-color triad family.
    spec fn triad_spec(self) -> Seq<Self>;

    /// The four-color tetradic family.
    spec fn tetradic_spec(self) -> Seq<Self>;

    /// The three-color analogous family.
    spec fn analogous_spec(self) -> Seq<Self>;

    /// The sixteen-step lightness ramp.
    spec fn shades_spec(self) -> Seq<Self>;

    /// The three-color split-complementary family.
    spec fn split_complemetary_spec(self) -> Seq<Self>;

    fn triad(self) -> (r: Vec<Self>)
        ensures
            r@ == self.triad_spec(),
            r@.len() == 3,
    ;

    fn tetradic(self) -> (r: Vec<Self>)
        ensures
            r@ == self.tetradic_spec(),
            r@.len() == 4,
    ;

    fn analogous(self) -> (r: Vec<Self>)
        ensures
            r@ == self.analogous_spec(),
            r@.len() == 3,
    ;

    fn shades(self) -> (r: Vec<Self>)
        ensures
            r@ == self.shades_spec(),
            r@.len() == 16,
    ;

    fn split_complemetary(self) -> (r: Vec<Self>)
        ensures
            r@ == self.split_complemetary_spec(),
            r@.len() == 3,
    ;
}

} // verus!
