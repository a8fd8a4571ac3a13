use crate::error::SilentBerryError;
use vstd::prelude::*;

verus! {

/// A payout tier of a collectible, or one of the two fixed beneficiaries.
#[derive(Clone, Copy, Debug, PartialEq, Eq, Structural)]
pub enum Level {
    A,
    B,
    C,
    D,
    Platform,
    Auther,
}

/// The numeric code of each level: tiers A through D are 1 through 4, the
/// two fixed beneficiaries are 0x11 and 0x12.
pub open spec fn spec_level_value(l: Level) -> u8 {
    match l {
        Level::A => 1,
        Level::B => 2,
        Level::C => 3,
        Level::D => 4,
        Level::Platform => 0x11,
        Level::Auther => 0x12,
    }
}

impl Level {
    /// The numeric code of this level.
    pub fn value(&self) -> (r: u8)
        ensures
            r == spec_level_value(*self),
    {
        match self {
            Level::A => 1,
            Level::B => 2,
            Level::C => 3,
            Level::D => 4,
            Level::Platform => 0x11,
            Level::Auther => 0x12,
        }
    }

    /// Decodes a tier from its numeric code.  Only the four payout tiers can
    /// be named by a collectible; every other code is the collectible-domain
    /// error.
    pub fn try_from_u8(v: u8) -> (r: Result<Level, SilentBerryError>)
        ensures
            match r {
                Ok(l) => 1 <= v <= 4 && spec_level_value(l) == v,
                Err(e) => !(1 <= v <= 4) && e == SilentBerryError::Spore,
            },
    {
        match v {
            1 => Ok(Level::A),
            2 => Ok(Level::B),
            3 => Ok(Level::C),
            4 => Ok(Level::D),
            _ => Err(SilentBerryError::Spore),
        }
    }
}

} // verus!
