use vstd::prelude::*;
use crate::error::Feature;

verus! {

/// A revision of the file format, such as 1.2.
#[derive(Clone, Copy, Debug, PartialEq, Eq, Structural)]
pub struct Version {
    pub major: u8,
    pub minor: u8,
}

impl Version {
    /// Whether this revision is `major.minor` or a later one.
    pub open spec fn reaches(self, major: u8, minor: u8) -> bool {
        self.major > major || (self.major == major && self.minor >= minor)
    }

    /// Whether this revision offers `feature`.
    pub open spec fn offers(self, feature: Feature) -> bool {
        match feature {
            Feature::FileSourceId => self.reaches(1, 1),
            Feature::GpsStandardTime => self.reaches(1, 2),
            Feature::Color => self.reaches(1, 2),
            Feature::ExtendedFormat => self.reaches(1, 4),
            Feature::ExtendedVlr => self.reaches(1, 4),
        }
    }

    /// The revision `major.minor`.
    pub fn new(major: u8, minor: u8) -> (r: Version)
        ensures
            r.major == major,
            r.minor == minor,
    {
        Version { major, minor }
    }

    /// Whether this revision is `major.minor` or a later one.
    pub fn at_least(&self, major: u8, minor: u8) -> (r: bool)
        ensures
            r == self.reaches(major, minor),
    {
        self.major > major || (self.major == major && self.minor >= minor)
    }

    /// Whether this revision offers `feature`.
    pub fn supports(&self, feature: Feature) -> (r: bool)
        ensures
            r == self.offers(feature),
    {
        match feature {
            Feature::FileSourceId => self.at_least(1, 1),
            Feature::GpsStandardTime => self.at_least(1, 2),
            Feature::Color => self.at_least(1, 2),
            Feature::ExtendedFormat => self.at_least(1, 4),
            Feature::ExtendedVlr => self.at_least(1, 4),
        }
    }
}

/// A later revision offers every feature that an earlier one offers.
pub proof fn lemma_features_stay(earlier: Version, later: Version, feature: Feature)
    requires
        later.reaches(earlier.major, earlier.minor),
        earlier.offers(feature),
    ensures
        later.offers(feature),
{
}

} // verus!
