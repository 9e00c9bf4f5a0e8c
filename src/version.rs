//! Game client versions that an encoding configuration belongs to.

use vstd::prelude::*;

verus! {

/// The release channel of a game client build.
#[derive(Clone, Copy, Debug, PartialEq, Eq, Structural)]
pub enum ProductType {
    WOW,
    #[allow(non_camel_case_types)]
    WOW_BETA,
    WOWDEV,
    WOWT,
    WOWXPTR,
}

/// A game client build: release channel and version numbers.
#[derive(Clone, Copy, Debug, PartialEq, Eq, Structural)]
pub struct Version {
    pub product: ProductType,
    pub major: usize,
    pub patch: usize,
    pub minor: usize,
    pub build: usize,
}

impl ProductType {
    /// The name under which the release channel is shown.
    pub open spec fn spec_display_name(self) -> Seq<char> {
        match self {
            ProductType::WOW => "Live"@,
            ProductType::WOW_BETA => "Beta"@,
            ProductType::WOWDEV => "Alpha"@,
            ProductType::WOWT => "PTR"@,
            ProductType::WOWXPTR => "XPTR"@,
        }
    }

    pub fn display_name(&self) -> (r: &'static str)
        ensures
            r@ == self.spec_display_name(),
    {
        match self {
            ProductType::WOW => "Live",
            ProductType::WOW_BETA => "Beta",
            ProductType::WOWDEV => "Alpha",
            ProductType::WOWT => "PTR",
            ProductType::WOWXPTR => "XPTR",
        }
    }
}

impl Default for ProductType {
    fn default() -> (r: ProductType)
        ensures
            r == ProductType::WOW,
    {
        ProductType::WOW
    }
}

impl Default for Version {
    fn default() -> (r: Version)
        ensures
            r == (Version { product: ProductType::WOW, major: 11, patch: 2, minor: 0, build: 63003 }),
    {
        Version { product: ProductType::WOW, major: 11, patch: 2, minor: 0, build: 63003 }
    }
}

} // verus!
