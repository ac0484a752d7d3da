//! The names of the accessors that unwrap a concept into its node, which differ between versions
//! of Yin.
use vstd::prelude::*;

verus! {

/// Config for wrapper functions.
pub struct WrapperConfig {
    /// Immutable deref accessor.
    pub deref: &'static str,
    /// Mutable deref accessor.
    pub deref_mut: &'static str,
}

/// Unwrap functions for Yin 0.1.x versions.
pub fn yin_0_1_x() -> (res: WrapperConfig)
    ensures
        res.deref@ == "essence"@,
        res.deref_mut@ == "essence_mut"@,
{
    WrapperConfig { deref: "essence", deref_mut: "essence_mut" }
}

/// Unwrap functions for Yin 0.2.x versions.
pub fn yin_0_2_x() -> (res: WrapperConfig)
    ensures
        res.deref@ == "deref"@,
        res.deref_mut@ == "deref_mut"@,
{
    WrapperConfig { deref: "deref", deref_mut: "deref_mut" }
}

impl Default for WrapperConfig {
    /// The accessors of Yin 0.1.x versions.
    fn default() -> (res: Self)
        ensures
            res.deref@ == "essence"@,
            res.deref_mut@ == "essence_mut"@,
    {
        yin_0_1_x()
    }
}

} // verus!
