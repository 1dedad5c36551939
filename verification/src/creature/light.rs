//! Light of a creature or item.

use vstd::prelude::*;

verus! {

/// Light level and color.
#[derive(Debug, Clone, Copy, PartialEq, Eq, Structural)]
pub struct LightInfo {
    pub level: u8,
    pub color: u8,
}

impl Default for LightInfo {
    fn default() -> (l: LightInfo)
        ensures
            l == (LightInfo { level: 0, color: 0 }),
    {
        LightInfo { level: 0, color: 0 }
    }
}

impl LightInfo {
    /// The brighter of two lights; `a` on a tie.
    pub fn max_of(a: LightInfo, b: LightInfo) -> (r: LightInfo)
        ensures
            r == (if a.level >= b.level { a } else { b }),
    {
        if a.level >= b.level { a } else { b }
    }
}

} // verus!
