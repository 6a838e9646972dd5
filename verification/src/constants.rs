use vstd::prelude::*;

verus! {

/// Size in bytes of the tag that prefixes every stored account.
pub const DISCRIMINATOR: usize = 8;

/// Denominator of a rate given in whole percent.
pub const BASE_1E2: u64 = 100;

/// Denominator of a rate given in tenths of a percent.
pub const BASE_1E3: u64 = 1000;

/// Denominator of fee rates and rate bumps: `BASE_1E5` stands for 100%.
pub const BASE_1E5: u64 = 100_000;

} // verus!
