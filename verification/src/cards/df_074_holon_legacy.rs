//! Holon Canonical - Dragon Frontiers #74
use vstd::prelude::*;

verus! {

pub const SET: &'static str = "DF";

pub const NUMBER: u32 = 74;

pub const NAME: &'static str = "Holon Canonical";

} // verus!
