//! Holon Mentor - Dragon Frontiers #75
use vstd::prelude::*;

verus! {

pub const SET: &'static str = "DF";

pub const NUMBER: u32 = 75;

pub const NAME: &'static str = "Holon Mentor";

} // verus!
