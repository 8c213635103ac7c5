//! Copycat - Dragon Frontiers #73
use vstd::prelude::*;

verus! {

pub const SET: &'static str = "DF";

pub const NUMBER: u32 = 73;

pub const NAME: &'static str = "Copycat";

} // verus!
