//! Old Rod - Dragon Frontiers #78
use vstd::prelude::*;

verus! {

pub const SET: &'static str = "DF";

pub const NUMBER: u32 = 78;

pub const NAME: &'static str = "Old Rod";

} // verus!
