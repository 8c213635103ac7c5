//! Professor Oak's Research - Dragon Frontiers #80
use vstd::prelude::*;

verus! {

pub const SET: &'static str = "DF";

pub const NUMBER: u32 = 80;

pub const NAME: &'static str = "Professor Oak's Research";

} // verus!
