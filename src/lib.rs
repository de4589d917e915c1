use vstd::prelude::*;

pub mod bank;
pub mod cursor;
pub mod decode;
pub mod descriptor;
pub mod mul;
pub mod name;
pub mod samples;
pub mod sequences;
pub mod text;
pub mod units;
pub mod vag;

verus! {

/// The two storage profiles an archive may come from.
#[derive(Clone, Copy, Debug, PartialEq, Eq, Structural)]
pub enum Platform {
    Console,
    PC,
}

} // verus!
