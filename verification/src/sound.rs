//! The looping policy a sound playback request carries.

use vstd::prelude::*;

verus! {

/// Whether a requested sound should repeat until replaced.
#[allow(non_camel_case_types)]
#[derive(Clone, Copy, PartialEq, Eq, Structural, Debug)]
pub enum LOOPING {
    NO,
    YES,
}

} // verus!
