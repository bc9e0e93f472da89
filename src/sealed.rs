//! Keeps the set of element types closed.

use vstd::prelude::*;

use crate::pixel::Float32;

verus! {

pub trait Sealed {

}

impl Sealed for u8 {

}

impl Sealed for u16 {

}

impl Sealed for Float32 {

}

} // verus!
