use vstd::prelude::*;

pub mod canvas;
pub mod color;
pub mod contrast;
pub mod layout;
pub mod piece;
pub mod text;

verus! {

} // verus!
