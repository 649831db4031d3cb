use vstd::prelude::*;

pub mod buffer;
pub mod codec;
pub mod error;
pub mod frontend;
pub mod message;

verus! {

} // verus!
