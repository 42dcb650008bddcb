use vstd::prelude::*;

verus! {

/// The assistant that answers a conversation. Asking it for a reply is a
/// network call, which the program around the library makes.
pub struct Agent;

} // verus!
