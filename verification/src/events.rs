use vstd::prelude::*;
use crate::kitty::Kitty;

verus! {

/// A completed transition, announced to the outside world. The core records
/// events in order; consuming them is the host's concern.
#[derive(Clone, Copy, Debug)]
pub enum Event {
    /// A fresh asset was created: (owner, id, asset).
    KittyCreated(u64, u32, Kitty),
    /// An asset was bred from two parents: (owner, id, asset).
    KittyBred(u64, u32, Kitty),
    /// An asset changed hands: (old owner, new owner, id).
    KittyTransferred(u64, u64, u32),
}

} // verus!
