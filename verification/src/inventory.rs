use vstd::prelude::*;

verus! {

/// Hard cap on how many assets one owner may hold at once.
pub const MAX_OWNER_KITTIES: usize = 256;

/// The sequence after unordered removal at `p`: the last entry moves into
/// position `p` and the length shrinks by one.
pub open spec fn swap_removed(s: Seq<u32>, p: int) -> Seq<u32> {
    s.update(p, s.last()).drop_last()
}

/// The bounded, ordered list of asset ids one owner currently holds.
///
/// Capacity is enforced by an explicit check before every insertion, never
/// exceeded; removal is unordered (swap with the last entry), so the relative
/// order of the remaining entries is not preserved.
#[derive(Debug)]
pub struct Inventory {
    pub ids: Vec<u32>,
}

impl View for Inventory {
    type V = Seq<u32>;

    open spec fn view(&self) -> Seq<u32> {
        self.ids@
    }
}

impl Inventory {
    /// An empty inventory.
    pub fn new() -> (r: Inventory)
        ensures
            r@ == Seq::<u32>::empty(),
    {
        Inventory { ids: Vec::new() }
    }

    /// How many assets the owner currently holds.
    pub fn len(&self) -> (r: usize)
        ensures
            r == self@.len(),
    {
        self.ids.len()
    }

    /// Appends an id, failing fast when the inventory is already at capacity.
    /// On failure nothing changes.
    pub fn try_push(&mut self, id: u32) -> (r: Result<(), ()>)
        ensures
            old(self)@.len() < MAX_OWNER_KITTIES ==> r is Ok && final(self)@ == old(self)@.push(
                id,
            ),
            old(self)@.len() >= MAX_OWNER_KITTIES ==> r is Err && final(self)@ == old(self)@,
    {
        if self.ids.len() < MAX_OWNER_KITTIES {
            self.ids.push(id);
            Ok(())
        } else {
            Err(())
        }
    }

    /// Where `id` sits in the list, if anywhere: the first matching position.
    pub fn position_of(&self, id: u32) -> (r: Option<usize>)
        ensures
            match r {
                Some(i) => i < self@.len() && self@[i as int] == id && forall|j: int|
                    0 <= j < i ==> self@[j] != id,
                None => forall|j: int| 0 <= j < self@.len() ==> self@[j] != id,
            },
    {
        let n = self.ids.len();
        let mut i: usize = 0;
        while i < n
            invariant
                n == self@.len(),
                i <= n,
                forall|j: int| 0 <= j < i ==> self@[j] != id,
            decreases n - i,
        {
            if self.ids[i] == id {
                return Some(i);
            }
            i = i + 1;
        }
        None
    }

    /// Unordered removal: the last entry is swapped into the freed position.
    pub fn swap_remove_at(&mut self, i: usize) -> (r: u32)
        requires
            i < old(self)@.len(),
        ensures
            r == old(self)@[i as int],
            final(self)@ == old(self)@.update(i as int, old(self)@.last()).drop_last(),
    {
        self.ids.swap_remove(i)
    }
}

} // verus!
