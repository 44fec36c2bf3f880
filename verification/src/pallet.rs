use vstd::prelude::*;
use std::collections::HashMap;
use crate::balances::Balances;
use crate::errors::Error;
use crate::events::Event;
use crate::inventory::{Inventory, MAX_OWNER_KITTIES};
use crate::kitty::Kitty;

verus! {

broadcast use vstd::std_specs::hash::group_hash_axioms;

/// System-wide configuration: the fixed amount of stake escrowed from an
/// owner's balance for each asset they hold.
#[derive(Clone, Copy, Debug)]
pub struct Config {
    pub stake: u64,
}

/// The whole persisted state of the registry, as the host sees it: the
/// identifier allocator, the asset store, the ownership index in both
/// directions, the stake ledger, and the ordered log of announced events.
///
/// The three transitions (`create`, `breed`, `transfer`) mutate this state
/// atomically: on any error the state is exactly what it was before the call.
#[derive(Debug)]
pub struct Pallet {
    pub config: Config,
    /// The allocator: the id the next created asset receives, or `None` when
    /// nothing was ever allocated (which reads as zero).
    pub next_id: Option<u32>,
    /// id -> asset record.
    pub kitty_by_id: HashMap<u32, Kitty>,
    /// id -> current owner.
    pub owner_by_id: HashMap<u32, u64>,
    /// owner -> bounded inventory of the ids they hold.
    pub inventory_by_owner: HashMap<u64, Inventory>,
    /// The fungible-balance ledger the stake is escrowed on.
    pub balances: Balances,
    /// Announced transitions, oldest first.
    pub events: Vec<Event>,
}

impl Pallet {
    /// The id the next successful `create` or `breed` allocates.
    pub open spec fn spec_next_id(self) -> u32 {
        match self.next_id {
            Some(i) => i,
            None => 0,
        }
    }

    /// The allocator can produce no further id.
    pub open spec fn allocator_exhausted(self) -> bool {
        self.next_id == Some(u32::MAX)
    }

    /// The recorded owner of `id`, if the asset exists.
    pub open spec fn spec_owner_of(self, id: u32) -> Option<u64> {
        if self.owner_by_id@.contains_key(id) {
            Some(self.owner_by_id@[id])
        } else {
            None
        }
    }

    /// The inventory of `o`; an owner never touched holds nothing.
    pub open spec fn spec_inventory(self, o: u64) -> Seq<u32> {
        if self.inventory_by_owner@.contains_key(o) {
            self.inventory_by_owner@[o]@
        } else {
            Seq::<u32>::empty()
        }
    }

    /// The cross-entity invariants, maintained by every transition:
    /// - an asset record and an ownership record exist for exactly the same
    ///   ids, and the two directions of the ownership index agree;
    /// - no inventory exceeds its capacity or lists an id twice;
    /// - the allocator is strictly above every id ever allocated;
    /// - the ledger is well formed, and each owner's escrowed stake is
    ///   exactly (number of assets held) x (stake per asset).
    pub open spec fn wf(self) -> bool {
        &&& forall|id: u32| #![auto]
            self.kitty_by_id@.contains_key(id) <==> self.owner_by_id@.contains_key(id)
        &&& forall|id: u32| #![auto]
            self.owner_by_id@.contains_key(id) ==> self.spec_inventory(
                self.owner_by_id@[id],
            ).contains(id)
        &&& forall|o: u64, j: int| #![auto]
            0 <= j < self.spec_inventory(o).len() ==> self.owner_by_id@.contains_key(
                self.spec_inventory(o)[j],
            ) && self.owner_by_id@[self.spec_inventory(o)[j]] == o
        &&& forall|o: u64| #![auto] self.spec_inventory(o).len() <= MAX_OWNER_KITTIES
        &&& forall|o: u64, j: int, k: int| #![auto]
            0 <= j < k < self.spec_inventory(o).len() ==> self.spec_inventory(o)[j]
                != self.spec_inventory(o)[k]
        &&& forall|id: u32| #![auto]
            self.kitty_by_id@.contains_key(id) ==> self.next_id is Some && id < self.spec_next_id()
        &&& self.balances.wf()
        &&& forall|o: u64| #![auto]
            self.balances.spec_reserved(o) == self.spec_inventory(o).len() * self.config.stake
    }

    /// A fresh, empty registry under the given configuration.
    pub fn new(config: Config) -> (r: Pallet)
        ensures
            r.wf(),
            r.config == config,
            r.next_id is None,
            r.kitty_by_id@ == Map::<u32, Kitty>::empty(),
            r.owner_by_id@ == Map::<u32, u64>::empty(),
            forall|o: u64| #![auto] r.spec_inventory(o) == Seq::<u32>::empty(),
            forall|o: u64| #![auto]
                r.balances.spec_free(o) == 0 && r.balances.spec_reserved(o) == 0,
            r.events@ == Seq::<Event>::empty(),
    {
        Pallet {
            config,
            next_id: None,
            kitty_by_id: HashMap::new(),
            owner_by_id: HashMap::new(),
            inventory_by_owner: HashMap::new(),
            balances: Balances::new(),
            events: Vec::new(),
        }
    }

    /// The allocator's current value: the id the next created asset
    /// receives, or `None` when nothing was ever allocated.
    pub fn next_kitty_id(&self) -> (r: Option<u32>)
        ensures
            r == self.next_id,
    {
        self.next_id
    }

    /// Writes the allocator outright. This is the host-facing storage
    /// surface, not a transition: it leaves every other record alone, and it
    /// keeps the state well formed as long as the new value stays above
    /// every id already allocated.
    pub fn put_next_kitty_id(&mut self, v: u32)
        ensures
            final(self).next_id == Some(v),
            final(self).config == old(self).config,
            final(self).kitty_by_id == old(self).kitty_by_id,
            final(self).owner_by_id == old(self).owner_by_id,
            final(self).inventory_by_owner == old(self).inventory_by_owner,
            final(self).balances == old(self).balances,
            final(self).events == old(self).events,
            old(self).wf() && (forall|i: u32| #![auto]
                old(self).kitty_by_id@.contains_key(i) ==> i < v) ==> final(self).wf(),
    {
        self.next_id = Some(v);
        proof {
            if old(self).wf() && (forall|i: u32| #![auto]
                old(self).kitty_by_id@.contains_key(i) ==> i < v) {
                assert forall|id: u32| #![auto]
                    self.kitty_by_id@.contains_key(id) <==> self.owner_by_id@.contains_key(
                    id,
                ) by {
                    assert(old(self).kitty_by_id@.contains_key(id)
                        <==> old(self).owner_by_id@.contains_key(id));
                }
                assert forall|id: u32| #![auto]
                    self.owner_by_id@.contains_key(id) implies self.spec_inventory(
                    self.owner_by_id@[id],
                ).contains(id) by {
                    assert(old(self).spec_inventory(old(self).owner_by_id@[id]).contains(id));
                }
                assert forall|o: u64, j: int| #![auto]
                    0 <= j < self.spec_inventory(o).len() implies self.owner_by_id@.contains_key(
                    self.spec_inventory(o)[j],
                ) && self.owner_by_id@[self.spec_inventory(o)[j]] == o by {
                    assert(old(self).owner_by_id@.contains_key(old(self).spec_inventory(o)[j])
                        && old(self).owner_by_id@[old(self).spec_inventory(o)[j]] == o);
                }
                assert forall|o: u64| #![auto]
                    self.spec_inventory(o).len() <= MAX_OWNER_KITTIES by {
                    assert(old(self).spec_inventory(o).len() <= MAX_OWNER_KITTIES);
                }
                assert forall|o: u64, j: int, k: int| #![auto]
                    0 <= j < k < self.spec_inventory(o).len() implies self.spec_inventory(o)[j]
                    != self.spec_inventory(o)[k] by {
                    assert(old(self).spec_inventory(o)[j] != old(self).spec_inventory(o)[k]);
                }
                assert forall|id: u32| #![auto]
                    self.kitty_by_id@.contains_key(id) implies self.next_id is Some && id
                    < self.spec_next_id() by {
                    assert(old(self).kitty_by_id@.contains_key(id) ==> id < v);
                }
                assert forall|o: u64| #![auto]
                    self.balances.spec_reserved(o) == self.spec_inventory(o).len()
                    * self.config.stake by {
                    assert(old(self).balances.spec_reserved(o) == old(self).spec_inventory(
                        o,
                    ).len() * old(self).config.stake);
                }
            }
        }
    }

    /// The asset recorded under `kitty_id`, if any.
    pub fn kitties(&self, kitty_id: u32) -> (r: Option<Kitty>)
        ensures
            match r {
                Some(k) => self.kitty_by_id@.contains_key(kitty_id) && k
                    == self.kitty_by_id@[kitty_id],
                None => !self.kitty_by_id@.contains_key(kitty_id),
            },
    {
        match self.kitty_by_id.get(&kitty_id) {
            Some(k) => Some(*k),
            None => None,
        }
    }

    /// The recorded owner of `kitty_id`, if the asset exists.
    pub fn kitty_owner(&self, kitty_id: u32) -> (r: Option<u64>)
        ensures
            r == self.spec_owner_of(kitty_id),
    {
        match self.owner_by_id.get(&kitty_id) {
            Some(o) => Some(*o),
            None => None,
        }
    }

    /// The ids `who` currently holds, in inventory order.
    pub fn owner_kitties(&self, who: u64) -> (r: Vec<u32>)
        ensures
            r@ == self.spec_inventory(who),
    {
        let mut r: Vec<u32> = Vec::new();
        match self.inventory_by_owner.get(&who) {
            Some(inv) => {
                let n = inv.ids.len();
                let mut i: usize = 0;
                while i < n
                    invariant
                        n == inv@.len(),
                        i <= n,
                        r@ == inv@.subrange(0, i as int),
                    decreases n - i,
                {
                    r.push(inv.ids[i]);
                    proof {
                        assert(r@ =~= inv@.subrange(0, i + 1));
                    }
                    i = i + 1;
                }
                proof {
                    assert(r@ =~= self.spec_inventory(who));
                }
            },
            None => {},
        }
        r
    }

    /// The events announced so far, oldest first.
    pub fn events(&self) -> (r: &Vec<Event>)
        ensures
            r@ == self.events@,
    {
        &self.events
    }

    /// How many assets `o` currently holds.
    fn inventory_len(&self, o: u64) -> (r: usize)
        ensures
            r == self.spec_inventory(o).len(),
    {
        match self.inventory_by_owner.get(&o) {
            Some(inv) => inv.len(),
            None => 0,
        }
    }

    /// Appends `id` to `o`'s inventory; the caller has checked the capacity.
    fn push_inventory(&mut self, o: u64, id: u32)
        requires
            old(self).spec_inventory(o).len() < MAX_OWNER_KITTIES,
        ensures
            final(self).spec_inventory(o) == old(self).spec_inventory(o).push(id),
            final(self).inventory_by_owner@ == old(self).inventory_by_owner@.insert(
                o,
                final(self).inventory_by_owner@[o],
            ),
            final(self).config == old(self).config,
            final(self).next_id == old(self).next_id,
            final(self).kitty_by_id == old(self).kitty_by_id,
            final(self).owner_by_id == old(self).owner_by_id,
            final(self).balances == old(self).balances,
            final(self).events == old(self).events,
    {
        let mut inv = match self.inventory_by_owner.remove(&o) {
            Some(inv) => inv,
            None => Inventory::new(),
        };
        let _ = inv.try_push(id);
        self.inventory_by_owner.insert(o, inv);
        proof {
            assert(self.inventory_by_owner@ =~= old(self).inventory_by_owner@.insert(
                o,
                self.inventory_by_owner@[o],
            ));
        }
    }

    /// Removes the entry at `pos` from `o`'s inventory by unordered removal.
    fn remove_inventory_at(&mut self, o: u64, pos: usize)
        requires
            pos < old(self).spec_inventory(o).len(),
        ensures
            final(self).spec_inventory(o) == crate::inventory::swap_removed(
                old(self).spec_inventory(o),
                pos as int,
            ),
            final(self).inventory_by_owner@ == old(self).inventory_by_owner@.insert(
                o,
                final(self).inventory_by_owner@[o],
            ),
            final(self).config == old(self).config,
            final(self).next_id == old(self).next_id,
            final(self).kitty_by_id == old(self).kitty_by_id,
            final(self).owner_by_id == old(self).owner_by_id,
            final(self).balances == old(self).balances,
            final(self).events == old(self).events,
    {
        let mut inv = match self.inventory_by_owner.remove(&o) {
            Some(inv) => inv,
            None => Inventory::new(),
        };
        let _ = inv.swap_remove_at(pos);
        self.inventory_by_owner.insert(o, inv);
        proof {
            assert(self.inventory_by_owner@ =~= old(self).inventory_by_owner@.insert(
                o,
                self.inventory_by_owner@[o],
            ));
        }
    }

    /// After a successful `create` or `breed`, the invariants hold again:
    /// `self` is `prev` with one fresh asset `id` recorded for `who`, one
    /// stake escrowed from `who`, and the allocator advanced by one.
    proof fn lemma_wf_after_new_asset(&self, prev: Pallet, who: u64, id: u32, kitty: Kitty)
        requires
            prev.wf(),
            id == prev.spec_next_id(),
            prev.next_id is Some ==> prev.spec_next_id() < u32::MAX,
            prev.spec_inventory(who).len() < MAX_OWNER_KITTIES,
            self.config == prev.config,
            self.next_id == Some((id + 1) as u32),
            self.kitty_by_id@ == prev.kitty_by_id@.insert(id, kitty),
            self.owner_by_id@ == prev.owner_by_id@.insert(id, who),
            self.spec_inventory(who) == prev.spec_inventory(who).push(id),
            forall|o: u64| #![auto]
                o != who ==> self.spec_inventory(o) == prev.spec_inventory(o),
            self.balances.wf(),
            self.balances.spec_reserved(who) == prev.balances.spec_reserved(who)
                + prev.config.stake,
            forall|o: u64| #![auto]
                o != who ==> self.balances.spec_reserved(o) == prev.balances.spec_reserved(o),
        ensures
            self.wf(),
    {
        // The freshly allocated id is nowhere in the previous state.
        assert(!prev.kitty_by_id@.contains_key(id));
        assert(!prev.owner_by_id@.contains_key(id));
        assert forall|o: u64| #![auto] !prev.spec_inventory(o).contains(id) by {
            if prev.spec_inventory(o).contains(id) {
                let j = choose|j: int|
                    0 <= j < prev.spec_inventory(o).len() && prev.spec_inventory(o)[j] == id;
                assert(prev.owner_by_id@.contains_key(prev.spec_inventory(o)[j]));
            }
        }
        let prev_len = prev.spec_inventory(who).len() as int;
        assert(self.spec_inventory(who)[prev_len] == id);
        assert forall|i: u32| #![auto]
            self.kitty_by_id@.contains_key(i) <==> self.owner_by_id@.contains_key(i) by {
            if i != id {
                assert(prev.kitty_by_id@.contains_key(i) <==> prev.owner_by_id@.contains_key(i));
            }
        }
        assert forall|i: u32| #![auto]
            self.owner_by_id@.contains_key(i) implies self.spec_inventory(
            self.owner_by_id@[i],
        ).contains(i) by {
            if i == id {
                assert(self.spec_inventory(who)[prev_len] == id);
            } else {
                let o = prev.owner_by_id@[i];
                assert(prev.spec_inventory(o).contains(i));
                let j = choose|j: int|
                    0 <= j < prev.spec_inventory(o).len() && prev.spec_inventory(o)[j] == i;
                if o == who {
                    assert(self.spec_inventory(who)[j] == i);
                } else {
                    assert(self.spec_inventory(o)[j] == i);
                }
            }
        }
        assert forall|o: u64, j: int| #![auto]
            0 <= j < self.spec_inventory(o).len() implies self.owner_by_id@.contains_key(
            self.spec_inventory(o)[j],
        ) && self.owner_by_id@[self.spec_inventory(o)[j]] == o by {
            if o == who {
                if j < prev_len {
                    assert(self.spec_inventory(who)[j] == prev.spec_inventory(who)[j]);
                    assert(prev.owner_by_id@[prev.spec_inventory(who)[j]] == who);
                } else {
                    assert(self.spec_inventory(who)[j] == id);
                }
            } else {
                assert(prev.owner_by_id@[prev.spec_inventory(o)[j]] == o);
            }
        }
        assert forall|o: u64, j: int, k: int| #![auto]
            0 <= j < k < self.spec_inventory(o).len() implies self.spec_inventory(o)[j]
            != self.spec_inventory(o)[k] by {
            if o == who {
                if k < prev_len {
                    assert(prev.spec_inventory(who)[j] != prev.spec_inventory(who)[k]);
                } else {
                    assert(self.spec_inventory(who)[k] == id);
                    assert(prev.spec_inventory(who)[j] != id);
                }
            } else {
                assert(prev.spec_inventory(o)[j] != prev.spec_inventory(o)[k]);
            }
        }
        assert forall|o: u64| #![auto]
            self.balances.spec_reserved(o) == self.spec_inventory(o).len()
            * self.config.stake by {
            if o == who {
                let st = prev.config.stake as int;
                assert((prev_len + 1) * st == prev_len * st + st) by (nonlinear_arith);
                assert(prev.balances.spec_reserved(who) == prev.spec_inventory(who).len()
                    * prev.config.stake);
            } else {
                assert(prev.balances.spec_reserved(o) == prev.spec_inventory(o).len()
                    * prev.config.stake);
            }
        }
    }

    /// Creates a fresh asset for `who`. Its genome is derived from the
    /// host-supplied randomness seed, the caller and the per-request nonce.
    ///
    /// Succeeds exactly when the allocator is not exhausted, `who`'s
    /// spendable balance covers the stake, and `who`'s inventory has room.
    /// The new asset takes the allocator's pre-call value as its id, the
    /// allocator advances by exactly one, ownership and inventory point at
    /// `who`, one stake is escrowed from `who`, and a `KittyCreated` event is
    /// recorded. On any failure the state is exactly what it was.
    pub fn create(&mut self, who: u64, seed: &[u8; 32], nonce: Option<u32>) -> (r: Result<
        (),
        Error,
    >)
        requires
            old(self).wf(),
        ensures
            final(self).wf(),
            final(self).config == old(self).config,
            r is Ok <==> {
                &&& !old(self).allocator_exhausted()
                &&& old(self).config.stake <= old(self).balances.spec_free(who)
                &&& old(self).spec_inventory(who).len() < MAX_OWNER_KITTIES
            },
            old(self).allocator_exhausted() ==> r == Err::<(), Error>(Error::KittiesOverflow),
            !old(self).allocator_exhausted() && old(self).balances.spec_free(who) < old(self).config.stake ==> r == Err::<(), Error>(Error::StakeNotEnough),
            !old(self).allocator_exhausted() && old(self).config.stake <= old(self).balances.spec_free(who) && old(self).spec_inventory(who).len() >= MAX_OWNER_KITTIES
                ==> r == Err::<(), Error>(Error::ExceedMaxOwnerKitties),
            r is Err ==> *final(self) == *old(self),
            r is Ok ==> ({
                let id = old(self).spec_next_id();
                let genome = crate::randomness::spec_random_value(seed@, who, nonce);
                &&& final(self).next_id == Some((id + 1) as u32)
                &&& final(self).kitty_by_id@.contains_key(id)
                &&& final(self).kitty_by_id@[id].0@ == genome
                &&& forall|i: u32| #![auto]
                    i != id ==> final(self).kitty_by_id@.contains_key(i) == old(self).kitty_by_id@.contains_key(i)
                &&& forall|i: u32| #![auto]
                    i != id && old(self).kitty_by_id@.contains_key(i) ==> final(self).kitty_by_id@[i] == old(self).kitty_by_id@[i]
                &&& final(self).spec_owner_of(id) == Some(who)
                &&& forall|i: u32| #![auto]
                    i != id ==> final(self).spec_owner_of(i) == old(self).spec_owner_of(i)
                &&& final(self).spec_inventory(who) == old(self).spec_inventory(who).push(id)
                &&& forall|o: u64| #![auto]
                    o != who ==> final(self).spec_inventory(o) == old(self).spec_inventory(o)
                &&& final(self).balances.spec_free(who) == old(self).balances.spec_free(who) - old(self).config.stake
                &&& final(self).balances.spec_reserved(who) == old(self).balances.spec_reserved(
                    who,
                ) + old(self).config.stake
                &&& forall|o: u64| #![auto]
                    o != who ==> final(self).balances.spec_free(o) == old(self).balances.spec_free(
                        o,
                    ) && final(self).balances.spec_reserved(o) == old(self).balances.spec_reserved(o)
                &&& final(self).events@ == old(self).events@.push(final(self).events@.last())
                &&& (final(self).events@.last() matches Event::KittyCreated(eo, ei, ek) && eo
                    == who && ei == id && ek.0@ == genome)
            }),
    {
        let stake = self.config.stake;
        let id: u32 = match self.next_id {
            Some(i) => {
                if i == u32::MAX {
                    return Err(Error::KittiesOverflow);
                }
                i
            },
            None => 0,
        };
        if self.balances.free_balance(who) < stake {
            return Err(Error::StakeNotEnough);
        }
        if self.inventory_len(who) >= MAX_OWNER_KITTIES {
            return Err(Error::ExceedMaxOwnerKitties);
        }
        // Every precondition holds: apply the whole transition.
        let dna = crate::randomness::random_value(seed, who, nonce);
        let kitty = Kitty(dna);
        match self.balances.reserve(who, stake) {
            Ok(()) => {},
            Err(()) => {
                return Err(Error::StakeNotEnough);
            },
        }
        self.kitty_by_id.insert(id, kitty);
        self.owner_by_id.insert(id, who);
        self.next_id = Some(id + 1);
        self.push_inventory(who, id);
        self.events.push(Event::KittyCreated(who, id, kitty));
        proof {
            assert(self.spec_inventory(who) =~= old(self).spec_inventory(who).push(id));
            assert forall|o: u64| #![auto]
                o != who implies self.spec_inventory(o) == old(self).spec_inventory(o) by {}
            self.lemma_wf_after_new_asset(*old(self), who, id, kitty);
        }
        Ok(())
    }

    /// Looks an asset up by id.
    pub fn get_kitty(&self, kitty_id: u32) -> (r: Result<Kitty, ()>)
        ensures
            match r {
                Ok(k) => self.kitty_by_id@.contains_key(kitty_id) && k
                    == self.kitty_by_id@[kitty_id],
                Err(e) => !self.kitty_by_id@.contains_key(kitty_id),
            },
    {
        match self.kitty_by_id.get(&kitty_id) {
            Some(k) => Ok(*k),
            None => Err(()),
        }
    }

    /// Breeds a new asset for `who` out of two existing parents. The
    /// offspring genome is the per-bit multiplex of the parents' genomes
    /// under a selector mask derived from the host-supplied seed, the caller
    /// and the per-request nonce.
    ///
    /// The preconditions are checked in this order: distinct parents, stake
    /// coverable, first parent exists, second parent exists, allocator not
    /// exhausted, room in the inventory; the first to fail names the error.
    /// On success the offspring is recorded for `who` exactly as in `create`,
    /// with a `KittyBred` event. On any failure the state is exactly what it
    /// was.
    pub fn breed(
        &mut self,
        who: u64,
        kitty_id_1: u32,
        kitty_id_2: u32,
        seed: &[u8; 32],
        nonce: Option<u32>,
    ) -> (r: Result<(), Error>)
        requires
            old(self).wf(),
        ensures
            final(self).wf(),
            final(self).config == old(self).config,
            r is Ok <==> {
                &&& kitty_id_1 != kitty_id_2
                &&& old(self).config.stake <= old(self).balances.spec_free(who)
                &&& old(self).kitty_by_id@.contains_key(kitty_id_1)
                &&& old(self).kitty_by_id@.contains_key(kitty_id_2)
                &&& !old(self).allocator_exhausted()
                &&& old(self).spec_inventory(who).len() < MAX_OWNER_KITTIES
            },
            kitty_id_1 == kitty_id_2 ==> r == Err::<(), Error>(Error::SameId),
            kitty_id_1 != kitty_id_2 && old(self).balances.spec_free(who) < old(self).config.stake
                ==> r == Err::<(), Error>(Error::StakeNotEnough),
            kitty_id_1 != kitty_id_2 && old(self).config.stake <= old(self).balances.spec_free(
                who,
            ) && (!old(self).kitty_by_id@.contains_key(kitty_id_1) || !old(self).kitty_by_id@.contains_key(kitty_id_2)) ==> r == Err::<(), Error>(Error::InvalidId),
            kitty_id_1 != kitty_id_2 && old(self).config.stake <= old(self).balances.spec_free(
                who,
            ) && old(self).kitty_by_id@.contains_key(kitty_id_1) && old(self).kitty_by_id@.contains_key(kitty_id_2) && old(self).allocator_exhausted() ==> r
                == Err::<(), Error>(Error::KittiesOverflow),
            kitty_id_1 != kitty_id_2 && old(self).config.stake <= old(self).balances.spec_free(
                who,
            ) && old(self).kitty_by_id@.contains_key(kitty_id_1) && old(self).kitty_by_id@.contains_key(kitty_id_2) && !old(self).allocator_exhausted() && old(self).spec_inventory(who).len() >= MAX_OWNER_KITTIES ==> r == Err::<(), Error>(
                Error::ExceedMaxOwnerKitties,
            ),
            r is Err ==> *final(self) == *old(self),
            r is Ok ==> ({
                let id = old(self).spec_next_id();
                let selector = crate::randomness::spec_random_value(seed@, who, nonce);
                let genome = crate::kitty::combine_genome(
                    old(self).kitty_by_id@[kitty_id_1].0@,
                    old(self).kitty_by_id@[kitty_id_2].0@,
                    selector,
                );
                &&& final(self).next_id == Some((id + 1) as u32)
                &&& final(self).kitty_by_id@.contains_key(id)
                &&& final(self).kitty_by_id@[id].0@ == genome
                &&& forall|i: u32| #![auto]
                    i != id ==> final(self).kitty_by_id@.contains_key(i) == old(self).kitty_by_id@.contains_key(i)
                &&& forall|i: u32| #![auto]
                    i != id && old(self).kitty_by_id@.contains_key(i) ==> final(self).kitty_by_id@[i] == old(self).kitty_by_id@[i]
                &&& final(self).spec_owner_of(id) == Some(who)
                &&& forall|i: u32| #![auto]
                    i != id ==> final(self).spec_owner_of(i) == old(self).spec_owner_of(i)
                &&& final(self).spec_inventory(who) == old(self).spec_inventory(who).push(id)
                &&& forall|o: u64| #![auto]
                    o != who ==> final(self).spec_inventory(o) == old(self).spec_inventory(o)
                &&& final(self).balances.spec_free(who) == old(self).balances.spec_free(who) - old(self).config.stake
                &&& final(self).balances.spec_reserved(who) == old(self).balances.spec_reserved(
                    who,
                ) + old(self).config.stake
                &&& forall|o: u64| #![auto]
                    o != who ==> final(self).balances.spec_free(o) == old(self).balances.spec_free(
                        o,
                    ) && final(self).balances.spec_reserved(o) == old(self).balances.spec_reserved(o)
                &&& final(self).events@ == old(self).events@.push(final(self).events@.last())
                &&& (final(self).events@.last() matches Event::KittyBred(eo, ei, ek) && eo == who
                    && ei == id && ek.0@ == genome)
            }),
    {
        let stake = self.config.stake;
        if kitty_id_1 == kitty_id_2 {
            return Err(Error::SameId);
        }
        if self.balances.free_balance(who) < stake {
            return Err(Error::StakeNotEnough);
        }
        let kitty_1 = match self.get_kitty(kitty_id_1) {
            Ok(k) => k,
            Err(()) => {
                return Err(Error::InvalidId);
            },
        };
        let kitty_2 = match self.get_kitty(kitty_id_2) {
            Ok(k) => k,
            Err(()) => {
                return Err(Error::InvalidId);
            },
        };
        let id: u32 = match self.next_id {
            Some(i) => {
                if i == u32::MAX {
                    return Err(Error::KittiesOverflow);
                }
                i
            },
            None => 0,
        };
        if self.inventory_len(who) >= MAX_OWNER_KITTIES {
            return Err(Error::ExceedMaxOwnerKitties);
        }
        // Every precondition holds: apply the whole transition.
        let selector = crate::randomness::random_value(seed, who, nonce);
        let data = crate::kitty::combine(&kitty_1.0, &kitty_2.0, &selector);
        let new_kitty = Kitty(data);
        match self.balances.reserve(who, stake) {
            Ok(()) => {},
            Err(()) => {
                return Err(Error::StakeNotEnough);
            },
        }
        self.kitty_by_id.insert(id, new_kitty);
        self.owner_by_id.insert(id, who);
        self.next_id = Some(id + 1);
        self.push_inventory(who, id);
        self.events.push(Event::KittyBred(who, id, new_kitty));
        proof {
            assert(self.spec_inventory(who) =~= old(self).spec_inventory(who).push(id));
            assert forall|o: u64| #![auto]
                o != who implies self.spec_inventory(o) == old(self).spec_inventory(o) by {}
            self.lemma_wf_after_new_asset(*old(self), who, id, new_kitty);
        }
        Ok(())
    }

    /// Moves an existing asset from its current owner `who` to `new_owner`.
    ///
    /// The preconditions are checked in this order: the asset exists
    /// (`InvalidId`), `who` is its recorded owner (`NotOwner`; a missing
    /// inventory entry under a recorded owner would conservatively be
    /// reported as `NotOwner` too, though the invariants rule that out), the
    /// new owner's spendable balance covers the stake (`StakeNotEnough`), and
    /// the new owner's inventory has room (`ExceedMaxOwnerKitties`; a
    /// transfer to oneself always has room, the slot being freed first). On
    /// success the asset leaves `who`'s inventory by unordered removal and
    /// joins `new_owner`'s, ownership is re-recorded, `who`'s stake for it is
    /// released, `new_owner`'s is escrowed, and a `KittyTransferred` event is
    /// recorded. On any failure the state is exactly what it was.
    pub fn transfer(&mut self, who: u64, kitty_id: u32, new_owner: u64) -> (r: Result<(), Error>)
        requires
            old(self).wf(),
        ensures
            final(self).wf(),
            final(self).config == old(self).config,
            r is Ok <==> {
                &&& old(self).kitty_by_id@.contains_key(kitty_id)
                &&& old(self).spec_owner_of(kitty_id) == Some(who)
                &&& old(self).config.stake <= old(self).balances.spec_free(new_owner)
                &&& (new_owner == who || old(self).spec_inventory(new_owner).len()
                    < MAX_OWNER_KITTIES)
            },
            !old(self).kitty_by_id@.contains_key(kitty_id) ==> r == Err::<(), Error>(
                Error::InvalidId,
            ),
            old(self).kitty_by_id@.contains_key(kitty_id) && old(self).spec_owner_of(kitty_id)
                != Some(who) ==> r == Err::<(), Error>(Error::NotOwner),
            old(self).kitty_by_id@.contains_key(kitty_id) && old(self).spec_owner_of(kitty_id)
                == Some(who) && old(self).balances.spec_free(new_owner) < old(self).config.stake
                ==> r == Err::<(), Error>(Error::StakeNotEnough),
            old(self).kitty_by_id@.contains_key(kitty_id) && old(self).spec_owner_of(kitty_id)
                == Some(who) && old(self).config.stake <= old(self).balances.spec_free(new_owner)
                && new_owner != who && old(self).spec_inventory(new_owner).len()
                >= MAX_OWNER_KITTIES ==> r == Err::<(), Error>(Error::ExceedMaxOwnerKitties),
            r is Err ==> *final(self) == *old(self),
            r is Ok ==> ({
                let s_who = old(self).spec_inventory(who);
                &&& final(self).next_id == old(self).next_id
                &&& final(self).kitty_by_id == old(self).kitty_by_id
                &&& final(self).spec_owner_of(kitty_id) == Some(new_owner)
                &&& forall|i: u32| #![auto]
                    i != kitty_id ==> final(self).spec_owner_of(i) == old(self).spec_owner_of(i)
                &&& exists|p: int|
                    {
                        &&& 0 <= p < s_who.len()
                        &&& s_who[p] == kitty_id
                        &&& (forall|j: int| 0 <= j < p ==> s_who[j] != kitty_id)
                        &&& final(self).spec_inventory(who) == (if new_owner == who {
                            crate::inventory::swap_removed(s_who, p).push(kitty_id)
                        } else {
                            crate::inventory::swap_removed(s_who, p)
                        })
                    }
                &&& new_owner != who ==> final(self).spec_inventory(new_owner) == old(self).spec_inventory(new_owner).push(kitty_id)
                &&& new_owner != who ==> !final(self).spec_inventory(who).contains(kitty_id)
                &&& final(self).spec_inventory(new_owner).contains(kitty_id)
                &&& forall|o: u64| #![auto]
                    o != who && o != new_owner ==> final(self).spec_inventory(o) == old(self).spec_inventory(o)
                &&& new_owner != who ==> {
                    &&& final(self).balances.spec_free(new_owner) == old(self).balances.spec_free(
                        new_owner,
                    ) - old(self).config.stake
                    &&& final(self).balances.spec_reserved(new_owner) == old(self).balances.spec_reserved(new_owner) + old(self).config.stake
                    &&& final(self).balances.spec_free(who) == old(self).balances.spec_free(who)
                        + old(self).config.stake
                    &&& final(self).balances.spec_reserved(who) == old(self).balances.spec_reserved(who) - old(self).config.stake
                }
                &&& new_owner == who ==> forall|o: u64| #![auto]
                    final(self).balances.spec_free(o) == old(self).balances.spec_free(o) && final(self).balances.spec_reserved(o) == old(self).balances.spec_reserved(o)
                &&& forall|o: u64| #![auto]
                    o != who && o != new_owner ==> final(self).balances.spec_free(o) == old(self).balances.spec_free(o) && final(self).balances.spec_reserved(o) == old(self).balances.spec_reserved(o)
                &&& final(self).events@ == old(self).events@.push(
                    Event::KittyTransferred(who, new_owner, kitty_id),
                )
            }),
    {
        let stake = self.config.stake;
        match self.get_kitty(kitty_id) {
            Ok(_) => {},
            Err(()) => {
                return Err(Error::InvalidId);
            },
        }
        let is_owner = match self.owner_by_id.get(&kitty_id) {
            Some(o) => *o == who,
            None => false,
        };
        if !is_owner {
            return Err(Error::NotOwner);
        }
        // Where the asset sits in the caller's inventory. The invariants make
        // the search succeed; a miss would be an index/owner-map disagreement,
        // conservatively read as not owning the asset.
        let pos_opt = match self.inventory_by_owner.get(&who) {
            Some(inv) => inv.position_of(kitty_id),
            None => None,
        };
        let pos = match pos_opt {
            Some(p) => p,
            None => {
                proof {
                    let s = old(self).spec_inventory(who);
                    assert(s.contains(kitty_id));
                    let i = choose|i: int| 0 <= i < s.len() && s[i] == kitty_id;
                    assert(false);
                }
                return Err(Error::NotOwner);
            },
        };
        if self.balances.free_balance(new_owner) < stake {
            return Err(Error::StakeNotEnough);
        }
        if new_owner != who {
            if self.inventory_len(new_owner) >= MAX_OWNER_KITTIES {
                return Err(Error::ExceedMaxOwnerKitties);
            }
        }
        proof {
            assert(old(self).spec_inventory(who).len() <= MAX_OWNER_KITTIES);
        }
        // Every precondition holds: apply the whole transition.
        self.remove_inventory_at(who, pos);
        match self.balances.reserve(new_owner, stake) {
            Ok(()) => {},
            Err(()) => {
                return Err(Error::StakeNotEnough);
            },
        }
        proof {
            // The caller's escrow covers one stake, so releasing it below
            // moves back exactly one stake.
            if new_owner != who {
                let l = old(self).spec_inventory(who).len() as int;
                let sti = old(self).config.stake as int;
                assert(old(self).balances.spec_reserved(who) == l * sti);
                assert(sti <= l * sti) by (nonlinear_arith)
                    requires
                        1 <= l,
                        0 <= sti,
                ;
            }
            assert(self.balances.spec_reserved(who) >= stake);
        }
        self.owner_by_id.insert(kitty_id, new_owner);
        self.balances.unreserve(who, stake);
        self.push_inventory(new_owner, kitty_id);
        self.events.push(Event::KittyTransferred(who, new_owner, kitty_id));
        proof {
            let t0 = *old(self);
            let st = t0.config.stake;
            let s_who = t0.spec_inventory(who);
            let p = pos as int;
            let n = s_who.len() as int;
            let removed = crate::inventory::swap_removed(s_who, p);
            assert(0 <= p < n && s_who[p] == kitty_id);
            assert(t0.owner_by_id@[kitty_id] == who);
            // kitty_id sits nowhere else in the caller's inventory
            assert forall|j: int| 0 <= j < n && j != p implies s_who[j] != kitty_id by {
                if j > p {
                    assert(s_who[p] != s_who[j]);
                }
            }
            // every entry that survives the unordered removal is some other
            // asset of the caller's
            assert(removed.len() == n - 1);
            assert forall|j: int|
                0 <= j < n - 1 implies removed[j] != kitty_id && t0.owner_by_id@.contains_key(
                removed[j],
            ) && t0.owner_by_id@[removed[j]] == who by {
                if j != p {
                    assert(removed[j] == s_who[j]);
                } else {
                    assert(removed[p] == s_who[n - 1]);
                }
            }
            // the final inventories, pointwise
            if new_owner == who {
                assert(self.spec_inventory(who) =~= removed.push(kitty_id));
            } else {
                assert(self.spec_inventory(who) =~= removed);
                assert(self.spec_inventory(new_owner) =~= t0.spec_inventory(new_owner).push(
                    kitty_id,
                ));
            }
            assert forall|o: u64|
                o != who && o != new_owner implies self.spec_inventory(o) == t0.spec_inventory(
                o,
            ) by {}
            assert(self.owner_by_id@ == t0.owner_by_id@.insert(kitty_id, new_owner));
            assert(self.kitty_by_id == t0.kitty_by_id);
            // ownership records and asset records cover the same ids
            assert forall|i: u32| #![auto]
                self.kitty_by_id@.contains_key(i) <==> self.owner_by_id@.contains_key(i) by {
                assert(t0.kitty_by_id@.contains_key(i) <==> t0.owner_by_id@.contains_key(i));
            }
            // every owned asset is listed in its owner's inventory
            assert forall|i: u32| #![auto]
                self.owner_by_id@.contains_key(i) implies self.spec_inventory(
                self.owner_by_id@[i],
            ).contains(i) by {
                if i == kitty_id {
                    if new_owner == who {
                        assert(self.spec_inventory(who)[n - 1] == kitty_id);
                    } else {
                        assert(self.spec_inventory(new_owner)[t0.spec_inventory(
                            new_owner,
                        ).len() as int] == kitty_id);
                    }
                } else {
                    let o = t0.owner_by_id@[i];
                    assert(t0.spec_inventory(o).contains(i));
                    let k = choose|k: int|
                        0 <= k < t0.spec_inventory(o).len() && t0.spec_inventory(o)[k] == i;
                    if o == who {
                        assert(k != p);
                        if k < n - 1 {
                            assert(removed[k] == s_who[k]);
                            assert(self.spec_inventory(who)[k] == i);
                        } else {
                            assert(p < n - 1);
                            assert(removed[p] == s_who[n - 1]);
                            assert(self.spec_inventory(who)[p] == i);
                        }
                    } else if o == new_owner {
                        assert(self.spec_inventory(new_owner)[k] == i);
                    } else {
                        assert(self.spec_inventory(o)[k] == i);
                    }
                }
            }
            // every inventory entry points back at its owner
            assert forall|o: u64, j: int| #![auto]
                0 <= j < self.spec_inventory(o).len() implies self.owner_by_id@.contains_key(
                self.spec_inventory(o)[j],
            ) && self.owner_by_id@[self.spec_inventory(o)[j]] == o by {
                if o == who && new_owner != who {
                    assert(self.spec_inventory(who)[j] == removed[j]);
                    assert(removed[j] != kitty_id);
                } else if o == who && new_owner == who {
                    if j < n - 1 {
                        assert(self.spec_inventory(who)[j] == removed[j]);
                        assert(removed[j] != kitty_id);
                    } else {
                        assert(self.spec_inventory(who)[j] == kitty_id);
                    }
                } else if o == new_owner {
                    if j < t0.spec_inventory(new_owner).len() {
                        let e = t0.spec_inventory(new_owner)[j];
                        assert(t0.owner_by_id@.contains_key(e) && t0.owner_by_id@[e] == o);
                        assert(e != kitty_id);
                    } else {
                        assert(self.spec_inventory(new_owner)[j] == kitty_id);
                    }
                } else {
                    let e = t0.spec_inventory(o)[j];
                    assert(t0.owner_by_id@.contains_key(e) && t0.owner_by_id@[e] == o);
                    assert(e != kitty_id);
                }
            }
            // capacity still holds everywhere
            assert forall|o: u64| #![auto]
                self.spec_inventory(o).len() <= MAX_OWNER_KITTIES by {
                assert(t0.spec_inventory(o).len() <= MAX_OWNER_KITTIES);
            }
            // no inventory lists an id twice
            assert forall|o: u64, j: int, k2: int| #![auto]
                0 <= j < k2 < self.spec_inventory(o).len() implies self.spec_inventory(o)[j]
                != self.spec_inventory(o)[k2] by {
                if o == who {
                    if k2 < n - 1 {
                        // both entries survive the removal
                        if j != p && k2 != p {
                            assert(s_who[j] != s_who[k2]);
                        } else if j == p {
                            assert(removed[p] == s_who[n - 1]);
                            assert(s_who[k2] != s_who[n - 1]);
                        } else {
                            assert(removed[p] == s_who[n - 1]);
                            assert(s_who[j] != s_who[n - 1]);
                        }
                    } else {
                        // only in a self-transfer: the re-appended id is fresh
                        assert(self.spec_inventory(who)[k2] == kitty_id);
                        assert(removed[j] != kitty_id);
                    }
                } else if o == new_owner {
                    if k2 < t0.spec_inventory(new_owner).len() {
                        assert(t0.spec_inventory(new_owner)[j] != t0.spec_inventory(new_owner)[k2]);
                    } else {
                        let e = t0.spec_inventory(new_owner)[j];
                        assert(t0.owner_by_id@.contains_key(e) && t0.owner_by_id@[e] == new_owner);
                        assert(e != kitty_id);
                        assert(self.spec_inventory(new_owner)[k2] == kitty_id);
                    }
                } else {
                    assert(t0.spec_inventory(o)[j] != t0.spec_inventory(o)[k2]);
                }
            }
            // the allocator still bounds every id
            assert forall|i: u32| #![auto]
                self.kitty_by_id@.contains_key(i) implies self.next_id is Some && i
                < self.spec_next_id() by {
                assert(t0.kitty_by_id@.contains_key(i));
            }
            // the escrow balances the inventories
            assert forall|o: u64| #![auto]
                self.balances.spec_reserved(o) == self.spec_inventory(o).len()
                * self.config.stake by {
                let sti = st as int;
                if o == who && new_owner != who {
                    assert(t0.balances.spec_reserved(who) == n * sti);
                    assert((n - 1) * sti == n * sti - sti) by (nonlinear_arith);
                    assert(self.balances.spec_reserved(who) == t0.balances.spec_reserved(who)
                        - st);
                    assert(self.spec_inventory(who).len() == n - 1);
                } else if o == new_owner && new_owner != who {
                    let l2 = t0.spec_inventory(new_owner).len() as int;
                    assert(t0.balances.spec_reserved(new_owner) == l2 * sti);
                    assert((l2 + 1) * sti == l2 * sti + sti) by (nonlinear_arith);
                    assert(self.balances.spec_reserved(new_owner) == t0.balances.spec_reserved(
                        new_owner,
                    ) + st);
                } else if o == who {
                    assert(self.balances.spec_reserved(who) == t0.balances.spec_reserved(who));
                    assert(self.spec_inventory(who).len() == s_who.len());
                    assert(t0.balances.spec_reserved(who) == n * sti);
                } else {
                    assert(t0.balances.spec_reserved(o) == t0.spec_inventory(o).len() * sti);
                    assert(self.balances.spec_reserved(o) == t0.balances.spec_reserved(o));
                    assert(self.spec_inventory(o) == t0.spec_inventory(o));
                }
            }
            // the witness for the removal position, as the contract states it
            assert({
                &&& 0 <= p < s_who.len()
                &&& s_who[p] == kitty_id
                &&& (forall|j: int| 0 <= j < p ==> s_who[j] != kitty_id)
                &&& self.spec_inventory(who) == (if new_owner == who {
                    crate::inventory::swap_removed(s_who, p).push(kitty_id)
                } else {
                    crate::inventory::swap_removed(s_who, p)
                })
            });
            if new_owner != who {
                assert forall|j: int|
                    0 <= j < self.spec_inventory(who).len() implies self.spec_inventory(who)[j]
                    != kitty_id by {
                    assert(removed[j] != kitty_id);
                }
                assert(!self.spec_inventory(who).contains(kitty_id));
                assert(self.spec_inventory(new_owner)[t0.spec_inventory(new_owner).len() as int]
                    == kitty_id);
            } else {
                assert(self.spec_inventory(who)[n - 1] == kitty_id);
            }
            assert(self.spec_inventory(new_owner).contains(kitty_id));
        }
        Ok(())
    }
}

} // verus!
