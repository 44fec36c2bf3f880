use vstd::prelude::*;
use vstd::math::min;
use std::collections::HashMap;

verus! {

broadcast use vstd::std_specs::hash::group_hash_axioms;

/// One account on the ledger: spendable funds plus funds held in escrow.
#[derive(Clone, Copy, Debug)]
pub struct AccountBalance {
    pub free: u64,
    pub reserved: u64,
}

/// A fungible-balance ledger with reserve/unreserve escrow primitives.
///
/// `reserve` moves funds from spendable to escrow and refuses when the
/// spendable funds do not cover the amount; `unreserve` moves funds back,
/// capped at what is actually held in escrow. An account that was never
/// touched holds nothing.
#[derive(Debug)]
pub struct Balances {
    pub accounts: HashMap<u64, AccountBalance>,
}

impl Balances {
    /// Spendable funds of `who`; an unknown account holds nothing.
    pub open spec fn spec_free(self, who: u64) -> u64 {
        if self.accounts@.contains_key(who) {
            self.accounts@[who].free
        } else {
            0
        }
    }

    /// Funds of `who` held in escrow; an unknown account holds nothing.
    pub open spec fn spec_reserved(self, who: u64) -> u64 {
        if self.accounts@.contains_key(who) {
            self.accounts@[who].reserved
        } else {
            0
        }
    }

    /// No account's total holdings exceed the balance type: moving funds
    /// between the spendable and the escrowed side can then never overflow.
    pub open spec fn wf(self) -> bool {
        forall|o: u64| #![auto] self.spec_free(o) + self.spec_reserved(o) <= u64::MAX
    }

    /// An empty ledger.
    pub fn new() -> (r: Balances)
        ensures
            r.wf(),
            forall|o: u64| #![auto] r.spec_free(o) == 0 && r.spec_reserved(o) == 0,
    {
        Balances { accounts: HashMap::new() }
    }

    /// Sets `who`'s spendable funds outright, clearing any reservation.
    /// This is the genesis/inspection surface of the ledger, not a transition.
    pub fn set_balance(&mut self, who: u64, amount: u64)
        ensures
            final(self).spec_free(who) == amount,
            final(self).spec_reserved(who) == 0,
            forall|o: u64| #![auto] o != who ==> final(self).spec_free(o) == old(self).spec_free(
                o,
            ) && final(self).spec_reserved(o) == old(self).spec_reserved(o),
            old(self).wf() ==> final(self).wf(),
    {
        self.accounts.insert(who, AccountBalance { free: amount, reserved: 0 });
        proof {
            if old(self).wf() {
                assert forall|o: u64| #![auto]
                    self.spec_free(o) + self.spec_reserved(o) <= u64::MAX by {
                    if o != who {
                        assert(old(self).spec_free(o) + old(self).spec_reserved(o) <= u64::MAX);
                    }
                }
            }
        }
    }

    /// `who`'s spendable funds.
    pub fn free_balance(&self, who: u64) -> (r: u64)
        ensures
            r == self.spec_free(who),
    {
        match self.accounts.get(&who) {
            Some(b) => b.free,
            None => 0,
        }
    }

    /// `who`'s escrowed funds.
    pub fn reserved_balance(&self, who: u64) -> (r: u64)
        ensures
            r == self.spec_reserved(who),
    {
        match self.accounts.get(&who) {
            Some(b) => b.reserved,
            None => 0,
        }
    }

    /// Moves `amount` of `who`'s funds into escrow. Refuses, changing
    /// nothing, exactly when the spendable funds do not cover the amount.
    pub fn reserve(&mut self, who: u64, amount: u64) -> (r: Result<(), ()>)
        requires
            old(self).wf(),
        ensures
            final(self).wf(),
            r is Ok <==> amount <= old(self).spec_free(who),
            r is Ok ==> final(self).spec_free(who) == old(self).spec_free(who) - amount
                && final(self).spec_reserved(who) == old(self).spec_reserved(who) + amount,
            r is Err ==> *final(self) == *old(self),
            forall|o: u64| #![auto] o != who ==> final(self).spec_free(o) == old(self).spec_free(
                o,
            ) && final(self).spec_reserved(o) == old(self).spec_reserved(o),
    {
        let current = match self.accounts.get(&who) {
            Some(b) => *b,
            None => AccountBalance { free: 0, reserved: 0 },
        };
        if amount <= current.free {
            proof {
                assert(old(self).spec_free(who) + old(self).spec_reserved(who) <= u64::MAX);
            }
            let updated = AccountBalance {
                free: current.free - amount,
                reserved: current.reserved + amount,
            };
            self.accounts.insert(who, updated);
            proof {
                assert forall|o: u64| #![auto]
                    self.spec_free(o) + self.spec_reserved(o) <= u64::MAX by {
                    assert(old(self).spec_free(o) + old(self).spec_reserved(o) <= u64::MAX);
                }
            }
            Ok(())
        } else {
            Err(())
        }
    }

    /// Moves funds of `who` back out of escrow: `amount`, capped at what is
    /// actually escrowed. Never fails.
    pub fn unreserve(&mut self, who: u64, amount: u64)
        requires
            old(self).wf(),
        ensures
            final(self).wf(),
            final(self).spec_reserved(who) == old(self).spec_reserved(who) - min(
                amount as int,
                old(self).spec_reserved(who) as int,
            ),
            final(self).spec_free(who) == old(self).spec_free(who) + min(
                amount as int,
                old(self).spec_reserved(who) as int,
            ),
            forall|o: u64| #![auto] o != who ==> final(self).spec_free(o) == old(self).spec_free(
                o,
            ) && final(self).spec_reserved(o) == old(self).spec_reserved(o),
    {
        let current = match self.accounts.get(&who) {
            Some(b) => *b,
            None => AccountBalance { free: 0, reserved: 0 },
        };
        let moved = if amount <= current.reserved {
            amount
        } else {
            current.reserved
        };
        proof {
            assert(old(self).spec_free(who) + old(self).spec_reserved(who) <= u64::MAX);
        }
        let updated = AccountBalance {
            free: current.free + moved,
            reserved: current.reserved - moved,
        };
        self.accounts.insert(who, updated);
        proof {
            assert forall|o: u64| #![auto]
                self.spec_free(o) + self.spec_reserved(o) <= u64::MAX by {
                assert(old(self).spec_free(o) + old(self).spec_reserved(o) <= u64::MAX);
            }
        }
    }
}

} // verus!
