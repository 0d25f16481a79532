//! The record of who gave how much.

use crate::address::Address;
use crate::big_uint::BigUint;
use vstd::prelude::*;

verus! {

/// One donor and the amount they currently have on deposit.
struct Entry {
    donor: Address,
    amount: BigUint,
}

/// The amount that the entries hold for `donor`; zero where none names them.
spec fn lookup(entries: Seq<Entry>, donor: Address) -> nat
    decreases entries.len(),
{
    if entries.len() == 0 {
        0
    } else if entries.last().donor == donor {
        entries.last().amount@
    } else {
        lookup(entries.drop_last(), donor)
    }
}

/// No donor is named by two entries.
spec fn distinct(entries: Seq<Entry>) -> bool {
    forall|i: int, j: int| 0 <= i < j < entries.len() ==> entries[i].donor != entries[j].donor
}

proof fn lemma_lookup_absent(entries: Seq<Entry>, donor: Address)
    requires
        forall|i: int| 0 <= i < entries.len() ==> entries[i].donor != donor,
    ensures
        lookup(entries, donor) == 0,
    decreases entries.len(),
{
    if entries.len() > 0 {
        lemma_lookup_absent(entries.drop_last(), donor);
    }
}

proof fn lemma_lookup_present(entries: Seq<Entry>, i: int)
    requires
        distinct(entries),
        0 <= i < entries.len(),
    ensures
        lookup(entries, entries[i].donor) == entries[i].amount@,
    decreases entries.len(),
{
    if i < entries.len() - 1 {
        assert(entries.drop_last()[i] == entries[i]);
        lemma_lookup_present(entries.drop_last(), i);
    }
}

/// Replacing the entry of one donor leaves what every other donor has.
proof fn lemma_lookup_after_update(entries: Seq<Entry>, i: int, entry: Entry, donor: Address)
    requires
        0 <= i < entries.len(),
        entries[i].donor == entry.donor,
        donor != entry.donor,
    ensures
        lookup(entries.update(i, entry), donor) == lookup(entries, donor),
    decreases entries.len(),
{
    let updated = entries.update(i, entry);
    if i == entries.len() - 1 {
        assert(updated.drop_last() =~= entries.drop_last());
    } else {
        assert(updated.last() == entries.last());
        assert(updated.drop_last() =~= entries.drop_last().update(i, entry));
        lemma_lookup_after_update(entries.drop_last(), i, entry, donor);
    }
}

/// For every identity the amount it has on deposit. An identity that never
/// gave reads as zero, exactly like one whose deposit was cleared.
pub struct Ledger {
    entries: Vec<Entry>,
}

impl View for Ledger {
    type V = Map<Address, nat>;

    /// The deposits as a map defined on every identity.
    closed spec fn view(&self) -> Map<Address, nat> {
        Map::total(|donor: Address| lookup(self.entries@, donor))
    }
}

impl Ledger {
    #[verifier::type_invariant]
    spec fn well_formed(&self) -> bool {
        distinct(self.entries@)
    }

    /// A ledger in which nobody has anything on deposit.
    pub fn new() -> (ledger: Self)
        ensures
            ledger@ == Map::total(|donor: Address| 0nat),
    {
        let ledger = Ledger { entries: Vec::new() };
        proof {
            assert(ledger@ =~= Map::total(|donor: Address| 0nat));
        }
        ledger
    }

    /// Where the entry of `donor` stands, if there is one.
    fn position(&self, donor: &Address) -> (at: Option<usize>)
        ensures
            match at {
                Some(i) => i < self.entries@.len() && self.entries@[i as int].donor == *donor,
                None => forall|j: int|
                    0 <= j < self.entries@.len() ==> self.entries@[j].donor != *donor,
            },
    {
        let mut i: usize = 0;
        while i < self.entries.len()
            invariant
                i <= self.entries@.len(),
                forall|j: int| 0 <= j < i ==> self.entries@[j].donor != *donor,
            decreases self.entries@.len() - i,
        {
            if self.entries[i].donor == *donor {
                return Some(i);
            }
            i += 1;
        }
        None
    }

    /// The amount that `donor` has on deposit.
    pub fn get(&self, donor: &Address) -> (amount: BigUint)
        ensures
            amount@ == self@[*donor],
    {
        proof {
            use_type_invariant(self);
        }
        match self.position(donor) {
            Some(i) => {
                proof {
                    lemma_lookup_present(self.entries@, i as int);
                }
                self.entries[i].amount.clone()
            },
            None => {
                proof {
                    lemma_lookup_absent(self.entries@, *donor);
                }
                BigUint::zero()
            },
        }
    }

    /// Adds `amount` to what `donor` has on deposit. Nobody else's deposit
    /// changes.
    pub fn increase(&mut self, donor: &Address, amount: &BigUint)
        ensures
            final(self)@ == old(self)@.insert(*donor, old(self)@[*donor] + amount@),
    {
        proof {
            use_type_invariant(&*self);
        }
        let ghost before = self.entries@;
        match self.position(donor) {
            Some(i) => {
                let sum: BigUint = self.entries[i].amount.add(amount);
                let entry = Entry { donor: *donor, amount: sum };
                let mut entries: Vec<Entry> = Vec::new();
                core::mem::swap(&mut self.entries, &mut entries);
                entries.set(i, entry);
                self.entries = entries;
                proof {
                    lemma_lookup_present(before, i as int);
                    lemma_lookup_present(self.entries@, i as int);
                    assert forall|d: Address| d != *donor implies lookup(self.entries@, d)
                        == lookup(before, d) by {
                        lemma_lookup_after_update(before, i as int, entry, d);
                    }
                }
            },
            None => {
                let entry = Entry { donor: *donor, amount: amount.clone() };
                let mut entries: Vec<Entry> = Vec::new();
                core::mem::swap(&mut self.entries, &mut entries);
                entries.push(entry);
                self.entries = entries;
                proof {
                    lemma_lookup_absent(before, *donor);
                    assert(self.entries@.drop_last() =~= before);
                }
            },
        }
        proof {
            assert(self@ =~= old(self)@.insert(*donor, old(self)@[*donor] + amount@));
        }
    }

    /// Sets what `donor` has on deposit to zero. Nobody else's deposit
    /// changes, and clearing twice is the same as clearing once.
    pub fn clear(&mut self, donor: &Address)
        ensures
            final(self)@ == old(self)@.insert(*donor, 0),
    {
        proof {
            use_type_invariant(&*self);
        }
        let ghost before = self.entries@;
        match self.position(donor) {
            Some(i) => {
                let entry = Entry { donor: *donor, amount: BigUint::zero() };
                let mut entries: Vec<Entry> = Vec::new();
                core::mem::swap(&mut self.entries, &mut entries);
                entries.set(i, entry);
                self.entries = entries;
                proof {
                    lemma_lookup_present(self.entries@, i as int);
                    assert forall|d: Address| d != *donor implies lookup(self.entries@, d)
                        == lookup(before, d) by {
                        lemma_lookup_after_update(before, i as int, entry, d);
                    }
                }
            },
            None => {
                proof {
                    lemma_lookup_absent(before, *donor);
                }
            },
        }
        proof {
            assert(self@ =~= old(self)@.insert(*donor, 0));
        }
    }
}

} // verus!
