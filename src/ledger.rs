use vstd::prelude::*;

use crate::account::AccountId;

verus! {

/// Failures of the share ledger.
#[derive(Clone, Copy, Debug, PartialEq, Eq, Structural)]
pub enum PSP22Error {
    InsufficientBalance,
    InsufficientAllowance,
}

/// The total of the amounts in a balance table.
pub open spec fn sum_of(s: Seq<(AccountId, u128)>) -> int
    decreases s.len(),
{
    if s.len() == 0 {
        0
    } else {
        sum_of(s.drop_last()) + s.last().1
    }
}

/// No account stands twice in a balance table.
pub open spec fn unique_owners(s: Seq<(AccountId, u128)>) -> bool {
    forall|i: int, j: int| 0 <= i < j < s.len() ==> s[i].0 != s[j].0
}

/// No (owner, spender) couple stands twice in an allowance table.
pub open spec fn unique_grants(s: Seq<(AccountId, AccountId, u128)>) -> bool {
    forall|i: int, j: int| 0 <= i < j < s.len() ==> (s[i].0, s[i].1) != (s[j].0, s[j].1)
}

/// What a balance table holds for `a`: zero where it has no entry.
pub open spec fn amount_in(s: Seq<(AccountId, u128)>, a: AccountId) -> nat {
    if exists|i: int| 0 <= i < s.len() && s[i].0 == a {
        s[choose|i: int| 0 <= i < s.len() && s[i].0 == a].1 as nat
    } else {
        0
    }
}

/// What an allowance table holds for `owner` and `spender`.
pub open spec fn granted_in(
    s: Seq<(AccountId, AccountId, u128)>,
    owner: AccountId,
    spender: AccountId,
) -> nat {
    if exists|i: int| 0 <= i < s.len() && s[i].0 == owner && s[i].1 == spender {
        s[choose|i: int| 0 <= i < s.len() && s[i].0 == owner && s[i].1 == spender].2 as nat
    } else {
        0
    }
}

proof fn lemma_amount_at(s: Seq<(AccountId, u128)>, i: int)
    requires
        unique_owners(s),
        0 <= i < s.len(),
    ensures
        amount_in(s, s[i].0) == s[i].1,
{
}

proof fn lemma_granted_at(s: Seq<(AccountId, AccountId, u128)>, i: int)
    requires
        unique_grants(s),
        0 <= i < s.len(),
    ensures
        granted_in(s, s[i].0, s[i].1) == s[i].2,
{
}

proof fn lemma_sum_update(s: Seq<(AccountId, u128)>, i: int, v: u128)
    requires
        0 <= i < s.len(),
    ensures
        sum_of(s.update(i, (s[i].0, v))) == sum_of(s) - s[i].1 + v,
    decreases s.len(),
{
    let t = s.update(i, (s[i].0, v));
    if i == s.len() - 1 {
        assert(t.drop_last() =~= s.drop_last());
    } else {
        lemma_sum_update(s.drop_last(), i, v);
        assert(t.drop_last() =~= s.drop_last().update(i, (s[i].0, v)));
    }
}

proof fn lemma_entry_within_sum(s: Seq<(AccountId, u128)>, i: int)
    requires
        0 <= i < s.len(),
    ensures
        s[i].1 <= sum_of(s),
    decreases s.len(),
{
    if i < s.len() - 1 {
        lemma_entry_within_sum(s.drop_last(), i);
    }
    lemma_sum_nonneg(s.drop_last());
}

proof fn lemma_sum_nonneg(s: Seq<(AccountId, u128)>)
    ensures
        sum_of(s) >= 0,
    decreases s.len(),
{
    if s.len() > 0 {
        lemma_sum_nonneg(s.drop_last());
    }
}

/// The ledger of liquidity shares: balances, allowances and the total supply.
pub struct Psp22Ledger {
    balances: Vec<(AccountId, u128)>,
    allowances: Vec<(AccountId, AccountId, u128)>,
    supply: u128,
}

impl Psp22Ledger {
    /// The shares held by `a`.
    pub closed spec fn balance(self, a: AccountId) -> nat {
        amount_in(self.balances@, a)
    }

    /// What `spender` may still move out of `owner`'s shares.
    pub closed spec fn allowance(self, owner: AccountId, spender: AccountId) -> nat {
        granted_in(self.allowances@, owner, spender)
    }

    /// The total number of shares.
    pub closed spec fn supply(self) -> nat {
        self.supply as nat
    }

    /// The total supply is the sum of all balances.
    pub closed spec fn wf(self) -> bool {
        &&& unique_owners(self.balances@)
        &&& unique_grants(self.allowances@)
        &&& sum_of(self.balances@) == self.supply
    }

    /// Every balance is at most the total supply.
    pub proof fn lemma_balance_within_supply(self, a: AccountId)
        requires
            self.wf(),
        ensures
            self.balance(a) <= self.supply(),
    {
        let s = self.balances@;
        if exists|i: int| 0 <= i < s.len() && s[i].0 == a {
            let i = choose|i: int| 0 <= i < s.len() && s[i].0 == a;
            lemma_entry_within_sum(s, i);
        }
    }

    /// The total supply fits in 128 bits.
    pub proof fn lemma_supply_fits(self)
        ensures
            self.supply() <= u128::MAX,
    {
    }

    pub fn new() -> (r: Psp22Ledger)
        ensures
            r.wf(),
            r.supply() == 0,
            forall|a: AccountId| r.balance(a) == 0,
            forall|o: AccountId, s: AccountId| r.allowance(o, s) == 0,
    {
        Psp22Ledger { balances: Vec::new(), allowances: Vec::new(), supply: 0 }
    }

    fn find_owner(&self, a: &AccountId) -> (r: Option<usize>)
        requires
            self.wf(),
        ensures
            match r {
                Some(i) => i < self.balances@.len() && self.balances@[i as int].0 == *a,
                None => forall|i: int| 0 <= i < self.balances@.len() ==> self.balances@[i].0 != *a,
            },
    {
        let mut i: usize = 0;
        while i < self.balances.len()
            invariant
                i <= self.balances@.len(),
                forall|j: int| 0 <= j < i ==> self.balances@[j].0 != *a,
            decreases self.balances@.len() - i,
        {
            if self.balances[i].0 == *a {
                return Some(i);
            }
            i = i + 1;
        }
        None
    }

    fn find_grant(&self, owner: &AccountId, spender: &AccountId) -> (r: Option<usize>)
        requires
            self.wf(),
        ensures
            match r {
                Some(i) => i < self.allowances@.len() && self.allowances@[i as int].0 == *owner
                    && self.allowances@[i as int].1 == *spender,
                None => forall|i: int|
                    0 <= i < self.allowances@.len() ==> !(self.allowances@[i].0 == *owner
                        && self.allowances@[i].1 == *spender),
            },
    {
        let mut i: usize = 0;
        while i < self.allowances.len()
            invariant
                i <= self.allowances@.len(),
                forall|j: int|
                    0 <= j < i ==> !(self.allowances@[j].0 == *owner && self.allowances@[j].1
                        == *spender),
            decreases self.allowances@.len() - i,
        {
            if self.allowances[i].0 == *owner && self.allowances[i].1 == *spender {
                return Some(i);
            }
            i = i + 1;
        }
        None
    }

    pub fn balance_of(&self, a: &AccountId) -> (r: u128)
        requires
            self.wf(),
        ensures
            r == self.balance(*a),
    {
        match self.find_owner(a) {
            Some(i) => {
                proof {
                    lemma_amount_at(self.balances@, i as int);
                }
                self.balances[i].1
            },
            None => 0,
        }
    }

    pub fn allowance_of(&self, owner: &AccountId, spender: &AccountId) -> (r: u128)
        requires
            self.wf(),
        ensures
            r == self.allowance(*owner, *spender),
    {
        match self.find_grant(owner, spender) {
            Some(i) => {
                proof {
                    lemma_granted_at(self.allowances@, i as int);
                }
                self.allowances[i].2
            },
            None => 0,
        }
    }

    pub fn total_supply(&self) -> (r: u128)
        ensures
            r == self.supply(),
    {
        self.supply
    }

    /// Sets the balance of `a`, moving the total supply by the difference.
    fn set_balance(&mut self, a: &AccountId, v: u128)
        requires
            old(self).wf(),
            old(self).supply() - old(self).balance(*a) + v <= u128::MAX,
        ensures
            final(self).wf(),
            final(self).balance(*a) == v,
            forall|b: AccountId| b != *a ==> final(self).balance(b) == old(self).balance(b),
            final(self).supply() == old(self).supply() - old(self).balance(*a) + v,
            final(self).allowances == old(self).allowances,
    {
        let ghost s0 = self.balances@;
        match self.find_owner(a) {
            Some(i) => {
                proof {
                    lemma_amount_at(s0, i as int);
                    lemma_sum_update(s0, i as int, v);
                    lemma_entry_within_sum(s0, i as int);
                }
                let old_v = self.balances[i].1;
                self.balances.set(i, (*a, v));
                self.supply = self.supply - old_v + v;
                proof {
                    let s1 = self.balances@;
                    assert(s1 == s0.update(i as int, (s0[i as int].0, v)));
                    lemma_amount_at(s1, i as int);
                    assert forall|b: AccountId| b != *a implies amount_in(s1, b) == amount_in(s0, b) by {
                        if exists|k: int| 0 <= k < s0.len() && s0[k].0 == b {
                            let k = choose|k: int| 0 <= k < s0.len() && s0[k].0 == b;
                            lemma_amount_at(s0, k);
                            lemma_amount_at(s1, k);
                        } else {
                            assert(!exists|k: int| 0 <= k < s1.len() && s1[k].0 == b);
                        }
                    }
                }
            },
            None => {
                self.balances.push((*a, v));
                self.supply = self.supply + v;
                proof {
                    let s1 = self.balances@;
                    assert(s1.drop_last() =~= s0);
                    lemma_amount_at(s1, s0.len() as int);
                    assert forall|b: AccountId| b != *a implies amount_in(s1, b) == amount_in(s0, b) by {
                        if exists|k: int| 0 <= k < s0.len() && s0[k].0 == b {
                            let k = choose|k: int| 0 <= k < s0.len() && s0[k].0 == b;
                            lemma_amount_at(s0, k);
                            lemma_amount_at(s1, k);
                        } else {
                            assert(!exists|k: int| 0 <= k < s1.len() && s1[k].0 == b);
                        }
                    }
                }
            },
        }
    }

    /// Sets what `spender` may move out of `owner`'s shares.
    pub fn approve_from_to(&mut self, owner: &AccountId, spender: &AccountId, amount: u128)
        requires
            old(self).wf(),
        ensures
            final(self).wf(),
            final(self).allowance(*owner, *spender) == amount,
            forall|o: AccountId, s: AccountId|
                !(o == *owner && s == *spender) ==> final(self).allowance(o, s) == old(self).allowance(o, s),
            forall|b: AccountId| final(self).balance(b) == old(self).balance(b),
            final(self).supply() == old(self).supply(),
    {
        let ghost s0 = self.allowances@;
        match self.find_grant(owner, spender) {
            Some(i) => {
                self.allowances.set(i, (*owner, *spender, amount));
                proof {
                    let s1 = self.allowances@;
                    lemma_granted_at(s1, i as int);
                    assert forall|o: AccountId, s: AccountId|
                        !(o == *owner && s == *spender) implies granted_in(s1, o, s) == granted_in(s0, o, s) by {
                        if exists|k: int| 0 <= k < s0.len() && s0[k].0 == o && s0[k].1 == s {
                            let k = choose|k: int| 0 <= k < s0.len() && s0[k].0 == o && s0[k].1 == s;
                            lemma_granted_at(s0, k);
                            lemma_granted_at(s1, k);
                        } else {
                            assert(!exists|k: int| 0 <= k < s1.len() && s1[k].0 == o && s1[k].1 == s);
                        }
                    }
                }
            },
            None => {
                self.allowances.push((*owner, *spender, amount));
                proof {
                    let s1 = self.allowances@;
                    lemma_granted_at(s1, s0.len() as int);
                    assert forall|o: AccountId, s: AccountId|
                        !(o == *owner && s == *spender) implies granted_in(s1, o, s) == granted_in(s0, o, s) by {
                        if exists|k: int| 0 <= k < s0.len() && s0[k].0 == o && s0[k].1 == s {
                            let k = choose|k: int| 0 <= k < s0.len() && s0[k].0 == o && s0[k].1 == s;
                            lemma_granted_at(s0, k);
                            lemma_granted_at(s1, k);
                        } else {
                            assert(!exists|k: int| 0 <= k < s1.len() && s1[k].0 == o && s1[k].1 == s);
                        }
                    }
                }
            },
        }
    }
    /// Creates `amount` new shares for `a`.
    pub fn mint_to(&mut self, a: &AccountId, amount: u128)
        requires
            old(self).wf(),
            old(self).supply() + amount <= u128::MAX,
        ensures
            final(self).wf(),
            final(self).balance(*a) == old(self).balance(*a) + amount,
            forall|b: AccountId| b != *a ==> final(self).balance(b) == old(self).balance(b),
            final(self).supply() == old(self).supply() + amount,
            forall|o: AccountId, s: AccountId| final(self).allowance(o, s) == old(self).allowance(o, s),
    {
        proof {
            self.lemma_balance_within_supply(*a);
        }
        let v = self.balance_of(a);
        self.set_balance(a, v + amount);
    }

    /// Destroys `amount` of the shares of `a`.
    pub fn burn_from(&mut self, a: &AccountId, amount: u128) -> (r: Result<(), PSP22Error>)
        requires
            old(self).wf(),
        ensures
            final(self).wf(),
            r is Err <==> old(self).balance(*a) < amount,
            r is Err ==> r == Err::<(), PSP22Error>(PSP22Error::InsufficientBalance) && *final(self) == *old(self),
            r is Ok ==> {
                &&& final(self).balance(*a) == old(self).balance(*a) - amount
                &&& forall|b: AccountId| b != *a ==> final(self).balance(b) == old(self).balance(b)
                &&& final(self).supply() == old(self).supply() - amount
                &&& forall|o: AccountId, s: AccountId| final(self).allowance(o, s) == old(self).allowance(o, s)
            },
    {
        let v = self.balance_of(a);
        if v < amount {
            return Err(PSP22Error::InsufficientBalance);
        }
        proof {
            self.lemma_balance_within_supply(*a);
        }
        self.set_balance(a, v - amount);
        Ok(())
    }

    /// Moves `amount` shares from `from` to `to`.
    pub fn transfer_from_to(
        &mut self,
        from: &AccountId,
        to: &AccountId,
        amount: u128,
    ) -> (r: Result<(), PSP22Error>)
        requires
            old(self).wf(),
        ensures
            final(self).wf(),
            r is Err <==> old(self).balance(*from) < amount,
            r is Err ==> r == Err::<(), PSP22Error>(PSP22Error::InsufficientBalance) && *final(self) == *old(self),
            r is Ok ==> moved(*old(self), *final(self), *from, *to, amount as nat),
    {
        let v = self.balance_of(from);
        if v < amount {
            return Err(PSP22Error::InsufficientBalance);
        }
        if *from == *to {
            return Ok(());
        }
        proof {
            self.lemma_balance_within_supply(*from);
        }
        self.set_balance(from, v - amount);
        proof {
            self.lemma_balance_within_supply(*to);
        }
        let w = self.balance_of(to);
        self.set_balance(to, w + amount);
        Ok(())
    }

    /// Moves `value` shares from `from` to `to` on behalf of `caller`, spending
    /// `caller`'s allowance unless it is unlimited (`u128::MAX`).
    pub fn transfer_from(
        &mut self,
        caller: &AccountId,
        from: &AccountId,
        to: &AccountId,
        value: u128,
    ) -> (r: Result<(), PSP22Error>)
        requires
            old(self).wf(),
        ensures
            final(self).wf(),
            r == Err::<(), PSP22Error>(PSP22Error::InsufficientAllowance) <==> old(self).allowance(*from, *caller) < value,
            r == Err::<(), PSP22Error>(PSP22Error::InsufficientBalance) <==> (old(self).allowance(*from, *caller) >= value
                && old(self).balance(*from) < value),
            r is Err ==> *final(self) == *old(self),
            r is Ok ==> {
                &&& forall|b: AccountId| final(self).balance(b) == moved_balance(*old(self), b, *from, *to, value as nat)
                &&& final(self).supply() == old(self).supply()
                &&& final(self).allowance(*from, *caller) == if old(self).allowance(*from, *caller) == u128::MAX {
                    u128::MAX as nat
                } else {
                    (old(self).allowance(*from, *caller) - value) as nat
                }
                &&& forall|o: AccountId, s: AccountId|
                    !(o == *from && s == *caller) ==> final(self).allowance(o, s) == old(self).allowance(o, s)
            },
    {
        let allowance = self.allowance_of(from, caller);
        if allowance < value {
            return Err(PSP22Error::InsufficientAllowance);
        }
        let v = self.balance_of(from);
        if v < value {
            return Err(PSP22Error::InsufficientBalance);
        }
        if allowance != u128::MAX {
            self.approve_from_to(from, caller, allowance - value);
        }
        let moved = self.transfer_from_to(from, to, value);
        proof {
            assert(moved is Ok);
        }
        Ok(())
    }
}

/// The balance of `b` once `amount` shares have gone from `from` to `to`.
pub open spec fn moved_balance(
    l: Psp22Ledger,
    b: AccountId,
    from: AccountId,
    to: AccountId,
    amount: nat,
) -> int {
    if from == to {
        l.balance(b) as int
    } else if b == from {
        l.balance(b) - amount
    } else if b == to {
        (l.balance(b) + amount) as int
    } else {
        l.balance(b) as int
    }
}

/// `after` is `before` with `amount` shares moved from `from` to `to`.
pub open spec fn moved(
    before: Psp22Ledger,
    after: Psp22Ledger,
    from: AccountId,
    to: AccountId,
    amount: nat,
) -> bool {
    &&& forall|b: AccountId| after.balance(b) == moved_balance(before, b, from, to, amount)
    &&& after.supply() == before.supply()
    &&& forall|o: AccountId, s: AccountId| after.allowance(o, s) == before.allowance(o, s)
}

} // verus!
