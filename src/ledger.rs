//! The token ledger: balances, allowances and a fixed total supply, with the
//! mathematical model that every operation's contract is stated over.

use vstd::prelude::*;

use crate::table::{as_map, keys_distinct, lemma_contains, lemma_push, lemma_update, lemma_value_at, total};

verus! {

/// An account identifier, compared by its characters.
pub type Address = String;

/// A token quantity.
pub type Balance = u64;

/// Why an operation on the ledger was refused. A refused operation changes nothing.
#[derive(Debug, Clone, Copy, PartialEq, Eq, Structural)]
pub enum TokenError {
    /// The sender holds less than the amount.
    InsufficientBalance { required: Balance, available: Balance },
    /// Sender and recipient are the same address.
    SelfTransfer,
    /// The amount is zero.
    ZeroAmount,
    /// The recipient's balance would exceed the largest representable balance.
    BalanceOverFlow,
    /// Owner and spender are the same address.
    SelfApproval,
    /// The spender may move less than the amount out of the owner's balance.
    InsufficientAllowance { required: Balance, available: Balance },
}

/// The ledger as mathematical values.
pub ghost struct LedgerModel {
    /// Balance of every address that was ever credited.
    pub balances: Map<Seq<char>, u64>,
    /// Remaining allowance of every `(owner, spender)` pair that was ever approved.
    pub allowances: Map<(Seq<char>, Seq<char>), u64>,
    /// The supply fixed when the ledger was created.
    pub total_supply: u64,
    /// The sum of the balances of all credited addresses.
    pub circulating: int,
}

impl LedgerModel {
    /// The ledger that `new(creator, supply)` creates.
    pub open spec fn genesis(creator: Seq<char>, supply: u64) -> LedgerModel {
        LedgerModel {
            balances: Map::empty().insert(creator, supply),
            allowances: Map::empty(),
            total_supply: supply,
            circulating: supply as int,
        }
    }

    /// What `balance_of(a)` returns: the stored balance, or zero.
    pub open spec fn balance(self, a: Seq<char>) -> u64 {
        if self.balances.contains_key(a) {
            self.balances[a]
        } else {
            0
        }
    }

    /// What `allowance(owner, spender)` returns: the stored allowance, or zero.
    pub open spec fn allowance(self, owner: Seq<char>, spender: Seq<char>) -> u64 {
        if self.allowances.contains_key((owner, spender)) {
            self.allowances[(owner, spender)]
        } else {
            0
        }
    }

    /// The balances add up to the total supply.
    pub open spec fn conserved(self) -> bool {
        self.circulating == self.total_supply as int
    }

    /// The ledger with the balance of `a` set to `v`.
    pub open spec fn with_balance(self, a: Seq<char>, v: u64) -> LedgerModel {
        LedgerModel {
            balances: self.balances.insert(a, v),
            circulating: self.circulating - self.balance(a) + v,
            ..self
        }
    }

    /// The ledger with the allowance of `(owner, spender)` set to `v`.
    pub open spec fn with_allowance(self, owner: Seq<char>, spender: Seq<char>, v: u64) -> LedgerModel {
        LedgerModel { allowances: self.allowances.insert((owner, spender), v), ..self }
    }

    /// The ledger with `amount` moved from `from` to `to`.
    pub open spec fn moved(self, from: Seq<char>, to: Seq<char>, amount: u64) -> LedgerModel {
        LedgerModel {
            balances: self.balances.insert(from, (self.balance(from) - amount) as u64).insert(
                to,
                (self.balance(to) + amount) as u64,
            ),
            ..self
        }
    }

    /// The outcome of `transfer(from, to, amount)`: the first check that fails, in order.
    pub open spec fn transfer_result(self, from: Seq<char>, to: Seq<char>, amount: u64) -> Result<
        (),
        TokenError,
    > {
        if from == to {
            Err(TokenError::SelfTransfer)
        } else if amount == 0 {
            Err(TokenError::ZeroAmount)
        } else if self.balance(from) < amount {
            Err(TokenError::InsufficientBalance { required: amount, available: self.balance(from) })
        } else if self.balance(to) + amount > u64::MAX {
            Err(TokenError::BalanceOverFlow)
        } else {
            Ok(())
        }
    }

    /// The ledger after `transfer(from, to, amount)`.
    pub open spec fn after_transfer(self, from: Seq<char>, to: Seq<char>, amount: u64) -> LedgerModel {
        if self.transfer_result(from, to, amount) is Ok {
            self.moved(from, to, amount)
        } else {
            self
        }
    }

    /// The outcome of `approve(owner, spender, amount)`.
    pub open spec fn approve_result(self, owner: Seq<char>, spender: Seq<char>) -> Result<(), TokenError> {
        if owner == spender {
            Err(TokenError::SelfApproval)
        } else {
            Ok(())
        }
    }

    /// The ledger after `approve(owner, spender, amount)`: the allowance is overwritten.
    pub open spec fn after_approve(self, owner: Seq<char>, spender: Seq<char>, amount: u64) -> LedgerModel {
        if self.approve_result(owner, spender) is Ok {
            self.with_allowance(owner, spender, amount)
        } else {
            self
        }
    }

    /// The outcome of `transfer_from(spender, from, to, amount)`: the first check that
    /// fails, in order, the allowance checked before the balance.
    pub open spec fn transfer_from_result(
        self,
        spender: Seq<char>,
        from: Seq<char>,
        to: Seq<char>,
        amount: u64,
    ) -> Result<(), TokenError> {
        if from == to {
            Err(TokenError::SelfTransfer)
        } else if amount == 0 {
            Err(TokenError::ZeroAmount)
        } else if self.allowance(from, spender) < amount {
            Err(
                TokenError::InsufficientAllowance {
                    required: amount,
                    available: self.allowance(from, spender),
                },
            )
        } else if self.balance(from) < amount {
            Err(TokenError::InsufficientBalance { required: amount, available: self.balance(from) })
        } else if self.balance(to) + amount > u64::MAX {
            Err(TokenError::BalanceOverFlow)
        } else {
            Ok(())
        }
    }

    /// The ledger after `transfer_from(spender, from, to, amount)`: on success the
    /// amount is moved and the allowance of `(from, spender)` shrinks by it.
    pub open spec fn after_transfer_from(
        self,
        spender: Seq<char>,
        from: Seq<char>,
        to: Seq<char>,
        amount: u64,
    ) -> LedgerModel {
        if self.transfer_from_result(spender, from, to, amount) is Ok {
            self.moved(from, to, amount).with_allowance(
                from,
                spender,
                (self.allowance(from, spender) - amount) as u64,
            )
        } else {
            self
        }
    }
}

/// An in-memory token ledger.
pub struct TokenState {
    balances: Vec<(Address, Balance)>,
    allowances: Vec<((Address, Address), Balance)>,
    total_supply: Balance,
}

impl View for TokenState {
    type V = LedgerModel;

    closed spec fn view(&self) -> LedgerModel {
        LedgerModel {
            balances: as_map(self.balances@),
            allowances: as_map(self.allowances@),
            total_supply: self.total_supply,
            circulating: total(self.balances@),
        }
    }
}

impl TokenState {
    /// Each address and each `(owner, spender)` pair has at most one entry.
    pub closed spec fn wf(&self) -> bool {
        keys_distinct(self.balances@) && keys_distinct(self.allowances@)
    }

    /// Index of the balance entry of `address`, if it has one.
    fn find_balance(&self, address: &Address) -> (r: Option<usize>)
        requires
            self.wf(),
        ensures
            match r {
                Some(i) => i < self.balances@.len() && self.balances@[i as int].0@ == address@
                    && self@.balances.contains_key(address@) && self@.balances[address@]
                    == self.balances@[i as int].1,
                None => !self@.balances.contains_key(address@),
            },
    {
        let mut i: usize = 0;
        while i < self.balances.len()
            invariant
                self.wf(),
                i <= self.balances@.len(),
                forall|j: int| 0 <= j < i ==> self.balances@[j].0@ != address@,
            decreases self.balances@.len() - i,
        {
            if self.balances[i].0 == *address {
                proof {
                    lemma_value_at(self.balances@, i as int);
                }
                return Some(i);
            }
            i = i + 1;
        }
        proof {
            lemma_contains(self.balances@, address@);
        }
        None
    }

    /// Index of the allowance entry of `(owner, spender)`, if it has one.
    fn find_allowance(&self, owner: &Address, spender: &Address) -> (r: Option<usize>)
        requires
            self.wf(),
        ensures
            match r {
                Some(i) => i < self.allowances@.len() && self.allowances@[i as int].0@ == (
                owner@,
                spender@,
                ) && self@.allowances.contains_key((owner@, spender@))
                    && self@.allowances[(owner@, spender@)] == self.allowances@[i as int].1,
                None => !self@.allowances.contains_key((owner@, spender@)),
            },
    {
        let mut i: usize = 0;
        while i < self.allowances.len()
            invariant
                self.wf(),
                i <= self.allowances@.len(),
                forall|j: int| 0 <= j < i ==> self.allowances@[j].0@ != (owner@, spender@),
            decreases self.allowances@.len() - i,
        {
            let key = &self.allowances[i].0;
            if key.0 == *owner && key.1 == *spender {
                proof {
                    lemma_value_at(self.allowances@, i as int);
                }
                return Some(i);
            }
            i = i + 1;
        }
        proof {
            lemma_contains(self.allowances@, (owner@, spender@));
        }
        None
    }

    /// Sets the balance of `address` to `amount`.
    fn set_balance(&mut self, address: &Address, amount: Balance)
        requires
            old(self).wf(),
        ensures
            final(self).wf(),
            final(self)@ == old(self)@.with_balance(address@, amount),
    {
        let entry = (address.clone(), amount);
        match self.find_balance(address) {
            Some(i) => {
                proof {
                    lemma_update(self.balances@, i as int, entry);
                }
                self.balances.set(i, entry);
            },
            None => {
                proof {
                    lemma_push(self.balances@, entry);
                }
                self.balances.push(entry);
            },
        }
    }

    /// Sets the allowance of `(owner, spender)` to `amount`.
    fn set_allowance(&mut self, owner: &Address, spender: &Address, amount: Balance)
        requires
            old(self).wf(),
        ensures
            final(self).wf(),
            final(self)@ == old(self)@.with_allowance(owner@, spender@, amount),
    {
        let entry = ((owner.clone(), spender.clone()), amount);
        match self.find_allowance(owner, spender) {
            Some(i) => {
                proof {
                    lemma_update(self.allowances@, i as int, entry);
                }
                self.allowances.set(i, entry);
            },
            None => {
                proof {
                    lemma_push(self.allowances@, entry);
                }
                self.allowances.push(entry);
            },
        }
    }

    /// Sets the balance of `address` to `amount` directly, leaving the total
    /// supply as it is: a way to put a ledger into a chosen state.
    pub fn mint_for_test(&mut self, address: Address, amount: Balance)
        requires
            old(self).wf(),
        ensures
            final(self).wf(),
            final(self)@ == old(self)@.with_balance(address@, amount),
    {
        self.set_balance(&address, amount);
    }

    /// The supply fixed at creation.
    pub fn total_supply(&self) -> (r: Balance)
        ensures
            r == self@.total_supply,
    {
        self.total_supply
    }

    /// A ledger in which `creator` holds the whole `initial_supply`.
    pub fn new(creator: Address, initial_supply: Balance) -> (r: Self)
        ensures
            r.wf(),
            r@ == LedgerModel::genesis(creator@, initial_supply),
    {
        let mut balances: Vec<(Address, Balance)> = Vec::new();
        balances.push((creator, initial_supply));
        let r = TokenState { balances, allowances: Vec::new(), total_supply: initial_supply };
        proof {
            assert(r.balances@.drop_last() =~= Seq::<(Address, Balance)>::empty());
            reveal_with_fuel(as_map, 2);
            reveal_with_fuel(total, 2);
            assert(r@.balances =~= LedgerModel::genesis(creator@, initial_supply).balances);
            assert(r@.allowances =~= Map::empty());
        }
        r
    }

    /// The balance of `address`; zero for an address never credited.
    pub fn balance_of(&self, address: &Address) -> (r: Balance)
        requires
            self.wf(),
        ensures
            r == self@.balance(address@),
    {
        match self.find_balance(address) {
            Some(i) => self.balances[i].1,
            None => 0,
        }
    }

    /// Moves `amount` from `from` to `to`.
    pub fn transfer(&mut self, from: &Address, to: &Address, amount: Balance) -> (r: Result<
        (),
        TokenError,
    >)
        requires
            old(self).wf(),
        ensures
            final(self).wf(),
            r == old(self)@.transfer_result(from@, to@, amount),
            final(self)@ == old(self)@.after_transfer(from@, to@, amount),
    {
        if *from == *to {
            return Err(TokenError::SelfTransfer);
        }
        if amount == 0 {
            return Err(TokenError::ZeroAmount);
        }
        let from_bal = self.balance_of(from);
        if from_bal < amount {
            return Err(TokenError::InsufficientBalance { required: amount, available: from_bal });
        }
        let to_bal = match self.balance_of(to).checked_add(amount) {
            Some(b) => b,
            None => return Err(TokenError::BalanceOverFlow),
        };
        let ghost pre = self@;
        self.set_balance(from, from_bal - amount);
        self.set_balance(to, to_bal);
        proof {
            assert(self@.balances =~= pre.moved(from@, to@, amount).balances);
        }
        Ok(())
    }

    /// Sets the allowance of `spender` over `owner`'s balance to `amount`,
    /// replacing any earlier one.
    pub fn approve(&mut self, owner: &Address, spender: &Address, amount: Balance) -> (r: Result<
        (),
        TokenError,
    >)
        requires
            old(self).wf(),
        ensures
            final(self).wf(),
            r == old(self)@.approve_result(owner@, spender@),
            final(self)@ == old(self)@.after_approve(owner@, spender@, amount),
    {
        if *owner == *spender {
            return Err(TokenError::SelfApproval);
        }
        self.set_allowance(owner, spender, amount);
        Ok(())
    }

    /// What `spender` may still move out of `owner`'s balance; zero for a pair
    /// never approved.
    pub fn allowance(&self, owner: &Address, spender: &Address) -> (r: Balance)
        requires
            self.wf(),
        ensures
            r == self@.allowance(owner@, spender@),
    {
        match self.find_allowance(owner, spender) {
            Some(i) => self.allowances[i].1,
            None => 0,
        }
    }

    /// Moves `amount` from `from` to `to` on behalf of `spender`, using up as
    /// much of the allowance that `from` granted `spender`.
    pub fn transfer_from(
        &mut self,
        spender: &Address,
        from: &Address,
        to: &Address,
        amount: Balance,
    ) -> (r: Result<(), TokenError>)
        requires
            old(self).wf(),
        ensures
            final(self).wf(),
            r == old(self)@.transfer_from_result(spender@, from@, to@, amount),
            final(self)@ == old(self)@.after_transfer_from(spender@, from@, to@, amount),
    {
        if *from == *to {
            return Err(TokenError::SelfTransfer);
        }
        if amount == 0 {
            return Err(TokenError::ZeroAmount);
        }
        let current_allowance = self.allowance(from, spender);
        if current_allowance < amount {
            return Err(
                TokenError::InsufficientAllowance { required: amount, available: current_allowance },
            );
        }
        let from_bal = self.balance_of(from);
        if from_bal < amount {
            return Err(TokenError::InsufficientBalance { required: amount, available: from_bal });
        }
        let to_bal = match self.balance_of(to).checked_add(amount) {
            Some(b) => b,
            None => return Err(TokenError::BalanceOverFlow),
        };
        let ghost pre = self@;
        self.set_balance(from, from_bal - amount);
        self.set_balance(to, to_bal);
        self.set_allowance(from, spender, current_allowance - amount);
        proof {
            assert(self@.balances =~= pre.moved(from@, to@, amount).balances);
        }
        Ok(())
    }
}

} // verus!
