//! Token wallet.
use vstd::prelude::*;

verus! {

/// A user's wallet.
#[derive(Debug, Clone)]
pub struct Wallet {
    /// Public address.
    pub address: String,
    /// Spendable balance.
    pub balance: u64,
    /// Tokens locked for vesting.
    pub locked_balance: u64,
}

impl Wallet {
    /// An empty wallet at `address`.
    pub fn new(address: String) -> (r: Self)
        ensures
            r.address@ == address@,
            r.balance == 0,
            r.locked_balance == 0,
    {
        Wallet { address, balance: 0, locked_balance: 0 }
    }

    /// Adds `amount` to the balance.
    pub fn credit(&mut self, amount: u64)
        requires
            old(self).balance + amount <= u64::MAX,
        ensures
            final(self).balance == old(self).balance + amount,
            final(self).locked_balance == old(self).locked_balance,
            final(self).address@ == old(self).address@,
    {
        self.balance = self.balance + amount;
    }

    /// Takes `amount` from the balance, or fails with `Insufficient funds`
    /// leaving the wallet unchanged when the balance is smaller.
    pub fn debit(&mut self, amount: u64) -> (r: Result<(), String>)
        ensures
            r is Ok <==> old(self).balance >= amount,
            r is Ok ==> final(self).balance == old(self).balance - amount,
            r is Err ==> final(self).balance == old(self).balance && r->Err_0@
                == "Insufficient funds"@,
            final(self).locked_balance == old(self).locked_balance,
            final(self).address@ == old(self).address@,
    {
        if self.balance >= amount {
            self.balance = self.balance - amount;
            Ok(())
        } else {
            Err(String::from_str("Insufficient funds"))
        }
    }

    /// Moves `amount` from the balance to the locked balance, or fails with
    /// `Insufficient funds to lock` when the balance is smaller, and with
    /// `Locked balance overflow` when the locked balance would exceed the
    /// largest amount; the wallet is unchanged on failure.
    pub fn lock_tokens(&mut self, amount: u64) -> (r: Result<(), String>)
        ensures
            r is Ok <==> old(self).balance >= amount && old(self).locked_balance + amount <= u64::MAX,
            r is Ok ==> final(self).balance == old(self).balance - amount && final(self).locked_balance
                == old(self).locked_balance + amount,
            r is Err ==> final(self).balance == old(self).balance && final(self).locked_balance == old(
                self,
            ).locked_balance,
            old(self).balance < amount ==> r is Err && r->Err_0@ == "Insufficient funds to lock"@,
            final(self).address@ == old(self).address@,
    {
        if self.balance < amount {
            return Err(String::from_str("Insufficient funds to lock"));
        }
        if self.locked_balance > u64::MAX - amount {
            return Err(String::from_str("Locked balance overflow"));
        }
        self.balance = self.balance - amount;
        self.locked_balance = self.locked_balance + amount;
        Ok(())
    }
}

} // verus!
