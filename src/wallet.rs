use vstd::prelude::*;

use crate::accounts::Balances;

verus! {

/// The ledger as a mathematical value: the owner's own balance, and the
/// balances of the counterparties, keyed by address.
pub struct LedgerState {
    pub own: u64,
    pub accounts: Map<Seq<char>, u64>,
}

impl LedgerState {
    /// The state of a ledger that was just created: nothing is held.
    pub open spec fn initial() -> LedgerState {
        LedgerState { own: 0, accounts: Map::empty() }
    }

    /// What the counterparty `address` holds; an unknown address holds zero.
    pub open spec fn amount(self, address: Seq<char>) -> int {
        if self.accounts.contains_key(address) {
            self.accounts[address] as int
        } else {
            0
        }
    }

    /// The owner holds at least `amount`, so a transfer of it goes through.
    pub open spec fn covers(self, amount: u64) -> bool {
        amount <= self.own
    }

    /// Crediting `amount` to `to` would stay within the native width.
    pub open spec fn credit_fits(self, to: Seq<char>, amount: u64) -> bool {
        self.amount(to) + amount <= u64::MAX
    }

    /// The state after the owner sent `amount` to `to`.
    pub open spec fn after_send(self, to: Seq<char>, amount: u64) -> LedgerState {
        LedgerState {
            own: (self.own - amount) as u64,
            accounts: self.accounts.insert(to, (self.amount(to) + amount) as u64),
        }
    }

    /// The state after the owner received `amount`.
    pub open spec fn after_receive(self, amount: u64) -> LedgerState {
        LedgerState { own: (self.own + amount) as u64, accounts: self.accounts }
    }
}

/// The error text of a transfer that the owner's balance does not cover.
pub open spec fn insufficient_funds_text() -> Seq<char> {
    "Insufficient funds"@
}

/// A token wallet: the owner's own balance, and a table of what each
/// counterparty the owner dealt with holds.
///
/// The owner's balance is a field of its own, so no address, `"self"`
/// included, can stand for the owner.
pub struct Wallet {
    pub own: u64,
    pub balances: Balances,
}

impl View for Wallet {
    type V = LedgerState;

    open spec fn view(&self) -> LedgerState {
        LedgerState { own: self.own, accounts: self.balances@ }
    }
}

impl Wallet {
    /// The table of counterparties keeps its own invariant.
    pub open spec fn wf(&self) -> bool {
        self.balances.wf()
    }

    /// Creates a wallet that holds nothing.
    pub fn new() -> (r: Self)
        ensures
            r.wf(),
            r@ == LedgerState::initial(),
            r@.own == 0,
    {
        Wallet { own: 0, balances: Balances::new() }
    }

    /// Sends `amount` of the owner's tokens to `to_address`.
    ///
    /// Fails with "Insufficient funds", and changes nothing, where the owner
    /// holds less than `amount`.
    pub fn send_tokens(&mut self, to_address: String, amount: u64) -> (r: Result<(), String>)
        requires
            old(self).wf(),
            old(self)@.covers(amount) ==> old(self)@.credit_fits(to_address@, amount),
        ensures
            final(self).wf(),
            r is Ok <==> old(self)@.covers(amount),
            r is Ok ==> final(self)@ == old(self)@.after_send(to_address@, amount),
            r is Ok ==> final(self)@.own == old(self)@.own - amount,
            r is Ok ==> final(self)@.amount(to_address@) == old(self)@.amount(to_address@) + amount,
            r is Ok ==> final(self)@.own + final(self)@.amount(to_address@) == old(self)@.own
                + old(self)@.amount(to_address@),
            r matches Err(e) ==> e@ == insufficient_funds_text() && *final(self) == *old(self),
            !old(self)@.covers(amount) ==> r is Err && final(self)@ == old(self)@,
    {
        if self.own < amount {
            let e = "Insufficient funds".to_owned();
            proof {
                reveal_strlit("Insufficient funds");
            }
            return Err(e);
        }
        self.own = self.own - amount;
        self.balances.credit(to_address, amount);
        Ok(())
    }

    /// Adds `amount` to the owner's balance; `_from_address` names the sender
    /// and has no bearing on the balances.
    pub fn receive_tokens(&mut self, _from_address: String, amount: u64)
        requires
            old(self).wf(),
            old(self)@.own + amount <= u64::MAX,
        ensures
            final(self).wf(),
            final(self)@ == old(self)@.after_receive(amount),
            final(self)@.own == old(self)@.own + amount,
    {
        self.own = self.own + amount;
    }

    /// The owner's balance.
    pub fn get_balance(&self) -> (r: u64)
        ensures
            r == self@.own,
    {
        self.own
    }
}

/// A ledger that was just created holds nothing: the owner's balance is
/// zero, and so is that of every address.
pub proof fn lemma_initial_holds_nothing(address: Seq<char>)
    ensures
        LedgerState::initial().own == 0,
        LedgerState::initial().amount(address) == 0,
{
}

/// Once the owner has sent more than half of what they held, a second
/// transfer of the same amount is refused: one balance is never spent twice.
pub proof fn lemma_no_double_spend(s: LedgerState, first: Seq<char>, amount: u64)
    requires
        s.covers(amount),
        s.own < 2 * amount,
    ensures
        !s.after_send(first, amount).covers(amount),
        s.after_send(first, amount).own == s.own - amount,
{
}

} // verus!
