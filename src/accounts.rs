use vstd::prelude::*;

verus! {

/// A table of counterparty balances keyed by address.
///
/// The entries hold each address at most once; `model` is the table
/// as a mathematical map from the address's characters to its balance.
pub struct Balances {
    entries: Vec<(String, u64)>,
    model: Ghost<Map<Seq<char>, u64>>,
}

impl View for Balances {
    type V = Map<Seq<char>, u64>;

    closed spec fn view(&self) -> Map<Seq<char>, u64> {
        self.model@
    }
}

impl Balances {
    /// The entries and the model agree, and no address is listed twice.
    pub closed spec fn wf(&self) -> bool {
        &&& self.model@.dom().finite()
        &&& self.model@.dom().len() == self.entries@.len()
        &&& forall|i: int|
            0 <= i < self.entries@.len() ==> #[trigger] self.model@.contains_key(self.entries@[i].0@)
                && self.model@[self.entries@[i].0@] == self.entries@[i].1
        &&& forall|i: int, j: int|
            0 <= i < j < self.entries@.len() ==> #[trigger] self.entries@[i].0@ != #[trigger] self.entries@[j].0@
        &&& forall|k: Seq<char>|
            #[trigger] self.model@.contains_key(k) ==> exists|i: int|
                0 <= i < self.entries@.len() && self.entries@[i].0@ == k
    }

    /// The balance recorded for `address`; an absent address holds zero.
    pub open spec fn amount(&self, address: Seq<char>) -> u64 {
        if self@.contains_key(address) {
            self@[address]
        } else {
            0
        }
    }

    /// An empty table.
    pub fn new() -> (r: Self)
        ensures
            r.wf(),
            r@ == Map::<Seq<char>, u64>::empty(),
    {
        Balances { entries: Vec::new(), model: Ghost(Map::empty()) }
    }

    /// The number of addresses in the table.
    pub fn len(&self) -> (r: usize)
        requires
            self.wf(),
        ensures
            r == self@.dom().len(),
    {
        self.entries.len()
    }

    /// The position of `address` among the entries, if it is there.
    fn find(&self, address: &String) -> (r: Option<usize>)
        requires
            self.wf(),
        ensures
            match r {
                Some(i) => i < self.entries@.len() && self.entries@[i as int].0@ == address@,
                None => !self@.contains_key(address@),
            },
    {
        let mut i: usize = 0;
        while i < self.entries.len()
            invariant
                self.wf(),
                i <= self.entries@.len(),
                forall|j: int| 0 <= j < i ==> self.entries@[j].0@ != address@,
            decreases self.entries@.len() - i,
        {
            if self.entries[i].0 == *address {
                return Some(i);
            }
            i = i + 1;
        }
        None
    }

    /// The balance of `address`, or `None` where the table does not hold it.
    pub fn get(&self, address: &str) -> (r: Option<&u64>)
        requires
            self.wf(),
        ensures
            r == (if self@.contains_key(address@) { Some(&self@[address@]) } else { None }),
    {
        let key = address.to_owned();
        match self.find(&key) {
            Some(i) => Some(&self.entries[i].1),
            None => None,
        }
    }

    /// The balance of `address`, zero where the table does not hold it.
    pub fn amount_of(&self, address: &str) -> (r: u64)
        requires
            self.wf(),
        ensures
            r == self.amount(address@),
    {
        match self.get(address) {
            Some(v) => *v,
            None => 0,
        }
    }

    /// Adds `value` to the balance of `address`, entering it at zero first
    /// where it is absent.
    pub fn credit(&mut self, address: String, value: u64)
        requires
            old(self).wf(),
            old(self).amount(address@) + value <= u64::MAX,
        ensures
            final(self).wf(),
            final(self)@ == old(self)@.insert(address@, (old(self).amount(address@) + value) as u64),
    {
        let ghost key = address@;
        let ghost new_amount = (self.amount(key) + value) as u64;
        match self.find(&address) {
            Some(i) => {
                let sum = self.entries[i].1 + value;
                self.entries.set(i, (address, sum));
                self.model = Ghost(self.model@.insert(key, new_amount));
                assert(self.entries@.len() == old(self).entries@.len());
                assert(self.model@.dom() =~= old(self).model@.dom());
                assert forall|k: Seq<char>| #[trigger] self.model@.contains_key(k) implies exists|j: int|
                    0 <= j < self.entries@.len() && self.entries@[j].0@ == k by {
                    if k != key {
                        let j = choose|j: int| 0 <= j < old(self).entries@.len() && old(self).entries@[j].0@ == k;
                        assert(self.entries@[j].0@ == k);
                    } else {
                        assert(self.entries@[i as int].0@ == k);
                    }
                }
            },
            None => {
                self.entries.push((address, value));
                self.model = Ghost(self.model@.insert(key, new_amount));
                let ghost n: int = old(self).entries@.len() as int;
                assert forall|j: int| 0 <= j < n implies #[trigger] self.entries@[j].0@ != key by {
                    assert(old(self).model@.contains_key(old(self).entries@[j].0@));
                }
                assert(self.entries@[n].0@ == key);
                assert forall|k: Seq<char>| #[trigger] self.model@.contains_key(k) implies exists|j: int|
                    0 <= j < self.entries@.len() && self.entries@[j].0@ == k by {
                    if k != key {
                        let j = choose|j: int| 0 <= j < old(self).entries@.len() && old(self).entries@[j].0@ == k;
                        assert(self.entries@[j].0@ == k);
                    } else {
                        assert(self.entries@[self.entries@.len() - 1].0@ == k);
                    }
                }
            },
        }
    }
}

} // verus!
