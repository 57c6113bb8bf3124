//! A store of one value per account, and the sum of a store of numbers.

use vstd::prelude::*;
use odra_core::prelude::Address;

verus! {

/// The value kept for one account.
pub struct Entry<T> {
    pub key: Address,
    pub value: T,
}

/// A finite map from accounts to values. An account that was never written
/// has no entry; entries are never removed.
pub struct AccountMap<T> {
    entries: Vec<Entry<T>>,
}

/// The accounts of a list of entries, in the order of the entries.
pub open spec fn keys_of<T>(entries: Seq<Entry<T>>) -> Seq<Address> {
    entries.map_values(|e: Entry<T>| e.key)
}

impl<T> View for AccountMap<T> {
    type V = Map<Address, T>;

    /// The map that the store stands for.
    closed spec fn view(&self) -> Map<Address, T> {
        let keys = keys_of(self.entries@);
        Map::new(|k: Address| keys.contains(k), |k: Address| self.entries@[keys.index_of(k)].value)
    }
}

impl<T> AccountMap<T> {
    /// No account has two entries.
    pub closed spec fn wf(&self) -> bool {
        keys_of(self.entries@).no_duplicates()
    }

    /// The entry at `i` is what the map holds for its account.
    proof fn lemma_entry_in_view(&self, i: int)
        requires
            self.wf(),
            0 <= i < self.entries@.len(),
        ensures
            self@.contains_key(self.entries@[i].key),
            self@[self.entries@[i].key] == self.entries@[i].value,
    {
        let keys = keys_of(self.entries@);
        let k = self.entries@[i].key;
        assert(keys[i] == k);
        assert(keys.contains(k));
        let j = keys.index_of(k);
        assert(keys[j] == k);
    }

    /// A store holds finitely many accounts.
    pub proof fn lemma_finite(&self)
        ensures
            self@.dom().finite(),
    {
        let keys = keys_of(self.entries@);
        assert(self@.dom() =~= keys.to_set()) by {
            assert forall|k: Address| self@.dom().contains(k) <==> keys.to_set().contains(k) by {
                assert(keys.to_set().contains(k) <==> keys.contains(k));
            }
        }
        vstd::seq_lib::seq_to_set_is_finite(keys);
    }

    /// The empty store.
    pub fn new() -> (store: AccountMap<T>)
        ensures
            store.wf(),
            store@ == Map::<Address, T>::empty(),
    {
        let store = AccountMap { entries: Vec::new() };
        assert(store@ =~= Map::<Address, T>::empty());
        store
    }

    /// Where the entry of `key` lies, if it has one.
    fn position(&self, key: &Address) -> (found: Option<usize>)
        ensures
            match found {
                Some(i) => i < self.entries@.len() && self.entries@[i as int].key == *key,
                None => !keys_of(self.entries@).contains(*key),
            },
    {
        let mut i: usize = 0;
        while i < self.entries.len()
            invariant
                i <= self.entries@.len(),
                forall|j: int| 0 <= j < i ==> self.entries@[j].key != *key,
            decreases self.entries@.len() - i,
        {
            if self.entries[i].key == *key {
                return Some(i);
            }
            i = i + 1;
        }
        proof {
            let keys = keys_of(self.entries@);
            assert forall|j: int| 0 <= j < keys.len() implies keys[j] != *key by {
                assert(keys[j] == self.entries@[j].key);
            }
        }
        None
    }

    /// What the store holds for `key`, if anything.
    pub fn get(&self, key: &Address) -> (found: Option<&T>)
        requires
            self.wf(),
        ensures
            match found {
                Some(value) => self@.contains_key(*key) && *value == self@[*key],
                None => !self@.contains_key(*key),
            },
    {
        match self.position(key) {
            Some(i) => {
                proof {
                    self.lemma_entry_in_view(i as int);
                }
                Some(&self.entries[i].value)
            },
            None => None,
        }
    }

    /// Writes `value` for `key`, in place of what the store held for it.
    pub fn set(&mut self, key: Address, value: T)
        requires
            old(self).wf(),
        ensures
            final(self).wf(),
            final(self)@ == old(self)@.insert(key, value),
    {
        let found = self.position(&key);
        let ghost before = *self;
        match found {
            Some(i) => {
                self.entries[i] = Entry { key, value };
                proof {
                    let old_keys = keys_of(before.entries@);
                    let new_keys = keys_of(self.entries@);
                    assert(new_keys =~= old_keys);
                    assert(old_keys[i as int] == key);
                    assert forall|k: Address| #[trigger] self@.contains_key(k) implies self@[k] == before@.insert(key, value)[k] by {
                        let j = new_keys.index_of(k);
                        assert(new_keys[j] == k);
                        if k == key {
                            assert(j == i);
                        } else {
                            assert(j != i);
                        }
                    }
                    assert(self@ =~= before@.insert(key, value));
                }
            },
            None => {
                self.entries.push(Entry { key, value });
                proof {
                    let old_keys = keys_of(before.entries@);
                    let new_keys = keys_of(self.entries@);
                    assert(new_keys =~= old_keys.push(key));
                    assert forall|a: int, b: int|
                        0 <= a < new_keys.len() && 0 <= b < new_keys.len() && a != b implies new_keys[a] != new_keys[b] by {
                        if a < old_keys.len() {
                            assert(old_keys.contains(new_keys[a]));
                        }
                        if b < old_keys.len() {
                            assert(old_keys.contains(new_keys[b]));
                        }
                    }
                    assert forall|k: Address| self@.contains_key(k) <==> before@.insert(key, value).contains_key(k) by {
                        if new_keys.contains(k) {
                            let j = new_keys.index_of(k);
                            assert(new_keys[j] == k);
                            if j < old_keys.len() {
                                assert(old_keys[j] == k);
                            }
                        }
                        if old_keys.contains(k) {
                            let j = old_keys.index_of(k);
                            assert(new_keys[j] == k);
                        }
                        if k == key {
                            assert(new_keys[old_keys.len() as int] == k);
                        }
                    }
                    assert forall|k: Address| #[trigger] self@.contains_key(k) implies self@[k] == before@.insert(key, value)[k] by {
                        let j = new_keys.index_of(k);
                        assert(new_keys[j] == k);
                        if k == key {
                            assert(new_keys[old_keys.len() as int] == key);
                            assert(j == old_keys.len());
                        } else {
                            assert(j < old_keys.len());
                            assert(old_keys[j] == k);
                            let j2 = old_keys.index_of(k);
                            assert(old_keys[j2] == k);
                            assert(new_keys[j2] == k);
                            assert(j2 == j);
                        }
                    }
                    assert(self@ =~= before@.insert(key, value));
                }
            },
        }
    }
}

/// The sum of the numbers that a finite map holds.
pub open spec fn sum_of(m: Map<Address, nat>) -> nat
    decreases m.dom().len(),
    when m.dom().finite()
{
    if m.dom().len() == 0 {
        0
    } else {
        let k = m.dom().choose();
        m[k] + sum_of(m.remove(k))
    }
}

/// The sum of a map is the number of any one account plus the sum of the
/// rest.
pub proof fn lemma_sum_remove(m: Map<Address, nat>, k: Address)
    requires
        m.dom().finite(),
        m.contains_key(k),
    ensures
        sum_of(m) == m[k] + sum_of(m.remove(k)),
    decreases m.dom().len(),
{
    let c = m.dom().choose();
    if c != k {
        lemma_sum_remove(m.remove(c), k);
        lemma_sum_remove(m.remove(k), c);
        assert(m.remove(c).remove(k) =~= m.remove(k).remove(c));
    }
}

/// Writing `v` for `k` changes the sum by the difference between `v` and
/// what the map held for `k`, or by `v` where it held nothing.
pub proof fn lemma_sum_insert(m: Map<Address, nat>, k: Address, v: nat)
    requires
        m.dom().finite(),
    ensures
        m.contains_key(k) ==> sum_of(m.insert(k, v)) + m[k] == sum_of(m) + v,
        !m.contains_key(k) ==> sum_of(m.insert(k, v)) == sum_of(m) + v,
{
    let after = m.insert(k, v);
    lemma_sum_remove(after, k);
    assert(after.remove(k) =~= m.remove(k));
    if m.contains_key(k) {
        lemma_sum_remove(m, k);
    } else {
        assert(m.remove(k) =~= m);
    }
}

/// No single number exceeds the sum.
pub proof fn lemma_sum_bounds_each(m: Map<Address, nat>, k: Address)
    requires
        m.dom().finite(),
        m.contains_key(k),
    ensures
        m[k] <= sum_of(m),
{
    lemma_sum_remove(m, k);
}

} // verus!
