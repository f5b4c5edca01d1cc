//! A map keyed by account.
//!
//! `std`'s hash map is specified for integer keys, so an account is filed
//! under the two 128-bit halves of its 32 bytes: an outer map by the first
//! half, an inner map by the second. The view is a plain `Map<Account, V>`.

use crate::account::{lemma_account_by_bytes, Account};
use std::collections::HashMap;
use vstd::bytes::{
    lemma_auto_spec_u128_to_from_le_bytes, spec_u128_from_le_bytes, spec_u128_to_le_bytes,
    u128_from_le_bytes,
};
use vstd::prelude::*;
use vstd::slice::slice_subrange;
use vstd::std_specs::hash::group_hash_axioms;

verus! {

/// The first 16 bytes of an account, read as a little-endian integer.
spec fn first_half(account: Account) -> u128 {
    spec_u128_from_le_bytes(account@.subrange(0, 16))
}

/// The last 16 bytes of an account, read as a little-endian integer.
spec fn second_half(account: Account) -> u128 {
    spec_u128_from_le_bytes(account@.subrange(16, 32))
}

/// The two halves determine the account.
proof fn lemma_halves_determine_account(a: Account, b: Account)
    requires
        first_half(a) == first_half(b),
        second_half(a) == second_half(b),
    ensures
        a == b,
{
    broadcast use vstd::array::group_array_axioms;

    lemma_auto_spec_u128_to_from_le_bytes();
    // Sixteen bytes are the little-endian form of the integer they read as.
    assert(a@.subrange(0, 16) == spec_u128_to_le_bytes(first_half(a)));
    assert(b@.subrange(0, 16) == spec_u128_to_le_bytes(first_half(b)));
    assert(a@.subrange(16, 32) == spec_u128_to_le_bytes(second_half(a)));
    assert(b@.subrange(16, 32) == spec_u128_to_le_bytes(second_half(b)));
    assert(a@ =~= a@.subrange(0, 16) + a@.subrange(16, 32));
    assert(b@ =~= b@.subrange(0, 16) + b@.subrange(16, 32));
    lemma_account_by_bytes(a, b);
}

fn halves(account: &Account) -> (r: (u128, u128))
    ensures
        r.0 == first_half(*account),
        r.1 == second_half(*account),
{
    broadcast use vstd::array::group_array_axioms;

    let bytes = vstd::array::array_as_slice(&account.bytes);
    let first = u128_from_le_bytes(slice_subrange(bytes, 0, 16));
    let second = u128_from_le_bytes(slice_subrange(bytes, 16, 32));
    (first, second)
}

/// A map from accounts to values of type `V`.
pub struct AccountMap<V> {
    by_half: HashMap<u128, HashMap<u128, V>>,
}

impl<V> View for AccountMap<V> {
    type V = Map<Account, V>;

    closed spec fn view(&self) -> Map<Account, V> {
        Map::new(
            |a: Account|
                self.by_half@.contains_key(first_half(a)) && self.by_half@[first_half(
                    a,
                )]@.contains_key(second_half(a)),
            |a: Account| self.by_half@[first_half(a)]@[second_half(a)],
        )
    }
}

impl<V> AccountMap<V> {
    /// The empty map.
    pub fn new() -> (map: AccountMap<V>)
        ensures
            map@ == Map::<Account, V>::empty(),
    {
        AccountMap { by_half: HashMap::new() }
    }

    /// The value filed under `account`, if there is one.
    pub fn get(&self, account: &Account) -> (r: Option<&V>)
        ensures
            match r {
                Some(value) => self@.contains_key(*account) && self@[*account] == *value,
                None => !self@.contains_key(*account),
            },
    {
        broadcast use group_hash_axioms;

        let (first, second) = halves(account);
        match self.by_half.get(&first) {
            Some(inner) => inner.get(&second),
            None => None,
        }
    }

    /// Files `value` under `account`, replacing what was there.
    pub fn insert(&mut self, account: Account, value: V)
        ensures
            final(self)@ == old(self)@.insert(account, value),
    {
        broadcast use group_hash_axioms;

        let (first, second) = halves(&account);
        let mut inner = match self.by_half.remove(&first) {
            Some(inner) => inner,
            None => HashMap::new(),
        };
        inner.insert(second, value);
        self.by_half.insert(first, inner);
        proof {
            assert forall|a: Account|
                first_half(a) == first && second_half(a) == second implies a == account by {
                lemma_halves_determine_account(a, account);
            }
        }
    }
}

} // verus!
