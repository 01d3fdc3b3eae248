//! The store: a concurrent map from values to values.
//!
//! The map itself is `dashmap::DashMap`, a hash map split into shards that
//! are locked one by one. Every handle works on the same map, and any
//! number of threads may go through their handles at the same time. What a
//! call finds for a key therefore depends on what other threads did just
//! before, and no contract here can say what that is: the verifier treats
//! every answer of the map as possible. What is fixed is what the store
//! makes of an answer, and that part is verified.

use crate::buffer::payload;
use crate::data_type::{BoopError, DataType, ErrorValue, Value};
use bytes::Bytes;
use dashmap::DashMap;
use std::sync::Arc;
use vstd::prelude::*;

verus! {

#[verifier::external_type_specification]
#[verifier::external_body]
#[verifier::reject_recursive_types(K)]
#[verifier::reject_recursive_types(V)]
#[verifier::reject_recursive_types(S)]
pub struct ExDashMap<K, V, S>(DashMap<K, V, S>);

/// The code of the error that `get_set` answers with when the key had no
/// value.
pub const NO_EXIST: u8 = 0x10;

/// The most entries that room is reserved for when a store is made. A
/// store grows beyond its reservation as entries arrive.
pub const RESERVE_MAX: usize = 0x1_0000;

/// `n` is a power of two.
pub open spec fn is_pow2(n: nat) -> bool
    decreases n,
{
    n == 1 || (n > 1 && n % 2 == 0 && is_pow2(n / 2))
}

/// A shard amount that a store can be made with: a power of two, at least
/// two.
pub open spec fn valid_shard_amount(n: nat) -> bool {
    1 < n && is_pow2(n)
}

/// The message of the error that `get_set` answers with when the key had
/// no value: the bytes of `no_exist`.
pub open spec fn no_exist_msg() -> Seq<u8> {
    seq![110u8, 111u8, 95u8, 101u8, 120u8, 105u8, 115u8, 116u8]
}

/// The error that `get_set` answers with when the key had no value.
pub open spec fn no_exist() -> Value {
    Value::Error(ErrorValue { is_server_err: true, err_code: NO_EXIST, err_msg: no_exist_msg() })
}

/// `DashMap::new`: an empty map with the default number of shards. The
/// default depends on the machine, but it is always a power of two above
/// one: the map's constructor panics on any other amount.
#[verifier::external_body]
fn map_new() -> (map: DashMap<DataType, DataType>)
    ensures
        shard_count(map) > 1,
        is_pow2(shard_count(map)),
{
    DashMap::new()
}

/// `DashMap::with_capacity`: an empty map with room reserved for
/// `capacity` entries and the default number of shards, which is a power
/// of two above one.
#[verifier::external_body]
fn map_with_capacity(capacity: usize) -> (map: DashMap<DataType, DataType>)
    requires
        capacity <= RESERVE_MAX,
    ensures
        shard_count(map) > 1,
        is_pow2(shard_count(map)),
{
    DashMap::with_capacity(capacity)
}

/// `DashMap::with_capacity_and_shard_amount`: an empty map of
/// `shard_amount` shards with room reserved for `capacity` entries. The
/// call panics unless the shard amount is a power of two above one, and
/// it rounds the capacity up to a multiple of the shard amount, which must
/// not overflow.
#[verifier::external_body]
fn map_with_capacity_and_shard_amount(capacity: usize, shard_amount: usize) -> (map: DashMap<
    DataType,
    DataType,
>)
    requires
        capacity + shard_amount <= usize::MAX,
        capacity <= RESERVE_MAX,
        valid_shard_amount(shard_amount as nat),
    ensures
        shard_count(map) == shard_amount,
{
    DashMap::with_capacity_and_shard_amount(capacity, shard_amount)
}

/// `DashMap::get`: a copy of the value that the map holds for `key` at the
/// moment of the call, if it holds one. The shard is locked for reading
/// while the value is copied.
#[verifier::external_body]
fn map_get(map: &DashMap<DataType, DataType>, key: &DataType) -> Option<DataType> {
    map.get(key).map(|entry| entry.value().clone())
}

/// `DashMap::insert`: puts `value` under `key` and hands back the value
/// that was there before, if there was one, in one step under the shard's
/// write lock.
#[verifier::external_body]
fn map_insert(map: &DashMap<DataType, DataType>, key: DataType, value: DataType) -> Option<
    DataType,
> {
    map.insert(key, value)
}

/// `DashMap::remove`: takes the entry of `key` out of the map and hands
/// back its value, if there was one, in one step under the shard's write
/// lock.
#[verifier::external_body]
fn map_remove(map: &DashMap<DataType, DataType>, key: &DataType) -> Option<DataType> {
    map.remove(key).map(|entry| entry.1)
}

/// Whether `n` is a power of two.
fn power_of_two(n: usize) -> (r: bool)
    ensures
        r == is_pow2(n as nat),
{
    if n == 0 {
        return false;
    }
    let mut m: usize = n;
    while m % 2 == 0
        invariant
            m > 0,
            is_pow2(m as nat) == is_pow2(n as nat),
        decreases m,
    {
        m = m / 2;
    }
    m == 1
}

/// What `get_set` answers with, given what the map held for the key: the
/// prior value, or the `no_exist` error when there was none.
pub fn prior_or_no_exist(prior: Option<DataType>) -> (r: DataType)
    ensures
        match prior {
            Some(v) => r == v,
            None => r@ == no_exist(),
        },
{
    match prior {
        Some(v) => v,
        None => {
            let text: [u8; 8] = [110, 111, 95, 101, 120, 105, 115, 116];
            let msg = Bytes::copy_from_slice(text.as_slice());
            assert(payload(msg) =~= no_exist_msg());
            DataType::Error(BoopError { is_server_err: true, err_code: NO_EXIST, err_msg: msg })
        },
    }
}

/// A handle on the store. Clones of a handle work on the same map.
pub struct Store(Arc<DashMap<DataType, DataType>>);

impl Store {
    /// An empty store, split into the default number of shards: a power
    /// of two above one.
    pub fn new() -> (r: Self)
        ensures
            r.shard_amount() > 1,
            is_pow2(r.shard_amount()),
    {
        Store(Arc::new(map_new()))
    }

    /// An empty store with room reserved for `cap` entries, up to
    /// `RESERVE_MAX` of them, split into the default number of shards: a
    /// power of two above one.
    pub fn with_capacity(cap: usize) -> (r: Self)
        ensures
            r.shard_amount() > 1,
            is_pow2(r.shard_amount()),
    {
        let reserve: usize = if cap > RESERVE_MAX {
            RESERVE_MAX
        } else {
            cap
        };
        Store(Arc::new(map_with_capacity(reserve)))
    }

    /// An empty store of `shard_amount` shards, with room reserved for
    /// `cap` entries, up to `RESERVE_MAX` of them. A shard amount that is
    /// no power of two, or below two, is rejected.
    pub fn with_capacity_and_shard_amount(cap: usize, shard_amount: usize) -> (r: Option<Self>)
        ensures
            match r {
                Some(store) => valid_shard_amount(shard_amount as nat) && store.shard_amount()
                    == shard_amount,
                None => !valid_shard_amount(shard_amount as nat),
            },
    {
        if shard_amount < 2 || !power_of_two(shard_amount) {
            return None;
        }
        let room: usize = usize::MAX - shard_amount;
        let reserve: usize = if cap > RESERVE_MAX {
            RESERVE_MAX
        } else {
            cap
        };
        let reserve: usize = if reserve > room {
            room
        } else {
            reserve
        };
        Some(Store(Arc::new(map_with_capacity_and_shard_amount(reserve, shard_amount))))
    }

    /// A copy of the value that the store holds for `key`, if it holds one.
    pub fn get(&self, key: &DataType) -> Option<DataType> {
        map_get(&self.0, key)
    }

    /// Puts `new_val` under `key` and answers with the value that was
    /// there before, or with the `no_exist` error when there was none.
    pub fn get_set(&self, key: &DataType, new_val: &DataType) -> DataType {
        let existing_val = map_insert(&self.0, key.clone(), new_val.clone());
        prior_or_no_exist(existing_val)
    }

    /// Takes the entry of `key` out of the store and answers with its
    /// value, if there was one.
    pub fn get_del(&self, key: &DataType) -> Option<DataType> {
        map_remove(&self.0, key)
    }

    /// Puts `value` under `key` and answers with the value that was there
    /// before, if there was one.
    pub fn set(&self, key: &DataType, value: &DataType) -> Option<DataType> {
        map_insert(&self.0, key.clone(), value.clone())
    }
}

impl Clone for Store {
    /// A second handle on the same store: what is put into the store
    /// through one handle is found through the other.
    fn clone(&self) -> (r: Self)
        ensures
            r == *self,
    {
        Store(self.0.clone())
    }
}

/// The number of shards a map was made with. A map keeps its shards for as
/// long as it lives: no operation adds or removes one.
pub uninterp spec fn shard_count(map: DashMap<DataType, DataType>) -> nat;

/// `dashmap::Map::_shard_count`: the number of shards of the map.
#[verifier::external_body]
fn map_shard_count(map: &DashMap<DataType, DataType>) -> (n: usize)
    ensures
        n == shard_count(*map),
{
    dashmap::Map::_shard_count(map)
}

impl Store {
    /// The number of shards the store is split into.
    pub closed spec fn shard_amount(&self) -> nat {
        shard_count(*self.0)
    }

    /// The number of shards the store is split into.
    pub fn shards(&self) -> (n: usize)
        ensures
            n == self.shard_amount(),
    {
        map_shard_count(&self.0)
    }
}

} // verus!
