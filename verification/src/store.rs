//! The sharded key/value store: a fixed number of maps from text keys to
//! byte values, and a hash of the key that picks the map.

use vstd::prelude::*;
use vstd::hash_map::StringHashMap;
use vstd::std_specs::hash::DefaultHasherAdditionalSpecFns;
use vstd::utf8::encode_utf8;
use std::collections::hash_map::DefaultHasher;
use std::hash::Hasher;
use crate::command::Command;
use crate::frame::RespFrame;
use crate::server::{answer, execute, shows};

verus! {

/// The byte that closes a key in the hasher's input, after the key's bytes.
pub const KEY_END: u8 = 0xff;

/// The hash of a key: what the default hasher, freshly made, gives after the
/// key's UTF-8 bytes and the closing byte were written to it.
pub open spec fn key_hash(key: Seq<char>) -> u64 {
    DefaultHasher::spec_finish(seq![encode_utf8(key), seq![KEY_END]])
}

/// The shard that `key` belongs to in a store of `shards` shards.
pub open spec fn shard_index(key: Seq<char>, shards: nat) -> nat
    recommends
        shards > 0,
{
    key_hash(key) as nat % shards
}

/// Hashes a key. The same key always hashes to the same number.
pub fn hash(value: &str) -> (h: u64)
    ensures
        h == key_hash(value@),
{
    let mut hasher = DefaultHasher::new();
    hasher.write(value.as_bytes());
    let end: [u8; 1] = [KEY_END];
    hasher.write(end.as_slice());
    proof {
        assert(end@ =~= seq![KEY_END]);
        assert(hasher@ =~= seq![encode_utf8(value@), seq![KEY_END]]);
    }
    hasher.finish()
}

/// The shard that a key with hash `h` belongs to among `shards` shards.
pub fn pick_shard(h: u64, shards: usize) -> (i: usize)
    requires
        shards >= 1,
    ensures
        i == h as nat % shards as nat,
        i < shards,
{
    (h % (shards as u64)) as usize
}

/// One partition of the key space.
pub struct Shard {
    entries: StringHashMap<Vec<u8>>,
}

impl View for Shard {
    type V = Map<Seq<char>, Seq<u8>>;

    closed spec fn view(&self) -> Map<Seq<char>, Seq<u8>> {
        self.entries@.map_values(|v: Vec<u8>| v@)
    }
}

impl Shard {
    /// A shard that holds nothing.
    pub fn new() -> (s: Self)
        ensures
            s@ == Map::<Seq<char>, Seq<u8>>::empty(),
    {
        let s = Shard { entries: StringHashMap::new() };
        proof {
            assert(s@ =~= Map::<Seq<char>, Seq<u8>>::empty());
        }
        s
    }

    /// A copy of the value stored under `key`, if there is one.
    pub fn get(&self, key: &str) -> (r: Option<Vec<u8>>)
        ensures
            self@.contains_key(key@) <==> r is Some,
            r matches Some(v) ==> v@ == self@[key@],
    {
        match self.entries.get(key) {
            Some(v) => Some(v.clone()),
            None => None,
        }
    }

    /// Stores `value` under `key` and returns a copy of what was there.
    pub fn insert(&mut self, key: &str, value: Vec<u8>) -> (r: Option<Vec<u8>>)
        ensures
            final(self)@ == old(self)@.insert(key@, value@),
            old(self)@.contains_key(key@) <==> r is Some,
            r matches Some(v) ==> v@ == old(self)@[key@],
    {
        let previous = self.get(key);
        self.entries.insert(key.to_owned(), value);
        proof {
            assert(final(self)@ =~= old(self)@.insert(key@, value@));
        }
        previous
    }
}

/// The store: a fixed number of shards, each key in the one that its hash picks.
pub struct ShardedDB {
    shards: Vec<Shard>,
}

impl View for ShardedDB {
    type V = Map<Seq<char>, Seq<u8>>;

    /// Every key that some shard holds, with its value.
    closed spec fn view(&self) -> Map<Seq<char>, Seq<u8>> {
        Map::new(
            |k: Seq<char>| self.home(k).contains_key(k),
            |k: Seq<char>| self.home(k)[k],
        )
    }
}

impl ShardedDB {
    /// The number of shards, fixed when the store is made.
    pub closed spec fn shard_count(&self) -> nat {
        self.shards@.len()
    }

    /// The contents of the shard that `key` belongs to.
    pub closed spec fn home(&self, key: Seq<char>) -> Map<Seq<char>, Seq<u8>> {
        self.shards@[shard_index(key, self.shards@.len()) as int]@
    }

    /// There is at least one shard, and a shard holds only keys that belong to it.
    pub closed spec fn wf(&self) -> bool {
        &&& self.shards@.len() >= 1
        &&& forall|i: int, k: Seq<char>|
            0 <= i < self.shards@.len() && (#[trigger] self.shards@[i]@.contains_key(k))
                ==> shard_index(k, self.shards@.len()) == i
    }

    /// A store of `n` empty shards.
    pub fn new(n: usize) -> (db: Self)
        requires
            n >= 1,
        ensures
            db.wf(),
            db.shard_count() == n,
            db@ == Map::<Seq<char>, Seq<u8>>::empty(),
    {
        let mut shards: Vec<Shard> = Vec::with_capacity(n);
        let mut i: usize = 0;
        while i < n
            invariant
                i <= n,
                shards@.len() == i,
                forall|j: int|
                    0 <= j < i ==> (#[trigger] shards@[j])@ == Map::<Seq<char>, Seq<u8>>::empty(),
            decreases n - i,
        {
            shards.push(Shard::new());
            i += 1;
        }
        let db = ShardedDB { shards };
        proof {
            assert forall|k: Seq<char>| !db@.contains_key(k) by {
                assert(shard_index(k, n as nat) < n) by (nonlinear_arith)
                    requires
                        n >= 1,
                        shard_index(k, n as nat) == key_hash(k) as nat % (n as nat),
                ;
            }
            assert(db@ =~= Map::<Seq<char>, Seq<u8>>::empty());
        }
        db
    }

    /// The index of the shard that `key` belongs to: its hash modulo the
    /// number of shards. The same key always gives the same index.
    pub fn index(&self, key: &str) -> (i: usize)
        requires
            self.wf(),
        ensures
            i == shard_index(key@, self.shard_count()),
            i < self.shard_count(),
    {
        pick_shard(hash(key), self.shards.len())
    }

    /// Carries out a command on the shard that serves it and returns the
    /// response frame.
    pub fn apply(&mut self, command: Command) -> (r: RespFrame)
        requires
            old(self).wf(),
        ensures
            final(self).wf(),
            final(self).shard_count() == old(self).shard_count(),
            shows(r, answer(old(self)@, command@).0),
            final(self)@ == answer(old(self)@, command@).1,
    {
        let i = command.shard(self.shards.len());
        let r = execute(&mut self.shards[i], command);
        proof {
            assert(final(self)@ =~= answer(old(self)@, command@).1);
        }
        r
    }

    /// A copy of the value stored under `key`, if there is one. A key that
    /// was never stored gives `None`.
    pub fn get(&self, key: &str) -> (r: Option<Vec<u8>>)
        requires
            self.wf(),
        ensures
            self@.contains_key(key@) <==> r is Some,
            r matches Some(v) ==> v@ == self@[key@],
    {
        let i = self.index(key);
        self.shards[i].get(key)
    }

    /// Stores `value` under `key`, in place of what was there, and returns a
    /// copy of what was there. No other key changes.
    pub fn insert(&mut self, key: &str, value: Vec<u8>) -> (r: Option<Vec<u8>>)
        requires
            old(self).wf(),
        ensures
            final(self).wf(),
            final(self).shard_count() == old(self).shard_count(),
            final(self)@ == old(self)@.insert(key@, value@),
            old(self)@.contains_key(key@) <==> r is Some,
            r matches Some(v) ==> v@ == old(self)@[key@],
    {
        let i = self.index(key);
        let previous = self.shards[i].insert(key, value);
        proof {
            assert(final(self)@ =~= old(self)@.insert(key@, value@));
        }
        previous
    }
}

/// Write, then read: after `value` was stored under `key`, the store holds
/// exactly `value` under `key`.
pub proof fn law_write_then_read(before: ShardedDB, after: ShardedDB, key: Seq<char>, value: Seq<u8>)
    requires
        after@ == before@.insert(key, value),
    ensures
        after@.contains_key(key),
        after@[key] == value,
{
}

/// A write leaves every other key as it was.
pub proof fn law_write_keeps_other_keys(
    before: ShardedDB,
    after: ShardedDB,
    key: Seq<char>,
    value: Seq<u8>,
    other: Seq<char>,
)
    requires
        after@ == before@.insert(key, value),
        other != key,
    ensures
        after@.contains_key(other) == before@.contains_key(other),
        before@.contains_key(other) ==> after@[other] == before@[other],
{
}

/// The shard of a key depends on the key and the number of shards alone,
/// and lies below that number.
pub proof fn law_shard_of_key(key: Seq<char>, shards: nat)
    requires
        shards >= 1,
    ensures
        shard_index(key, shards) < shards,
        shard_index(key, shards) == key_hash(key) as nat % shards,
{
    assert(key_hash(key) as nat % shards < shards) by (nonlinear_arith)
        requires
            shards >= 1,
    ;
}

} // verus!
