//! Reference semantics of the runtime dictionary entry points.
//!
//! The dictionary itself lives in a pre-compiled, type-erased runtime
//! library; its hash-table internals (collision handling, capacity
//! growth) are opaque here. What the dispatcher is entitled to rely on
//! is the observable behavior of each entry point over the stored
//! entry sequence, and this module states that behavior as verified
//! operations on `RuntimeDict`, with contracts over the entry model.

use vstd::prelude::*;

use crate::bridge::Entry;
use crate::bridge::RuntimeDict;
use crate::bridge::entries_model;
use crate::model::EntryModel;
use crate::model::has_key;
use crate::model::index_of;
use crate::model::insert_entry;
use crate::model::keys_unique;
use crate::model::lemma_index_of;
use crate::model::lemma_index_of_unique;
use crate::model::lemma_insert_entry;
use crate::model::remove_entry;
use crate::model::union_entries;
use crate::model::intersect_entries;
use crate::model::difference_entries;
use crate::model::value_of;
use crate::model::zero_bytes;

verus! {

/// Byte-for-byte equality of two opaque values, as the runtime's key
/// probing observes it.
pub fn bytes_eq(a: &Vec<u8>, b: &Vec<u8>) -> (r: bool)
    ensures
        r == (a@ == b@),
{
    if a.len() != b.len() {
        return false;
    }
    let n = a.len();
    let mut i: usize = 0;
    while i < n
        invariant
            n == a@.len(),
            n == b@.len(),
            0 <= i <= n,
            forall|j: int| 0 <= j < i ==> a@[j] == b@[j],
        decreases n - i,
    {
        if a[i] != b[i] {
            return false;
        }
        i += 1;
    }
    proof {
        assert(a@ =~= b@);
    }
    true
}

/// A fresh copy of an opaque value's bytes.
pub fn copy_bytes(v: &Vec<u8>) -> (r: Vec<u8>)
    ensures
        r@ == v@,
{
    let n = v.len();
    let mut r: Vec<u8> = Vec::new();
    let mut i: usize = 0;
    while i < n
        invariant
            n == v@.len(),
            0 <= i <= n,
            r@ =~= v@.take(i as int),
        decreases n - i,
    {
        r.push(v[i]);
        proof {
            assert(r@ =~= v@.take(i as int + 1));
        }
        i += 1;
    }
    proof {
        assert(v@.take(n as int) =~= v@);
    }
    r
}

/// The all-zero bit pattern of a value `width` bytes wide.
pub fn zeroed(width: usize) -> (r: Vec<u8>)
    ensures
        r@ == zero_bytes(width as nat),
{
    let mut r: Vec<u8> = Vec::new();
    let mut i: usize = 0;
    while i < width
        invariant
            0 <= i <= width,
            r@ =~= zero_bytes(i as nat),
        decreases width - i,
    {
        r.push(0u8);
        proof {
            assert(r@ =~= zero_bytes(i as nat + 1));
        }
        i += 1;
    }
    r
}

/// Position of the first entry holding the probed key, if any.
fn find_index(entries: &Vec<Entry>, key: &Vec<u8>) -> (r: Option<usize>)
    ensures
        match r {
            Some(i) => i < entries@.len() && entries@[i as int]@.key == key@ && forall|j: int|
                0 <= j < i ==> entries@[j]@.key != key@,
            None => forall|j: int| 0 <= j < entries@.len() ==> entries@[j]@.key != key@,
        },
{
    let n = entries.len();
    let mut i: usize = 0;
    while i < n
        invariant
            n == entries@.len(),
            0 <= i <= n,
            forall|j: int| 0 <= j < i ==> entries@[j]@.key != key@,
        decreases n - i,
    {
        if bytes_eq(&entries[i].key, key) {
            return Some(i);
        }
        i += 1;
    }
    None
}

/// Replaces the entry at a slot, leaving the rest untouched.
fn set_entry(entries: &mut Vec<Entry>, i: usize, e: Entry)
    requires
        i < old(entries)@.len(),
    ensures
        final(entries)@ == old(entries)@.update(i as int, e),
{
    let slot = &mut entries[i];
    *slot = e;
}

/// No entry holds `key` exactly when the model says the key is absent.
proof fn lemma_no_match_absent(s: Seq<Entry>, k: Seq<u8>)
    requires
        forall|j: int| 0 <= j < s.len() ==> #[trigger] s[j]@.key != k,
    ensures
        !has_key(entries_model(s), k),
{
    if has_key(entries_model(s), k) {
        let w = index_of(entries_model(s), k);
        lemma_index_of(entries_model(s), k);
        assert(s[w]@.key == k);
    }
}

impl RuntimeDict {
    /// A zero-entry dictionary, as the construction entry point
    /// produces it.
    pub fn empty() -> (r: RuntimeDict)
        ensures
            r@ == Seq::<EntryModel>::empty(),
    {
        let entries: Vec<Entry> = Vec::new();
        proof {
            assert(entries_model(entries@) =~= Seq::<EntryModel>::empty());
        }
        RuntimeDict { entries }
    }

    /// The number of stored entries.
    pub fn len(&self) -> (n: usize)
        ensures
            n == self@.len(),
    {
        self.entries.len()
    }

    /// Whether some entry holds the probed key.
    pub fn contains(&self, key: &Vec<u8>) -> (r: bool)
        ensures
            r == has_key(self@, key@),
    {
        match find_index(&self.entries, key) {
            Some(i) => {
                proof {
                    assert(self@[i as int].key == key@);
                }
                true
            },
            None => {
                proof {
                    lemma_no_match_absent(self.entries@, key@);
                }
                false
            },
        }
    }

    /// Binds `key` to `value`: overwrites the slot holding `key`, or
    /// appends a fresh entry when the key is absent. The displaced
    /// payload, if any, is released by the decrement capabilities the
    /// dispatcher passes along.
    pub fn insert(self, key: Vec<u8>, value: Vec<u8>) -> (r: RuntimeDict)
        requires
            keys_unique(self@),
        ensures
            r@ == insert_entry(self@, key@, value@),
    {
        let ghost s0 = self@;
        let ghost kk = key@;
        let ghost vv = value@;
        let mut d = self;
        match find_index(&d.entries, &key) {
            Some(i) => {
                proof {
                    assert(s0[i as int].key == kk);
                    lemma_index_of_unique(s0, kk, i as int);
                }
                set_entry(&mut d.entries, i, Entry { key, value });
                proof {
                    assert(d@ =~= s0.update(i as int, EntryModel { key: kk, value: vv }));
                }
                d
            },
            None => {
                proof {
                    lemma_no_match_absent(d.entries@, kk);
                }
                d.entries.push(Entry { key, value });
                proof {
                    assert(d@ =~= s0.push(EntryModel { key: kk, value: vv }));
                }
                d
            },
        }
    }

    /// Drops the entry holding `key`, if any; an absent key leaves the
    /// dictionary unchanged.
    pub fn remove(self, key: &Vec<u8>) -> (r: RuntimeDict)
        requires
            keys_unique(self@),
        ensures
            r@ == remove_entry(self@, key@),
    {
        let ghost s0 = self@;
        let mut d = self;
        match find_index(&d.entries, key) {
            Some(i) => {
                proof {
                    assert(s0[i as int].key == key@);
                    lemma_index_of_unique(s0, key@, i as int);
                }
                let _ = d.entries.remove(i);
                proof {
                    assert(d@ =~= s0.remove(i as int));
                }
                d
            },
            None => {
                proof {
                    lemma_no_match_absent(d.entries@, key@);
                }
                d
            },
        }
    }

    /// The stored payload for `key`: a reference into the table when
    /// the key is present, and nothing otherwise — the runtime's
    /// result pointer is meaningless on a miss and must not be read.
    pub fn get_ptr<'a>(&'a self, key: &Vec<u8>) -> (r: Option<&'a Vec<u8>>)
        requires
            keys_unique(self@),
        ensures
            match r {
                Some(v) => has_key(self@, key@) && v@ == value_of(self@, key@),
                None => !has_key(self@, key@),
            },
    {
        match find_index(&self.entries, key) {
            Some(i) => {
                proof {
                    assert(self@[i as int].key == key@);
                    lemma_index_of_unique(self@, key@, i as int);
                }
                Some(&self.entries[i].value)
            },
            None => {
                proof {
                    lemma_no_match_absent(self.entries@, key@);
                }
                None
            },
        }
    }

    /// The stored keys, in storage order.
    pub fn keys(&self) -> (r: Vec<Vec<u8>>)
        ensures
            r@.len() == self@.len(),
            forall|i: int| 0 <= i < self@.len() ==> #[trigger] r@[i]@ == self@[i].key,
    {
        let n = self.entries.len();
        let mut r: Vec<Vec<u8>> = Vec::new();
        let mut i: usize = 0;
        while i < n
            invariant
                n == self.entries@.len(),
                0 <= i <= n,
                r@.len() == i,
                forall|j: int| 0 <= j < i ==> #[trigger] r@[j]@ == self@[j].key,
            decreases n - i,
        {
            r.push(copy_bytes(&self.entries[i].key));
            i += 1;
        }
        r
    }

    /// The stored values, in storage order.
    pub fn values(&self) -> (r: Vec<Vec<u8>>)
        ensures
            r@.len() == self@.len(),
            forall|i: int| 0 <= i < self@.len() ==> #[trigger] r@[i]@ == self@[i].value,
    {
        let n = self.entries.len();
        let mut r: Vec<Vec<u8>> = Vec::new();
        let mut i: usize = 0;
        while i < n
            invariant
                n == self.entries@.len(),
                0 <= i <= n,
                r@.len() == i,
                forall|j: int| 0 <= j < i ==> #[trigger] r@[j]@ == self@[j].value,
            decreases n - i,
        {
            r.push(copy_bytes(&self.entries[i].value));
            i += 1;
        }
        r
    }

    /// A dictionary holding the entries of both sides; on a shared key
    /// the second argument's binding wins.
    pub fn union(self, other: &RuntimeDict) -> (r: RuntimeDict)
        requires
            keys_unique(self@),
            keys_unique(other@),
        ensures
            r@ == union_entries(self@, other@),
    {
        let ghost a = self@;
        let ghost b = other@;
        let mut out = self;
        let n = other.entries.len();
        let mut i: usize = 0;
        proof {
            assert(b.take(0) =~= Seq::<EntryModel>::empty());
        }
        while i < n
            invariant
                0 <= i <= n,
                n == other.entries@.len(),
                b == entries_model(other.entries@),
                keys_unique(b),
                out@ == union_entries(a, b.take(i as int)),
                keys_unique(out@),
            decreases n - i,
        {
            let e_key = copy_bytes(&other.entries[i].key);
            let e_val = copy_bytes(&other.entries[i].value);
            let ghost prev = out@;
            out = out.insert(e_key, e_val);
            proof {
                lemma_insert_entry(prev, b[i as int].key, b[i as int].value);
                let t1 = b.take(i as int + 1);
                assert(t1.drop_last() =~= b.take(i as int));
                assert(t1.last() == b[i as int]);
                assert(union_entries(a, t1) == insert_entry(
                    union_entries(a, b.take(i as int)),
                    b[i as int].key,
                    b[i as int].value,
                ));
            }
            i += 1;
        }
        proof {
            assert(b.take(n as int) =~= b);
        }
        out
    }

    /// A dictionary holding the entries of `self` whose key `other`
    /// also holds.
    pub fn intersection(&self, other: &RuntimeDict) -> (r: RuntimeDict)
        ensures
            r@ == intersect_entries(self@, other@),
    {
        let ghost a = self@;
        let ghost b = other@;
        let mut out_entries: Vec<Entry> = Vec::new();
        let n = self.entries.len();
        let mut i: usize = 0;
        proof {
            assert(a.take(0) =~= Seq::<EntryModel>::empty());
            assert(entries_model(out_entries@) =~= intersect_entries(a.take(0), b));
        }
        while i < n
            invariant
                0 <= i <= n,
                n == self.entries@.len(),
                a == entries_model(self.entries@),
                b == other@,
                entries_model(out_entries@) == intersect_entries(a.take(i as int), b),
            decreases n - i,
        {
            let ghost before = entries_model(out_entries@);
            let hit = other.contains(&self.entries[i].key);
            if hit {
                out_entries.push(
                    Entry {
                        key: copy_bytes(&self.entries[i].key),
                        value: copy_bytes(&self.entries[i].value),
                    },
                );
            }
            proof {
                let t1 = a.take(i as int + 1);
                assert(t1.drop_last() =~= a.take(i as int));
                assert(t1.last() == a[i as int]);
                if hit {
                    assert(entries_model(out_entries@) =~= before.push(a[i as int]));
                }
            }
            i += 1;
        }
        proof {
            assert(a.take(n as int) =~= a);
        }
        RuntimeDict { entries: out_entries }
    }

    /// A dictionary holding the entries of `self` whose key `other`
    /// does not hold.
    pub fn difference(&self, other: &RuntimeDict) -> (r: RuntimeDict)
        ensures
            r@ == difference_entries(self@, other@),
    {
        let ghost a = self@;
        let ghost b = other@;
        let mut out_entries: Vec<Entry> = Vec::new();
        let n = self.entries.len();
        let mut i: usize = 0;
        proof {
            assert(a.take(0) =~= Seq::<EntryModel>::empty());
            assert(entries_model(out_entries@) =~= difference_entries(a.take(0), b));
        }
        while i < n
            invariant
                0 <= i <= n,
                n == self.entries@.len(),
                a == entries_model(self.entries@),
                b == other@,
                entries_model(out_entries@) == difference_entries(a.take(i as int), b),
            decreases n - i,
        {
            let ghost before = entries_model(out_entries@);
            let hit = other.contains(&self.entries[i].key);
            if !hit {
                out_entries.push(
                    Entry {
                        key: copy_bytes(&self.entries[i].key),
                        value: copy_bytes(&self.entries[i].value),
                    },
                );
            }
            proof {
                let t1 = a.take(i as int + 1);
                assert(t1.drop_last() =~= a.take(i as int));
                assert(t1.last() == a[i as int]);
                if !hit {
                    assert(entries_model(out_entries@) =~= before.push(a[i as int]));
                }
            }
            i += 1;
        }
        proof {
            assert(a.take(n as int) =~= a);
        }
        RuntimeDict { entries: out_entries }
    }
}

} // verus!
