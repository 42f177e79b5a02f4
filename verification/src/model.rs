//! Mathematical model of the runtime dictionary.
//!
//! The runtime stores a dictionary as a sequence of (key, value) slot
//! pairs, each an opaque byte string, with no two pairs sharing a key.
//! This module defines that model — entry sequences, lookup, and the
//! effect of every dictionary primitive — together with the laws the
//! primitives obey. The executable bridge states its contracts over
//! these functions.

use vstd::prelude::*;

verus! {

/// One stored pair: the key's bytes and the value's bytes.
#[verifier::ext_equal]
pub ghost struct EntryModel {
    pub key: Seq<u8>,
    pub value: Seq<u8>,
}

/// Whether some entry holds the probed key.
pub open spec fn has_key(s: Seq<EntryModel>, k: Seq<u8>) -> bool {
    exists|i: int| 0 <= i < s.len() && #[trigger] s[i].key == k
}

/// The position of the entry holding `k` (unique when keys are unique).
pub open spec fn index_of(s: Seq<EntryModel>, k: Seq<u8>) -> int {
    choose|i: int| 0 <= i < s.len() && #[trigger] s[i].key == k
}

/// The value bound to `k`.
pub open spec fn value_of(s: Seq<EntryModel>, k: Seq<u8>) -> Seq<u8> {
    s[index_of(s, k)].value
}

/// No two entries share a key: the storage invariant every runtime
/// operation preserves.
pub open spec fn keys_unique(s: Seq<EntryModel>) -> bool {
    forall|i: int, j: int| 0 <= i < j < s.len() ==> #[trigger] s[i].key != #[trigger] s[j].key
}

/// Every key slot holds exactly `kw` bytes and every value slot `vw`.
pub open spec fn widths_ok(s: Seq<EntryModel>, kw: nat, vw: nat) -> bool {
    forall|i: int| 0 <= i < s.len() ==> #[trigger] s[i].key.len() == kw && s[i].value.len() == vw
}

/// The all-zero bit pattern of a `n`-byte value.
pub open spec fn zero_bytes(n: nat) -> Seq<u8> {
    Seq::new(n, |i: int| 0u8)
}

/// Effect of `insert`: overwrite the slot holding `k` in place, or
/// append a fresh entry when `k` is absent.
pub open spec fn insert_entry(s: Seq<EntryModel>, k: Seq<u8>, v: Seq<u8>) -> Seq<EntryModel> {
    if has_key(s, k) {
        s.update(index_of(s, k), EntryModel { key: k, value: v })
    } else {
        s.push(EntryModel { key: k, value: v })
    }
}

/// Effect of `remove`: drop the slot holding `k`, if any.
pub open spec fn remove_entry(s: Seq<EntryModel>, k: Seq<u8>) -> Seq<EntryModel> {
    if has_key(s, k) {
        s.remove(index_of(s, k))
    } else {
        s
    }
}

/// Effect of `union`: insert every entry of `b` into `a` in storage
/// order, so on a shared key the second argument's value wins.
pub open spec fn union_entries(a: Seq<EntryModel>, b: Seq<EntryModel>) -> Seq<EntryModel>
    decreases b.len(),
{
    if b.len() == 0 {
        a
    } else {
        insert_entry(union_entries(a, b.drop_last()), b.last().key, b.last().value)
    }
}

/// Effect of `intersection`: the entries of `a` whose key `b` also
/// holds, keeping `a`'s values.
pub open spec fn intersect_entries(a: Seq<EntryModel>, b: Seq<EntryModel>) -> Seq<EntryModel>
    decreases a.len(),
{
    if a.len() == 0 {
        a
    } else {
        let rest = intersect_entries(a.drop_last(), b);
        if has_key(b, a.last().key) {
            rest.push(a.last())
        } else {
            rest
        }
    }
}

/// Effect of `difference`: the entries of `a` whose key `b` does not
/// hold.
pub open spec fn difference_entries(a: Seq<EntryModel>, b: Seq<EntryModel>) -> Seq<EntryModel>
    decreases a.len(),
{
    if a.len() == 0 {
        a
    } else {
        let rest = difference_entries(a.drop_last(), b);
        if has_key(b, a.last().key) {
            rest
        } else {
            rest.push(a.last())
        }
    }
}

/// When `k` is present, `index_of` names a real slot holding `k`; with
/// unique keys it is the only one.
pub proof fn lemma_index_of(s: Seq<EntryModel>, k: Seq<u8>)
    requires
        has_key(s, k),
    ensures
        0 <= index_of(s, k) < s.len(),
        s[index_of(s, k)].key == k,
{
    let i = choose|i: int| 0 <= i < s.len() && #[trigger] s[i].key == k;
    assert(0 <= i < s.len() && s[i].key == k);
}

/// Under unique keys, any slot holding `k` is `index_of(s, k)`.
pub proof fn lemma_index_of_unique(s: Seq<EntryModel>, k: Seq<u8>, i: int)
    requires
        keys_unique(s),
        0 <= i < s.len(),
        s[i].key == k,
    ensures
        index_of(s, k) == i,
{
    assert(has_key(s, k));
    lemma_index_of(s, k);
}

/// `insert` binds `k` to `v`, leaves every other binding alone,
/// preserves unique keys, and grows the dictionary by one entry
/// exactly when `k` was absent.
pub proof fn lemma_insert_entry(s: Seq<EntryModel>, k: Seq<u8>, v: Seq<u8>)
    requires
        keys_unique(s),
    ensures
        keys_unique(insert_entry(s, k, v)),
        has_key(insert_entry(s, k, v), k),
        value_of(insert_entry(s, k, v), k) == v,
        forall|k2: Seq<u8>|
            k2 != k ==> #[trigger] has_key(insert_entry(s, k, v), k2) == has_key(s, k2),
        forall|k2: Seq<u8>|
            k2 != k && has_key(s, k2) ==> #[trigger] value_of(insert_entry(s, k, v), k2)
                == value_of(s, k2),
        insert_entry(s, k, v).len() == if has_key(s, k) {
            s.len() as int
        } else {
            s.len() as int + 1
        },
{
    let r = insert_entry(s, k, v);
    if has_key(s, k) {
        lemma_index_of(s, k);
        let i = index_of(s, k);
        assert(r[i].key == k);
        assert(keys_unique(r)) by {
            assert forall|p: int, q: int| 0 <= p < q < r.len() implies r[p].key != r[q].key by {
                if p != i && q != i {
                    assert(r[p] == s[p] && r[q] == s[q]);
                }
                if p == i {
                    assert(r[q] == s[q] && s[i].key == k);
                }
                if q == i {
                    assert(r[p] == s[p] && s[i].key == k);
                }
            }
        }
        lemma_index_of_unique(r, k, i);
        assert forall|k2: Seq<u8>| k2 != k implies #[trigger] has_key(r, k2) == has_key(s, k2) by {
            if has_key(s, k2) {
                let w = index_of(s, k2);
                lemma_index_of(s, k2);
                assert(w != i);
                assert(r[w].key == k2);
            }
            if has_key(r, k2) {
                let w = index_of(r, k2);
                lemma_index_of(r, k2);
                assert(w != i);
                assert(s[w].key == k2);
            }
        }
        assert forall|k2: Seq<u8>| k2 != k && has_key(s, k2) implies #[trigger] value_of(r, k2)
            == value_of(s, k2) by {
            let w = index_of(s, k2);
            lemma_index_of(s, k2);
            assert(w != i);
            assert(r[w].key == k2);
            lemma_index_of_unique(r, k2, w);
        }
    } else {
        let n = s.len() as int;
        assert(r[n].key == k);
        assert(keys_unique(r)) by {
            assert forall|p: int, q: int| 0 <= p < q < r.len() implies r[p].key != r[q].key by {
                if q < n {
                    assert(r[p] == s[p] && r[q] == s[q]);
                } else {
                    assert(r[p] == s[p]);
                    if s[p].key == k {
                        assert(has_key(s, k));
                    }
                }
            }
        }
        lemma_index_of_unique(r, k, n);
        assert forall|k2: Seq<u8>| k2 != k implies #[trigger] has_key(r, k2) == has_key(s, k2) by {
            if has_key(s, k2) {
                let w = index_of(s, k2);
                lemma_index_of(s, k2);
                assert(r[w].key == k2);
            }
            if has_key(r, k2) {
                let w = index_of(r, k2);
                lemma_index_of(r, k2);
                assert(w != n);
                assert(s[w].key == k2);
            }
        }
        assert forall|k2: Seq<u8>| k2 != k && has_key(s, k2) implies #[trigger] value_of(r, k2)
            == value_of(s, k2) by {
            let w = index_of(s, k2);
            lemma_index_of(s, k2);
            assert(r[w].key == k2);
            lemma_index_of_unique(r, k2, w);
        }
    }
}

/// `insert` keeps the slot widths when the new entry has them.
pub proof fn lemma_insert_widths(s: Seq<EntryModel>, k: Seq<u8>, v: Seq<u8>, kw: nat, vw: nat)
    requires
        widths_ok(s, kw, vw),
        k.len() == kw,
        v.len() == vw,
    ensures
        widths_ok(insert_entry(s, k, v), kw, vw),
{
    if has_key(s, k) {
        lemma_index_of(s, k);
    }
}

/// `remove` drops `k`'s binding, leaves every other binding alone,
/// preserves unique keys, and shrinks by one entry exactly when `k`
/// was present.
pub proof fn lemma_remove_entry(s: Seq<EntryModel>, k: Seq<u8>)
    requires
        keys_unique(s),
    ensures
        keys_unique(remove_entry(s, k)),
        !has_key(remove_entry(s, k), k),
        forall|k2: Seq<u8>|
            k2 != k ==> #[trigger] has_key(remove_entry(s, k), k2) == has_key(s, k2),
        forall|k2: Seq<u8>|
            k2 != k && has_key(s, k2) ==> #[trigger] value_of(remove_entry(s, k), k2)
                == value_of(s, k2),
        remove_entry(s, k).len() == if has_key(s, k) {
            s.len() - 1
        } else {
            s.len() as int
        },
{
    let r = remove_entry(s, k);
    if has_key(s, k) {
        lemma_index_of(s, k);
        let i = index_of(s, k);
        assert(keys_unique(r)) by {
            assert forall|p: int, q: int| 0 <= p < q < r.len() implies r[p].key != r[q].key by {
                let sp: int = if p < i { p } else { p + 1 };
                let sq: int = if q < i { q } else { q + 1 };
                assert(r[p] == s[sp] && r[q] == s[sq]);
            }
        }
        assert(!has_key(r, k)) by {
            if has_key(r, k) {
                let w = index_of(r, k);
                lemma_index_of(r, k);
                let sw: int = if w < i { w } else { w + 1 };
                assert(r[w] == s[sw]);
                assert(sw != i);
                lemma_index_of_unique(s, k, sw);
            }
        }
        assert forall|k2: Seq<u8>| k2 != k implies #[trigger] has_key(r, k2) == has_key(s, k2) by {
            if has_key(s, k2) {
                let w = index_of(s, k2);
                lemma_index_of(s, k2);
                assert(w != i);
                let rw: int = if w < i { w } else { w - 1 };
                assert(r[rw] == s[w]);
            }
            if has_key(r, k2) {
                let w = index_of(r, k2);
                lemma_index_of(r, k2);
                let sw: int = if w < i { w } else { w + 1 };
                assert(r[w] == s[sw]);
            }
        }
        assert forall|k2: Seq<u8>| k2 != k && has_key(s, k2) implies #[trigger] value_of(r, k2)
            == value_of(s, k2) by {
            let w = index_of(s, k2);
            lemma_index_of(s, k2);
            assert(w != i);
            let rw: int = if w < i { w } else { w - 1 };
            assert(r[rw] == s[w]);
            lemma_index_of_unique(r, k2, rw);
            lemma_index_of_unique(s, k2, w);
        }
    }
}

/// `remove` keeps the slot widths.
pub proof fn lemma_remove_widths(s: Seq<EntryModel>, k: Seq<u8>, kw: nat, vw: nat)
    requires
        widths_ok(s, kw, vw),
    ensures
        widths_ok(remove_entry(s, k), kw, vw),
{
    if has_key(s, k) {
        lemma_index_of(s, k);
        let r = remove_entry(s, k);
        let i = index_of(s, k);
        assert forall|p: int| 0 <= p < r.len() implies #[trigger] r[p].key.len() == kw
            && r[p].value.len() == vw by {
            let sp: int = if p < i { p } else { p + 1 };
            assert(s[sp].key.len() == kw && s[sp].value.len() == vw);
            assert(r[p] == s[sp]);
        }
    }
}

/// Dropping the last entry keeps keys unique.
pub proof fn lemma_drop_last_unique(s: Seq<EntryModel>)
    requires
        keys_unique(s),
        s.len() > 0,
    ensures
        keys_unique(s.drop_last()),
{
}

/// Key membership and bindings of a key other than the last entry's
/// survive dropping the last entry.
pub proof fn lemma_drop_last_lookup(s: Seq<EntryModel>, k: Seq<u8>)
    requires
        keys_unique(s),
        s.len() > 0,
        k != s.last().key,
    ensures
        has_key(s.drop_last(), k) == has_key(s, k),
        has_key(s, k) ==> value_of(s.drop_last(), k) == value_of(s, k),
{
    let d = s.drop_last();
    if has_key(s, k) {
        let w = index_of(s, k);
        lemma_index_of(s, k);
        assert(w != s.len() - 1);
        assert(d[w] == s[w]);
        lemma_index_of_unique(d, k, w);
        lemma_index_of_unique(s, k, w);
    }
    if has_key(d, k) {
        let w = index_of(d, k);
        lemma_index_of(d, k);
        assert(s[w] == d[w]);
    }
}

/// `union` holds exactly the keys of either side, keeps unique keys,
/// never exceeds the two lengths combined, and on a shared key the
/// second argument's binding wins.
pub proof fn lemma_union_entries(a: Seq<EntryModel>, b: Seq<EntryModel>)
    requires
        keys_unique(a),
        keys_unique(b),
    ensures
        keys_unique(union_entries(a, b)),
        union_entries(a, b).len() <= a.len() + b.len(),
        forall|k: Seq<u8>|
            #[trigger] has_key(union_entries(a, b), k) == (has_key(a, k) || has_key(b, k)),
        forall|k: Seq<u8>|
            has_key(b, k) ==> #[trigger] value_of(union_entries(a, b), k) == value_of(b, k),
        forall|k: Seq<u8>|
            !has_key(b, k) && has_key(a, k) ==> #[trigger] value_of(union_entries(a, b), k)
                == value_of(a, k),
    decreases b.len(),
{
    let u = union_entries(a, b);
    if b.len() == 0 {
        assert forall|k: Seq<u8>| #[trigger] has_key(u, k) == (has_key(a, k) || has_key(b, k)) by {
            if has_key(b, k) {
                lemma_index_of(b, k);
            }
        }
    } else {
        let b0 = b.drop_last();
        let lk = b.last().key;
        let lv = b.last().value;
        lemma_drop_last_unique(b);
        lemma_union_entries(a, b0);
        let u0 = union_entries(a, b0);
        lemma_insert_entry(u0, lk, lv);
        assert(u == insert_entry(u0, lk, lv));
        assert(has_key(b, lk)) by {
            assert(b[b.len() - 1].key == lk);
        }
        assert(value_of(b, lk) == lv) by {
            lemma_index_of_unique(b, lk, b.len() - 1);
        }
        assert forall|k: Seq<u8>| #[trigger] has_key(u, k) == (has_key(a, k) || has_key(b, k)) by {
            if k == lk {
                assert(has_key(u, k));
            } else {
                lemma_drop_last_lookup(b, k);
            }
        }
        assert forall|k: Seq<u8>| has_key(b, k) implies #[trigger] value_of(u, k)
            == value_of(b, k) by {
            if k == lk {
                assert(value_of(u, k) == lv);
            } else {
                lemma_drop_last_lookup(b, k);
                assert(value_of(u, k) == value_of(u0, k));
            }
        }
        assert forall|k: Seq<u8>| !has_key(b, k) && has_key(a, k) implies #[trigger] value_of(u, k)
            == value_of(a, k) by {
            assert(k != lk);
            lemma_drop_last_lookup(b, k);
            assert(value_of(u, k) == value_of(u0, k));
        }
    }
}

/// `union` keeps the slot widths.
pub proof fn lemma_union_widths(a: Seq<EntryModel>, b: Seq<EntryModel>, kw: nat, vw: nat)
    requires
        widths_ok(a, kw, vw),
        widths_ok(b, kw, vw),
    ensures
        widths_ok(union_entries(a, b), kw, vw),
    decreases b.len(),
{
    if b.len() > 0 {
        let b0 = b.drop_last();
        assert(widths_ok(b0, kw, vw)) by {
            assert forall|i: int| 0 <= i < b0.len() implies #[trigger] b0[i].key.len() == kw
                && b0[i].value.len() == vw by {
                assert(b[i].key.len() == kw && b[i].value.len() == vw);
            }
        }
        lemma_union_widths(a, b0, kw, vw);
        assert(b[b.len() - 1].key.len() == kw && b[b.len() - 1].value.len() == vw);
        lemma_insert_widths(union_entries(a, b0), b.last().key, b.last().value, kw, vw);
    }
}

/// `intersection` holds exactly the keys present on both sides, with
/// the first argument's values, and keeps unique keys.
pub proof fn lemma_intersect_entries(a: Seq<EntryModel>, b: Seq<EntryModel>)
    requires
        keys_unique(a),
    ensures
        keys_unique(intersect_entries(a, b)),
        intersect_entries(a, b).len() <= a.len(),
        forall|k: Seq<u8>|
            #[trigger] has_key(intersect_entries(a, b), k) == (has_key(a, k) && has_key(b, k)),
        forall|k: Seq<u8>|
            has_key(a, k) && has_key(b, k) ==> #[trigger] value_of(intersect_entries(a, b), k)
                == value_of(a, k),
    decreases a.len(),
{
    let r = intersect_entries(a, b);
    if a.len() == 0 {
        assert forall|k: Seq<u8>| #[trigger] has_key(r, k) == (has_key(a, k) && has_key(b, k)) by {
            if has_key(a, k) {
                lemma_index_of(a, k);
            }
        }
    } else {
        let a0 = a.drop_last();
        let last = a.last();
        lemma_drop_last_unique(a);
        lemma_intersect_entries(a0, b);
        let r0 = intersect_entries(a0, b);
        assert(!has_key(a0, last.key)) by {
            if has_key(a0, last.key) {
                let w = index_of(a0, last.key);
                lemma_index_of(a0, last.key);
                assert(a[w] == a0[w]);
                assert(a[w].key == a[a.len() - 1].key);
            }
        }
        assert(has_key(a, last.key)) by {
            assert(a[a.len() - 1].key == last.key);
        }
        assert(value_of(a, last.key) == last.value) by {
            lemma_index_of_unique(a, last.key, a.len() - 1);
        }
        if has_key(b, last.key) {
            assert(r == r0.push(last));
            let n = r0.len() as int;
            assert(keys_unique(r)) by {
                assert forall|p: int, q: int| 0 <= p < q < r.len() implies r[p].key
                    != r[q].key by {
                    if q < n {
                        assert(r[p] == r0[p] && r[q] == r0[q]);
                    } else {
                        assert(r[p] == r0[p]);
                        assert(has_key(r0, r0[p].key)) by {
                            assert(r0[p].key == r0[p].key);
                        }
                        assert(has_key(a0, r0[p].key));
                    }
                }
            }
            assert forall|k: Seq<u8>| #[trigger] has_key(r, k) == (has_key(a, k) && has_key(
                b,
                k,
            )) by {
                if k == last.key {
                    assert(r[n].key == k);
                } else {
                    lemma_drop_last_lookup(a, k);
                    if has_key(r0, k) {
                        let w = index_of(r0, k);
                        lemma_index_of(r0, k);
                        assert(r[w] == r0[w]);
                    }
                    if has_key(r, k) {
                        let w = index_of(r, k);
                        lemma_index_of(r, k);
                        assert(w != n);
                        assert(r0[w] == r[w]);
                    }
                }
            }
            assert forall|k: Seq<u8>| has_key(a, k) && has_key(b, k) implies #[trigger] value_of(
                r,
                k,
            ) == value_of(a, k) by {
                if k == last.key {
                    lemma_index_of_unique(r, k, n);
                } else {
                    lemma_drop_last_lookup(a, k);
                    assert(has_key(a0, k));
                    assert(has_key(r0, k));
                    assert(value_of(r0, k) == value_of(a0, k));
                    let w = index_of(r0, k);
                    lemma_index_of(r0, k);
                    assert(r[w] == r0[w]);
                    lemma_index_of_unique(r, k, w);
                    lemma_index_of_unique(r0, k, w);
                }
            }
        } else {
            assert(r == r0);
            assert forall|k: Seq<u8>| #[trigger] has_key(r, k) == (has_key(a, k) && has_key(
                b,
                k,
            )) by {
                if k != last.key {
                    lemma_drop_last_lookup(a, k);
                }
            }
            assert forall|k: Seq<u8>| has_key(a, k) && has_key(b, k) implies #[trigger] value_of(
                r,
                k,
            ) == value_of(a, k) by {
                assert(k != last.key);
                lemma_drop_last_lookup(a, k);
            }
        }
    }
}

/// `difference` holds exactly the first side's keys the second lacks,
/// with the first argument's values, and keeps unique keys.
pub proof fn lemma_difference_entries(a: Seq<EntryModel>, b: Seq<EntryModel>)
    requires
        keys_unique(a),
    ensures
        keys_unique(difference_entries(a, b)),
        difference_entries(a, b).len() <= a.len(),
        forall|k: Seq<u8>|
            #[trigger] has_key(difference_entries(a, b), k) == (has_key(a, k) && !has_key(b, k)),
        forall|k: Seq<u8>|
            has_key(a, k) && !has_key(b, k) ==> #[trigger] value_of(difference_entries(a, b), k)
                == value_of(a, k),
    decreases a.len(),
{
    let r = difference_entries(a, b);
    if a.len() == 0 {
        assert forall|k: Seq<u8>| #[trigger] has_key(r, k) == (has_key(a, k) && !has_key(
            b,
            k,
        )) by {
            if has_key(a, k) {
                lemma_index_of(a, k);
            }
        }
    } else {
        let a0 = a.drop_last();
        let last = a.last();
        lemma_drop_last_unique(a);
        lemma_difference_entries(a0, b);
        let r0 = difference_entries(a0, b);
        assert(!has_key(a0, last.key)) by {
            if has_key(a0, last.key) {
                let w = index_of(a0, last.key);
                lemma_index_of(a0, last.key);
                assert(a[w] == a0[w]);
                assert(a[w].key == a[a.len() - 1].key);
            }
        }
        assert(has_key(a, last.key)) by {
            assert(a[a.len() - 1].key == last.key);
        }
        assert(value_of(a, last.key) == last.value) by {
            lemma_index_of_unique(a, last.key, a.len() - 1);
        }
        if !has_key(b, last.key) {
            assert(r == r0.push(last));
            let n = r0.len() as int;
            assert(keys_unique(r)) by {
                assert forall|p: int, q: int| 0 <= p < q < r.len() implies r[p].key
                    != r[q].key by {
                    if q < n {
                        assert(r[p] == r0[p] && r[q] == r0[q]);
                    } else {
                        assert(r[p] == r0[p]);
                        assert(has_key(r0, r0[p].key)) by {
                            assert(r0[p].key == r0[p].key);
                        }
                        assert(has_key(a0, r0[p].key));
                    }
                }
            }
            assert forall|k: Seq<u8>| #[trigger] has_key(r, k) == (has_key(a, k) && !has_key(
                b,
                k,
            )) by {
                if k == last.key {
                    assert(r[n].key == k);
                } else {
                    lemma_drop_last_lookup(a, k);
                    if has_key(r0, k) {
                        let w = index_of(r0, k);
                        lemma_index_of(r0, k);
                        assert(r[w] == r0[w]);
                    }
                    if has_key(r, k) {
                        let w = index_of(r, k);
                        lemma_index_of(r, k);
                        assert(w != n);
                        assert(r0[w] == r[w]);
                    }
                }
            }
            assert forall|k: Seq<u8>| has_key(a, k) && !has_key(b, k) implies #[trigger] value_of(
                r,
                k,
            ) == value_of(a, k) by {
                if k == last.key {
                    lemma_index_of_unique(r, k, n);
                } else {
                    lemma_drop_last_lookup(a, k);
                    assert(has_key(a0, k));
                    assert(has_key(r0, k));
                    assert(value_of(r0, k) == value_of(a0, k));
                    let w = index_of(r0, k);
                    lemma_index_of(r0, k);
                    assert(r[w] == r0[w]);
                    lemma_index_of_unique(r, k, w);
                    lemma_index_of_unique(r0, k, w);
                }
            }
        } else {
            assert(r == r0);
            assert forall|k: Seq<u8>| #[trigger] has_key(r, k) == (has_key(a, k) && !has_key(
                b,
                k,
            )) by {
                if k != last.key {
                    lemma_drop_last_lookup(a, k);
                }
            }
            assert forall|k: Seq<u8>| has_key(a, k) && !has_key(b, k) implies #[trigger] value_of(
                r,
                k,
            ) == value_of(a, k) by {
                assert(k != last.key);
                lemma_drop_last_lookup(a, k);
            }
        }
    }
}

/// A sequence of entries drawn one-for-one from `a` keeps `a`'s
/// widths; `intersection` and `difference` results are such sequences.
pub proof fn lemma_filtered_widths(a: Seq<EntryModel>, b: Seq<EntryModel>, kw: nat, vw: nat)
    requires
        widths_ok(a, kw, vw),
    ensures
        widths_ok(intersect_entries(a, b), kw, vw),
        widths_ok(difference_entries(a, b), kw, vw),
    decreases a.len(),
{
    if a.len() > 0 {
        let a0 = a.drop_last();
        assert(widths_ok(a0, kw, vw)) by {
            assert forall|i: int| 0 <= i < a0.len() implies #[trigger] a0[i].key.len() == kw
                && a0[i].value.len() == vw by {
                assert(a[i].key.len() == kw && a[i].value.len() == vw);
            }
        }
        lemma_filtered_widths(a0, b, kw, vw);
        assert(a[a.len() - 1].key.len() == kw && a[a.len() - 1].value.len() == vw);
    }
}

} // verus!
