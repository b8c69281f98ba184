//! The order in which storage lays out the entries under one first key.
//!
//! Every map the pallet walks by prefix keys its second component, an
//! account, with `Blake2_128Concat`: the storage key of an account is the
//! BLAKE2b-128 digest of its encoding followed by the encoding itself, and a
//! walk over a prefix meets the entries by increasing storage key, byte by
//! byte.

use vstd::prelude::*;

verus! {

/// What `sp_crypto_hashing::blake2_128` returns for `data`: its 16-byte
/// BLAKE2b digest.
pub uninterp spec fn spec_blake2_128(data: Seq<u8>) -> Seq<u8>;

/// `sp_crypto_hashing::blake2_128`, which computes the BLAKE2b digest of
/// `data` with a 16-byte output. Claimed of it: the result depends on `data`
/// alone (it is `spec_blake2_128(data@)`) and has 16 bytes (its return type
/// is `[u8; 16]`). Nothing is said of which bytes they are.
#[verifier::external_body]
fn blake2_128(data: &Vec<u8>) -> (r: Vec<u8>)
    ensures
        r@ == spec_blake2_128(data@),
        r@.len() == 16,
{
    sp_crypto_hashing::blake2_128(data.as_slice()).to_vec()
}

/// The encoding of an account in a storage key: 32 bytes, the account's
/// value big-endian in the last eight, behind 24 zero bytes.
pub open spec fn account_bytes(a: u64) -> Seq<u8> {
    Seq::new(
        32,
        |i: int|
            if i < 24 {
                0u8
            } else {
                ((a >> (((31 - i) * 8) as u64)) & 0xff) as u8
            },
    )
}

/// The `Blake2_128Concat` storage key of an account: the digest of its
/// encoding, then the encoding.
pub open spec fn storage_key(a: u64) -> Seq<u8> {
    spec_blake2_128(account_bytes(a)) + account_bytes(a)
}

/// Lexicographic order on byte strings; a proper prefix comes first.
pub open spec fn bytes_before(x: Seq<u8>, y: Seq<u8>) -> bool
    decreases x.len(),
{
    if x.len() == 0 {
        y.len() > 0
    } else if y.len() == 0 {
        false
    } else if x[0] != y[0] {
        x[0] < y[0]
    } else {
        bytes_before(x.drop_first(), y.drop_first())
    }
}

/// Whether storage meets account `a` before account `b`.
pub open spec fn key_before(a: u64, b: u64) -> bool {
    bytes_before(storage_key(a), storage_key(b))
}

/// Where an entry keyed `a` goes among `s`: before the first entry whose
/// key comes after `a`.
pub open spec fn slot_for<V>(s: Seq<(u64, V)>, a: u64) -> int
    decreases s.len(),
{
    if s.len() == 0 {
        0
    } else if key_before(a, s[0].0) {
        0
    } else {
        1 + slot_for(s.drop_first(), a)
    }
}

/// The entries `s`, as storage lays them out: each entry placed among the
/// earlier ones by its key.
pub open spec fn storage_order<V>(s: Seq<(u64, V)>) -> Seq<(u64, V)>
    decreases s.len(),
{
    if s.len() == 0 {
        s
    } else {
        let o = storage_order(s.drop_last());
        o.insert(slot_for(o, s.last().0), s.last())
    }
}

/// Each entry is followed by one storage meets later.
pub open spec fn in_key_order<V>(s: Seq<(u64, V)>) -> bool {
    forall|i: int| 0 <= i < s.len() - 1 ==> key_before(#[trigger] s[i].0, s[i + 1].0)
}

/// No two entries share a key.
pub open spec fn distinct_firsts<V>(s: Seq<(u64, V)>) -> bool {
    forall|i: int, j: int| 0 <= i < s.len() && 0 <= j < s.len() && i != j ==> s[i].0 != s[j].0
}

proof fn lemma_slot_bounds<V>(s: Seq<(u64, V)>, a: u64)
    ensures
        0 <= slot_for(s, a) <= s.len(),
    decreases s.len(),
{
    if s.len() > 0 && !key_before(a, s[0].0) {
        lemma_slot_bounds(s.drop_first(), a);
    }
}

/// The entries before the slot of `a` do not come after `a`; the one at
/// the slot does.
proof fn lemma_slot_for<V>(s: Seq<(u64, V)>, a: u64)
    ensures
        forall|j: int| 0 <= j < slot_for(s, a) ==> !key_before(a, #[trigger] s[j].0),
        slot_for(s, a) < s.len() ==> key_before(a, s[slot_for(s, a)].0),
    decreases s.len(),
{
    lemma_slot_bounds(s, a);
    if s.len() > 0 && !key_before(a, s[0].0) {
        let t = s.drop_first();
        lemma_slot_for(t, a);
        assert forall|j: int| 0 <= j < slot_for(s, a) implies !key_before(a, #[trigger] s[j].0) by {
            if j > 0 {
                assert(s[j] == t[j - 1]);
            }
        }
        lemma_slot_bounds(t, a);
        assert(slot_for(s, a) == 1 + slot_for(t, a));
        if slot_for(s, a) < s.len() {
            assert(s[1 + slot_for(t, a)] == t[slot_for(t, a)]);
        }
    }
}

/// One step of storage order: the entry `e` placed at its slot among `o`.
proof fn lemma_place<V>(o: Seq<(u64, V)>, e: (u64, V))
    ensures
        ({
            let r = o.insert(slot_for(o, e.0), e);
            &&& r.len() == o.len() + 1
            &&& forall|i: int| 0 <= i < r.len() ==> (#[trigger] r[i] == e || exists|j: int| 0 <= j < o.len() && r[i] == o[j])
            &&& r.contains(e)
            &&& forall|j: int| 0 <= j < o.len() ==> r.contains(#[trigger] o[j])
            &&& (distinct_firsts(o) && (forall|j: int| 0 <= j < o.len() ==> #[trigger] o[j].0 != e.0)) ==> distinct_firsts(r)
        }),
{
    let p = slot_for(o, e.0);
    lemma_slot_bounds(o, e.0);
    o.insert_ensures(p, e);
    let r = o.insert(p, e);
    assert forall|i: int| 0 <= i < r.len() implies (#[trigger] r[i] == e || exists|j: int| 0 <= j < o.len() && r[i] == o[j]) by {
        if i < p {
            assert(r[i] == o[i]);
        } else if i > p {
            assert(r[(i - 1) + 1] == o[i - 1]);
        }
    }
    assert(r[p] == e);
    assert forall|j: int| 0 <= j < o.len() implies r.contains(#[trigger] o[j]) by {
        if j < p {
            assert(r[j] == o[j]);
        } else {
            assert(r[j + 1] == o[j]);
        }
    }
    if distinct_firsts(o) && (forall|j: int| 0 <= j < o.len() ==> #[trigger] o[j].0 != e.0) {
        assert forall|i: int, j: int|
            0 <= i < r.len() && 0 <= j < r.len() && i != j implies r[i].0 != r[j].0 by {
            let oi = if i < p { i } else { i - 1 };
            let oj = if j < p { j } else { j - 1 };
            if i < p {
                assert(r[i] == o[i]);
            } else if i > p {
                assert(r[(i - 1) + 1] == o[i - 1]);
            }
            if j < p {
                assert(r[j] == o[j]);
            } else if j > p {
                assert(r[(j - 1) + 1] == o[j - 1]);
            }
            if i != p && j != p {
                assert(o[oi].0 != o[oj].0);
            } else if i == p {
                assert(o[oj].0 != e.0);
            } else {
                assert(o[oi].0 != e.0);
            }
        }
    }
}

/// Storage order keeps the entries: the same length, each entry of one found
/// in the other, and keys that were distinct stay distinct.
pub proof fn lemma_storage_order<V>(s: Seq<(u64, V)>)
    ensures
        storage_order(s).len() == s.len(),
        forall|i: int| 0 <= i < s.len() ==> s.contains(#[trigger] storage_order(s)[i]),
        forall|j: int| 0 <= j < s.len() ==> storage_order(s).contains(#[trigger] s[j]),
        distinct_firsts(s) ==> distinct_firsts(storage_order(s)),
    decreases s.len(),
{
    if s.len() > 0 {
        let t = s.drop_last();
        let o = storage_order(t);
        let e = s.last();
        lemma_storage_order(t);
        lemma_place(o, e);
        let r = storage_order(s);
        assert(r == o.insert(slot_for(o, e.0), e));
        assert forall|i: int| 0 <= i < s.len() implies s.contains(#[trigger] r[i]) by {
            if r[i] == e {
                assert(s[s.len() - 1] == e);
            } else {
                let j = choose|j: int| 0 <= j < o.len() && r[i] == o[j];
                assert(t.contains(o[j]));
                let k = choose|k: int| 0 <= k < t.len() && t[k] == o[j];
                assert(s[k] == t[k]);
            }
        }
        assert forall|j: int| 0 <= j < s.len() implies r.contains(#[trigger] s[j]) by {
            if j < s.len() - 1 {
                assert(s[j] == t[j]);
                assert(o.contains(t[j]));
                let i = choose|i: int| 0 <= i < o.len() && o[i] == t[j];
                assert(r.contains(o[i]));
            }
        }
        if distinct_firsts(s) {
            assert(distinct_firsts(t)) by {
                assert forall|i: int, j: int|
                    0 <= i < t.len() && 0 <= j < t.len() && i != j implies t[i].0 != t[j].0 by {
                    assert(t[i] == s[i] && t[j] == s[j]);
                }
            }
            assert forall|j: int| 0 <= j < o.len() implies #[trigger] o[j].0 != e.0 by {
                assert(t.contains(o[j]));
                let k = choose|k: int| 0 <= k < t.len() && t[k] == o[j];
                assert(t[k] == s[k]);
            }
        }
    }
}

/// Any two different byte strings are ordered one way or the other.
proof fn lemma_bytes_total(x: Seq<u8>, y: Seq<u8>)
    requires
        x != y,
    ensures
        bytes_before(x, y) || bytes_before(y, x),
    decreases x.len(),
{
    if x.len() > 0 && y.len() > 0 && x[0] == y[0] {
        if x.drop_first() == y.drop_first() {
            assert(x =~= seq![x[0]] + x.drop_first());
            assert(y =~= seq![y[0]] + y.drop_first());
        }
        lemma_bytes_total(x.drop_first(), y.drop_first());
    } else if x.len() == 0 && y.len() == 0 {
        assert(x =~= y);
    }
}

/// Byte `i` of two equal encodings agrees on the shifted value it holds.
proof fn lemma_byte(a: u64, b: u64, i: int, sh: u64)
    requires
        24 <= i < 32,
        sh == ((31 - i) * 8) as u64,
        account_bytes(a) == account_bytes(b),
    ensures
        ((a >> sh) & 0xff) as u8 == ((b >> sh) & 0xff) as u8,
{
    assert(account_bytes(a)[i] == account_bytes(b)[i]);
    assert(!(i < 24));
    assert(account_bytes(a)[i] == ((a >> (((31 - i) * 8) as u64)) & 0xff) as u8);
    assert(account_bytes(a)[i] == ((a >> sh) & 0xff) as u8);
    assert(account_bytes(b)[i] == ((b >> sh) & 0xff) as u8);
}

/// Different accounts have different encodings.
proof fn lemma_account_bytes_injective(a: u64, b: u64)
    requires
        account_bytes(a) == account_bytes(b),
    ensures
        a == b,
{
    lemma_byte(a, b, 24, 56);
    lemma_byte(a, b, 25, 48);
    lemma_byte(a, b, 26, 40);
    lemma_byte(a, b, 27, 32);
    lemma_byte(a, b, 28, 24);
    lemma_byte(a, b, 29, 16);
    lemma_byte(a, b, 30, 8);
    lemma_byte(a, b, 31, 0);
    assert(a == b) by (bit_vector)
        requires
            ((a >> 56u64) & 0xff) as u8 == ((b >> 56u64) & 0xff) as u8,
            ((a >> 48u64) & 0xff) as u8 == ((b >> 48u64) & 0xff) as u8,
            ((a >> 40u64) & 0xff) as u8 == ((b >> 40u64) & 0xff) as u8,
            ((a >> 32u64) & 0xff) as u8 == ((b >> 32u64) & 0xff) as u8,
            ((a >> 24u64) & 0xff) as u8 == ((b >> 24u64) & 0xff) as u8,
            ((a >> 16u64) & 0xff) as u8 == ((b >> 16u64) & 0xff) as u8,
            ((a >> 8u64) & 0xff) as u8 == ((b >> 8u64) & 0xff) as u8,
            ((a >> 0u64) & 0xff) as u8 == ((b >> 0u64) & 0xff) as u8,
    ;
}

/// Two different accounts whose storage keys have the full length are met
/// in one order or the other.
proof fn lemma_key_total(a: u64, b: u64)
    requires
        a != b,
        storage_key(a).len() == 48,
        storage_key(b).len() == 48,
    ensures
        key_before(a, b) || key_before(b, a),
{
    if storage_key(a) == storage_key(b) {
        assert(storage_key(a).skip(16) =~= account_bytes(a));
        assert(storage_key(b).skip(16) =~= account_bytes(b));
        lemma_account_bytes_injective(a, b);
    }
    lemma_bytes_total(storage_key(a), storage_key(b));
}

/// Placing an entry at its slot keeps entries in key order.
proof fn lemma_place_in_order<V>(o: Seq<(u64, V)>, e: (u64, V))
    requires
        in_key_order(o),
        storage_key(e.0).len() == 48,
        forall|j: int| 0 <= j < o.len() ==> storage_key(#[trigger] o[j].0).len() == 48 && o[j].0 != e.0,
    ensures
        in_key_order(o.insert(slot_for(o, e.0), e)),
{
    let p = slot_for(o, e.0);
    lemma_slot_bounds(o, e.0);
    lemma_slot_for(o, e.0);
    o.insert_ensures(p, e);
    let r = o.insert(p, e);
    assert forall|i: int| 0 <= i < r.len() - 1 implies key_before(#[trigger] r[i].0, r[i + 1].0) by {
        if i + 1 < p {
            assert(r[i] == o[i] && r[i + 1] == o[i + 1]);
        } else if i + 1 == p {
            assert(r[i] == o[i] && r[i + 1] == e);
            assert(!key_before(e.0, o[i].0));
            lemma_key_total(o[i].0, e.0);
        } else if i == p {
            assert(r[i + 1] == o[i]);
        } else {
            assert(r[(i - 1) + 1] == o[i - 1]);
            assert(r[i + 1] == o[i]);
            assert(key_before(o[i - 1].0, o[(i - 1) + 1].0));
        }
    }
}

/// The storage key of `a`, computed.
fn storage_key_of(a: u64) -> (r: Vec<u8>)
    ensures
        r@ == storage_key(a),
        r@.len() == 48,
{
    let mut bytes: Vec<u8> = Vec::new();
    let mut i: u64 = 0;
    while i < 32
        invariant
            i <= 32,
            bytes@ == account_bytes(a).take(i as int),
        decreases 32 - i,
    {
        let b: u8 = if i < 24 {
            0u8
        } else {
            ((a >> ((31 - i) * 8)) & 0xff) as u8
        };
        bytes.push(b);
        proof {
            assert(bytes@ =~= account_bytes(a).take(i + 1));
        }
        i = i + 1;
    }
    proof {
        assert(bytes@ =~= account_bytes(a));
    }
    let mut r = blake2_128(&bytes);
    let mut j: usize = 0;
    while j < bytes.len()
        invariant
            j <= bytes@.len(),
            bytes@ == account_bytes(a),
            r@ == spec_blake2_128(account_bytes(a)) + account_bytes(a).take(j as int),
        decreases bytes@.len() - j,
    {
        r.push(bytes[j]);
        proof {
            assert(account_bytes(a).take(j + 1) =~= account_bytes(a).take(j as int).push(bytes@[j as int]));
            assert(r@ =~= spec_blake2_128(account_bytes(a)) + account_bytes(a).take(j + 1));
        }
        j = j + 1;
    }
    proof {
        assert(account_bytes(a).take(32) =~= account_bytes(a));
    }
    r
}

/// Whether `x` comes before `y`, byte by byte.
fn bytes_come_before(x: &Vec<u8>, y: &Vec<u8>) -> (r: bool)
    ensures
        r == bytes_before(x@, y@),
{
    let mut i: usize = 0;
    proof {
        assert(x@.skip(0) =~= x@);
        assert(y@.skip(0) =~= y@);
    }
    loop
        invariant
            i <= x@.len(),
            i <= y@.len(),
            bytes_before(x@, y@) == bytes_before(x@.skip(i as int), y@.skip(i as int)),
        decreases x@.len() - i,
    {
        if i == x.len() {
            return i < y.len();
        }
        if i == y.len() {
            return false;
        }
        if x[i] != y[i] {
            return x[i] < y[i];
        }
        proof {
            assert(x@.skip(i as int).drop_first() =~= x@.skip(i + 1));
            assert(y@.skip(i as int).drop_first() =~= y@.skip(i + 1));
        }
        i = i + 1;
    }
}

/// The entries `s`, put in storage order.
pub fn in_storage_order<V: Copy>(s: &Vec<(u64, V)>) -> (r: Vec<(u64, V)>)
    ensures
        r@ == storage_order(s@),
        distinct_firsts(s@) ==> in_key_order(r@),
{
    let mut out: Vec<(u64, V)> = Vec::new();
    let mut keys: Vec<Vec<u8>> = Vec::new();
    let mut i: usize = 0;
    while i < s.len()
        invariant
            i <= s@.len(),
            out@ == storage_order(s@.take(i as int)),
            keys@.len() == out@.len(),
            forall|k: int| 0 <= k < keys@.len() ==> #[trigger] keys@[k]@ == storage_key(out@[k].0),
            forall|k: int| 0 <= k < keys@.len() ==> (#[trigger] keys@[k])@.len() == 48,
            distinct_firsts(s@) ==> in_key_order(out@),
        decreases s@.len() - i,
    {
        let e = s[i];
        let key = storage_key_of(e.0);
        let mut j: usize = 0;
        proof {
            assert(out@.skip(0) =~= out@);
        }
        while j < out.len()
            invariant
                j <= out@.len(),
                keys@.len() == out@.len(),
                forall|k: int| 0 <= k < keys@.len() ==> #[trigger] keys@[k]@ == storage_key(out@[k].0),
                key@ == storage_key(e.0),
                slot_for(out@, e.0) == j + slot_for(out@.skip(j as int), e.0),
            ensures
                j <= out@.len(),
                slot_for(out@, e.0) == j,
            decreases out@.len() - j,
        {
            if bytes_come_before(&key, &keys[j]) {
                proof {
                    assert(out@.skip(j as int)[0] == out@[j as int]);
                }
                break;
            }
            proof {
                assert(out@.skip(j as int).drop_first() =~= out@.skip(j + 1));
            }
            j = j + 1;
        }
        proof {
            assert(s@.take(i + 1).drop_last() =~= s@.take(i as int));
            assert(s@.take(i + 1).last() == e);
        }
        let ghost out0 = out@;
        let ghost keys0 = keys@;
        proof {
            if distinct_firsts(s@) {
                lemma_storage_order(s@.take(i as int));
                assert forall|k: int| 0 <= k < out0.len() implies storage_key(#[trigger] out0[k].0).len() == 48
                    && out0[k].0 != e.0 by {
                    assert(keys@[k]@.len() == 48);
                    assert(s@.take(i as int).contains(out0[k]));
                    let m = choose|m: int| 0 <= m < i && s@.take(i as int)[m] == out0[k];
                    assert(s@[m] == out0[k]);
                }
                lemma_place_in_order(out0, e);
            }
        }
        out.insert(j, e);
        keys.insert(j, key);
        proof {
            out0.insert_ensures(j as int, e);
            keys0.insert_ensures(j as int, key);
            assert forall|k: int| 0 <= k < keys@.len() implies #[trigger] keys@[k]@ == storage_key(out@[k].0) by {
                if k < j {
                    assert(keys@[k] == keys0[k] && out@[k] == out0[k]);
                } else if k > j {
                    assert(keys@[(k - 1) + 1] == keys0[k - 1] && out@[(k - 1) + 1] == out0[k - 1]);
                }
            }
            assert forall|k: int| 0 <= k < keys@.len() implies (#[trigger] keys@[k])@.len() == 48 by {
                if k < j {
                    assert(keys@[k] == keys0[k]);
                } else if k > j {
                    assert(keys@[(k - 1) + 1] == keys0[k - 1]);
                }
            }
        }
        i = i + 1;
    }
    proof {
        assert(s@.take(s@.len() as int) =~= s@);
    }
    out
}

} // verus!
