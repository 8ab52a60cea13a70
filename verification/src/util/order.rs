//! The lexical order of texts, and sorting by it.
use vstd::prelude::*;

verus! {

/// Whether `a` comes before `b`, or is `b`, in the lexical order: texts are
/// compared character by character, and a text comes before those that it
/// starts.
pub open spec fn lex_le(a: Seq<char>, b: Seq<char>) -> bool
    decreases a.len(),
{
    if a.len() == 0 {
        true
    } else if b.len() == 0 {
        false
    } else if a[0] != b[0] {
        a[0] < b[0]
    } else {
        lex_le(a.drop_first(), b.drop_first())
    }
}

/// Every text comes before itself.
pub proof fn lemma_lex_refl(a: Seq<char>)
    ensures
        lex_le(a, a),
    decreases a.len(),
{
    if a.len() > 0 {
        lemma_lex_refl(a.drop_first());
    }
}

/// Of two texts one comes before the other.
pub proof fn lemma_lex_total(a: Seq<char>, b: Seq<char>)
    ensures
        lex_le(a, b) || lex_le(b, a),
    decreases a.len(),
{
    if a.len() > 0 && b.len() > 0 && a[0] == b[0] {
        lemma_lex_total(a.drop_first(), b.drop_first());
    }
}

/// The order is transitive.
pub proof fn lemma_lex_trans(a: Seq<char>, b: Seq<char>, c: Seq<char>)
    requires
        lex_le(a, b),
        lex_le(b, c),
    ensures
        lex_le(a, c),
    decreases a.len(),
{
    if a.len() > 0 && b.len() > 0 && c.len() > 0 && a[0] == b[0] && b[0] == c[0] {
        lemma_lex_trans(a.drop_first(), b.drop_first(), c.drop_first());
    }
}

/// Two texts that come before each other are the same.
pub proof fn lemma_lex_antisym(a: Seq<char>, b: Seq<char>)
    requires
        lex_le(a, b),
        lex_le(b, a),
    ensures
        a == b,
    decreases a.len(),
{
    if a.len() > 0 && b.len() > 0 {
        lemma_lex_antisym(a.drop_first(), b.drop_first());
        assert(a =~= seq![a[0]] + a.drop_first());
        assert(b =~= seq![b[0]] + b.drop_first());
    } else {
        assert(a =~= b);
    }
}

/// Whether `a` comes before `b`, or is `b`, in the lexical order.
pub fn le(a: &Vec<char>, b: &Vec<char>) -> (r: bool)
    ensures
        r == lex_le(a@, b@),
{
    let mut i: usize = 0;
    assert(a@.skip(0) =~= a@ && b@.skip(0) =~= b@);
    loop
        invariant
            i <= a@.len(),
            i <= b@.len(),
            lex_le(a@, b@) == lex_le(a@.skip(i as int), b@.skip(i as int)),
        decreases a@.len() - i,
    {
        if i >= a.len() {
            return true;
        }
        if i >= b.len() {
            return false;
        }
        let x = a[i];
        let y = b[i];
        proof {
            assert(a@.skip(i as int)[0] == x && b@.skip(i as int)[0] == y);
            assert(a@.skip(i as int).drop_first() =~= a@.skip(i + 1));
            assert(b@.skip(i as int).drop_first() =~= b@.skip(i + 1));
        }
        if x != y {
            return x < y;
        }
        i += 1;
    }
}

/// Whether `perm` lists each position below `n` once.
pub open spec fn is_permutation(perm: Seq<usize>, n: nat) -> bool {
    &&& perm.len() == n
    &&& perm.no_duplicates()
    &&& forall|i: int| 0 <= i < perm.len() ==> (#[trigger] perm[i]) < n
}

/// Whether the keys, taken in the order of `perm`, ascend, with equal keys in
/// the order in which they stood.
pub open spec fn ascending(keys: Seq<Seq<char>>, perm: Seq<usize>) -> bool {
    forall|i: int, j: int|
        0 <= i < j < perm.len() ==> lex_le(
            keys[#[trigger] perm[i] as int],
            keys[#[trigger] perm[j] as int],
        ) && (keys[perm[i] as int] == keys[perm[j] as int] ==> perm[i] < perm[j])
}

/// The views of a list of keys.
pub open spec fn key_views(keys: Seq<Vec<char>>) -> Seq<Seq<char>> {
    keys.map_values(|k: Vec<char>| k@)
}

/// The order in which the keys ascend: a list of their positions. Equal keys
/// keep the order in which they stand.
pub fn sort_order(keys: &Vec<Vec<char>>) -> (perm: Vec<usize>)
    ensures
        is_permutation(perm@, keys@.len() as nat),
        ascending(key_views(keys@), perm@),
{
    let n = keys.len();
    let ghost ks = key_views(keys@);
    let mut perm: Vec<usize> = Vec::new();
    let mut i: usize = 0;
    while i < n
        invariant
            i <= n,
            n == keys@.len(),
            ks == key_views(keys@),
            perm@.len() == i,
            perm@.no_duplicates(),
            forall|k: int| 0 <= k < perm@.len() ==> (#[trigger] perm@[k]) < i,
            ascending(ks, perm@),
        decreases n - i,
    {
        let mut p: usize = perm.len();
        while p > 0 && !le(&keys[perm[p - 1]], &keys[i])
            invariant
                p <= perm@.len(),
                i < n,
                n == keys@.len(),
                ks == key_views(keys@),
                forall|k: int| 0 <= k < perm@.len() ==> (#[trigger] perm@[k]) < i,
                forall|k: int| p <= k < perm@.len() ==> !lex_le(ks[#[trigger] perm@[k] as int], ks[i as int]),
            decreases p,
        {
            p -= 1;
        }
        let ghost before = perm@;
        perm.insert(p, i);
        proof {
            let after = perm@;
            assert(after == before.insert(p as int, i));
            assert forall|a: int, b: int| 0 <= a < b < after.len() implies lex_le(
                ks[#[trigger] after[a] as int],
                ks[#[trigger] after[b] as int],
            ) && (ks[after[a] as int] == ks[after[b] as int] ==> after[a] < after[b]) by {
                let a0 = if a < p { a } else { a - 1 };
                let b0 = if b < p { b } else { b - 1 };
                if a == p {
                    // the new key against a later one
                    assert(after[b] == before[b0]);
                    assert(!lex_le(ks[before[b0] as int], ks[i as int]));
                    lemma_lex_total(ks[before[b0] as int], ks[i as int]);
                    if ks[i as int] == ks[before[b0] as int] {
                        lemma_lex_refl(ks[i as int]);
                    }
                } else if b == p {
                    // an earlier key against the new one
                    assert(after[a] == before[a0]);
                    assert(before[a0] < i);
                    if p > 0 {
                        assert(lex_le(ks[before[p - 1] as int], ks[i as int]));
                        if a0 < p - 1 {
                            assert(lex_le(ks[before[a0] as int], ks[before[p - 1] as int]));
                            lemma_lex_trans(
                                ks[before[a0] as int],
                                ks[before[p - 1] as int],
                                ks[i as int],
                            );
                        }
                    }
                } else {
                    assert(after[a] == before[a0] && after[b] == before[b0]);
                    assert(a0 < b0);
                }
            }
            assert forall|a: int, b: int| 0 <= a < b < after.len() implies after[a] != after[b] by {
                let a0 = if a < p { a } else { a - 1 };
                let b0 = if b < p { b } else { b - 1 };
                if a == p {
                    assert(after[b] == before[b0]);
                } else if b == p {
                    assert(after[a] == before[a0]);
                } else {
                    assert(after[a] == before[a0] && after[b] == before[b0]);
                }
            }
            assert forall|k: int| 0 <= k < after.len() implies (#[trigger] after[k]) < i + 1 by {
                let k0 = if k < p { k } else { k - 1 };
                if k != p {
                    assert(after[k] == before[k0]);
                }
            }
        }
        i += 1;
    }
    perm
}

/// Whether the numbers, taken in the order of `perm`, ascend, with equal
/// numbers in the order in which they stood.
pub open spec fn rising(keys: Seq<usize>, perm: Seq<usize>) -> bool {
    forall|i: int, j: int|
        0 <= i < j < perm.len() ==> keys[#[trigger] perm[i] as int] <= keys[#[trigger] perm[j] as int]
            && (keys[perm[i] as int] == keys[perm[j] as int] ==> perm[i] < perm[j])
}

/// The order in which the numbers ascend: a list of their positions. Equal
/// numbers keep the order in which they stand.
pub fn sort_order_by_number(keys: &Vec<usize>) -> (perm: Vec<usize>)
    ensures
        is_permutation(perm@, keys@.len() as nat),
        rising(keys@, perm@),
{
    let n = keys.len();
    let mut perm: Vec<usize> = Vec::new();
    let mut i: usize = 0;
    while i < n
        invariant
            i <= n,
            n == keys@.len(),
            perm@.len() == i,
            perm@.no_duplicates(),
            forall|k: int| 0 <= k < perm@.len() ==> (#[trigger] perm@[k]) < i,
            rising(keys@, perm@),
        decreases n - i,
    {
        let mut p: usize = perm.len();
        while p > 0 && keys[perm[p - 1]] > keys[i]
            invariant
                p <= perm@.len(),
                i < n,
                n == keys@.len(),
                forall|k: int| 0 <= k < perm@.len() ==> (#[trigger] perm@[k]) < i,
                forall|k: int| p <= k < perm@.len() ==> keys@[#[trigger] perm@[k] as int] > keys@[i as int],
            decreases p,
        {
            p -= 1;
        }
        let ghost before = perm@;
        perm.insert(p, i);
        proof {
            let after = perm@;
            assert(after == before.insert(p as int, i));
            assert forall|a: int, b: int| 0 <= a < b < after.len() implies keys@[#[trigger] after[a] as int]
                <= keys@[#[trigger] after[b] as int] && (keys@[after[a] as int] == keys@[after[b] as int]
                ==> after[a] < after[b]) by {
                let a0 = if a < p { a } else { a - 1 };
                let b0 = if b < p { b } else { b - 1 };
                if a == p {
                    assert(after[b] == before[b0]);
                } else if b == p {
                    assert(after[a] == before[a0]);
                    assert(before[a0] < i);
                    if p > 0 {
                        if a0 < p - 1 {
                            assert(keys@[before[a0] as int] <= keys@[before[p - 1] as int]);
                        }
                    }
                } else {
                    assert(after[a] == before[a0] && after[b] == before[b0]);
                    assert(a0 < b0);
                }
            }
            assert forall|a: int, b: int| 0 <= a < b < after.len() implies after[a] != after[b] by {
                let a0 = if a < p { a } else { a - 1 };
                let b0 = if b < p { b } else { b - 1 };
                if a == p {
                    assert(after[b] == before[b0]);
                } else if b == p {
                    assert(after[a] == before[a0]);
                } else {
                    assert(after[a] == before[a0] && after[b] == before[b0]);
                }
            }
            assert forall|k: int| 0 <= k < after.len() implies (#[trigger] after[k]) < i + 1 by {
                let k0 = if k < p { k } else { k - 1 };
                if k != p {
                    assert(after[k] == before[k0]);
                }
            }
        }
        i += 1;
    }
    perm
}

} // verus!
