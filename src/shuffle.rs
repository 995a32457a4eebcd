//! The seeded reordering: a pass of swaps anchored at a start index, followed
//! by repeated reversals of ever shorter suffixes.
use vstd::prelude::*;

verus! {

/// `s` with the items at `i` and `j` exchanged.
pub open spec fn swapped<T>(s: Seq<T>, i: int, j: int) -> Seq<T> {
    s.update(i, s[j]).update(j, s[i])
}

/// The start index that a seed byte selects among `n` positions.
pub open spec fn start_of(n: nat, seed: u8) -> nat
    recommends
        n >= 1,
{
    (seed as nat) % n
}

/// `s` after the first `k` swaps of the anchored pass: swap `m` exchanges the
/// items at `m` and `start + m`.
pub open spec fn rotate_swaps<T>(s: Seq<T>, start: int, k: nat) -> Seq<T>
    decreases k,
{
    if k == 0 {
        s
    } else {
        let m = k - 1;
        swapped(rotate_swaps(s, start, m as nat), m, start + m)
    }
}

/// The anchored pass in full: swaps go on while `start + m` is a position.
pub open spec fn rotated<T>(s: Seq<T>, start: int) -> Seq<T> {
    rotate_swaps(s, start, (s.len() - start) as nat)
}

/// `s` after the first `k` swaps of the reversal of the suffix from `i`: swap
/// `m` exchanges the items at `i + m` and `len - 1 - m`.
pub open spec fn suffix_swaps<T>(s: Seq<T>, i: int, k: nat) -> Seq<T>
    decreases k,
{
    if k == 0 {
        s
    } else {
        let m = k - 1;
        swapped(suffix_swaps(s, i, m as nat), i + m, s.len() - 1 - m)
    }
}

/// `s` with its suffix from `i` reversed.
pub open spec fn suffix_reversed<T>(s: Seq<T>, i: int) -> Seq<T> {
    suffix_swaps(s, i, ((s.len() - i) / 2) as nat)
}

/// `s` after the suffixes from `0`, `1`, ..., `k - 1` were reversed in turn.
pub open spec fn reversal_steps<T>(s: Seq<T>, k: nat) -> Seq<T>
    decreases k,
{
    if k == 0 {
        s
    } else {
        suffix_reversed(reversal_steps(s, (k - 1) as nat), k - 1)
    }
}

/// Items taken alternately from the back and the front of `s`: the last, the
/// first, the second to last, the second, and so on.
pub open spec fn alternated<T>(s: Seq<T>) -> Seq<T> {
    Seq::new(
        s.len(),
        |k: int|
            if k % 2 == 0 {
                s[s.len() - 1 - k / 2]
            } else {
                s[(k - 1) / 2]
            },
    )
}

/// The reordering of `s` that the seed byte selects: the anchored pass from
/// the start index, then the items taken alternately from the back and front.
pub open spec fn shuffled<T>(s: Seq<T>, seed: u8) -> Seq<T>
    recommends
        s.len() >= 1,
{
    alternated(rotated(s, start_of(s.len(), seed) as int))
}

/// Exchanges the items at `i` and `j` of `v`.
fn swap_items<T>(v: &mut Vec<T>, i: usize, j: usize)
    requires
        i < old(v)@.len(),
        j < old(v)@.len(),
    ensures
        final(v)@ == swapped(old(v)@, i as int, j as int),
{
    if i == j {
        assert(swapped(v@, i as int, j as int) =~= v@);
        return;
    }
    let (lo, hi) = if i < j { (i, j) } else { (j, i) };
    let ghost s = v@;
    let mut x = v.remove(hi);
    v.set_and_swap(lo, &mut x);
    v.insert(hi, x);
    assert(v@ =~= swapped(s, i as int, j as int));
}

proof fn lemma_rotate_swaps_len<T>(s: Seq<T>, start: int, k: nat)
    requires
        0 <= start,
        start + k <= s.len(),
    ensures
        rotate_swaps(s, start, k).len() == s.len(),
    decreases k,
{
    if k > 0 {
        lemma_rotate_swaps_len(s, start, (k - 1) as nat);
    }
}

proof fn lemma_suffix_swaps_len<T>(s: Seq<T>, i: int, k: nat)
    requires
        0 <= i,
        i + 2 * k <= s.len(),
    ensures
        suffix_swaps(s, i, k).len() == s.len(),
    decreases k,
{
    if k > 0 {
        lemma_suffix_swaps_len(s, i, (k - 1) as nat);
    }
}

proof fn lemma_reversal_steps_len<T>(s: Seq<T>, k: nat)
    requires
        k <= s.len(),
    ensures
        reversal_steps(s, k).len() == s.len(),
    decreases k,
{
    if k > 0 {
        lemma_reversal_steps_len(s, (k - 1) as nat);
        let p = reversal_steps(s, (k - 1) as nat);
        lemma_suffix_swaps_len(p, k - 1, ((p.len() - (k - 1)) / 2) as nat);
    }
}

proof fn lemma_swapped_multiset<T>(s: Seq<T>, i: int, j: int)
    requires
        0 <= i < s.len(),
        0 <= j < s.len(),
    ensures
        swapped(s, i, j).to_multiset() == s.to_multiset(),
        swapped(s, i, j).len() == s.len(),
{
    broadcast use {
        vstd::multiset::group_multiset_axioms,
        vstd::multiset::group_multiset_properties,
        vstd::seq_lib::group_to_multiset_ensures,
    };

    let m = s.to_multiset();
    let s1 = s.update(i, s[j]);
    vstd::seq_lib::to_multiset_update(s, i, s[j]);
    vstd::seq_lib::to_multiset_update(s1, j, s[i]);
    assert(s1[j] == s[j]);
    assert(s.contains(s[i]));
    assert(m.count(s[i]) > 0);
    assert(m.insert(s[j]).remove(s[i]).insert(s[i]).remove(s[j]) =~= m);
}

proof fn lemma_swapped_map<A, B>(s: Seq<A>, f: spec_fn(A) -> B, i: int, j: int)
    requires
        0 <= i < s.len(),
        0 <= j < s.len(),
    ensures
        swapped(s.map_values(f), i, j) == swapped(s, i, j).map_values(f),
{
    assert(swapped(s.map_values(f), i, j) =~= swapped(s, i, j).map_values(f));
}

proof fn lemma_rotate_swaps_perm<A, B>(s: Seq<A>, f: spec_fn(A) -> B, start: int, k: nat)
    requires
        0 <= start,
        start + k <= s.len(),
    ensures
        rotate_swaps(s, start, k).to_multiset() == s.to_multiset(),
        rotate_swaps(s.map_values(f), start, k) == rotate_swaps(s, start, k).map_values(f),
    decreases k,
{
    if k > 0 {
        let m = k - 1;
        let p = rotate_swaps(s, start, m as nat);
        lemma_rotate_swaps_perm(s, f, start, m as nat);
        lemma_rotate_swaps_len(s, start, m as nat);
        lemma_swapped_multiset(p, m, start + m);
        lemma_swapped_map(p, f, m, start + m);
    }
}

proof fn lemma_suffix_swaps_perm<A, B>(s: Seq<A>, f: spec_fn(A) -> B, i: int, k: nat)
    requires
        0 <= i,
        i + 2 * k <= s.len(),
    ensures
        suffix_swaps(s, i, k).to_multiset() == s.to_multiset(),
        suffix_swaps(s.map_values(f), i, k) == suffix_swaps(s, i, k).map_values(f),
    decreases k,
{
    if k > 0 {
        let m = k - 1;
        let p = suffix_swaps(s, i, m as nat);
        lemma_suffix_swaps_perm(s, f, i, m as nat);
        lemma_suffix_swaps_len(s, i, m as nat);
        lemma_swapped_multiset(p, i + m, s.len() - 1 - m);
        lemma_swapped_map(p, f, i + m, s.len() - 1 - m);
    }
}

proof fn lemma_reversal_steps_perm<A, B>(s: Seq<A>, f: spec_fn(A) -> B, k: nat)
    requires
        k <= s.len(),
    ensures
        reversal_steps(s, k).to_multiset() == s.to_multiset(),
        reversal_steps(s.map_values(f), k) == reversal_steps(s, k).map_values(f),
    decreases k,
{
    if k > 0 {
        let p = reversal_steps(s, (k - 1) as nat);
        lemma_reversal_steps_perm(s, f, (k - 1) as nat);
        lemma_reversal_steps_len(s, (k - 1) as nat);
        lemma_suffix_swaps_perm(p, f, k - 1, ((p.len() - (k - 1)) / 2) as nat);
    }
}

proof fn lemma_shuffled_perm<A, B>(s: Seq<A>, f: spec_fn(A) -> B, seed: u8)
    requires
        s.len() >= 1,
    ensures
        shuffled(s, seed).to_multiset() == s.to_multiset(),
        shuffled(s, seed).len() == s.len(),
        shuffled(s.map_values(f), seed) == shuffled(s, seed).map_values(f),
{
    let start = start_of(s.len(), seed) as int;
    let r = rotated(s, start);
    lemma_rotate_swaps_perm(s, f, start, (s.len() - start) as nat);
    lemma_rotate_swaps_len(s, start, (s.len() - start) as nat);
    lemma_reversal_steps_perm(r, f, (r.len() - 1) as nat);
    lemma_reversal_steps_len(r, (r.len() - 1) as nat);
    lemma_reversal_steps_alternate(r);
    lemma_reversal_steps_alternate(r.map_values(f));
}

proof fn lemma_suffix_swaps_items<T>(s: Seq<T>, i: int, k: nat)
    requires
        0 <= i,
        i + 2 * k <= s.len(),
    ensures
        forall|j: int|
            0 <= j < s.len() ==> #[trigger] suffix_swaps(s, i, k)[j] == if i <= j < i + k {
                s[s.len() - 1 - (j - i)]
            } else if s.len() - k <= j {
                s[i + (s.len() - 1 - j)]
            } else {
                s[j]
            },
    decreases k,
{
    if k > 0 {
        lemma_suffix_swaps_items(s, i, (k - 1) as nat);
        lemma_suffix_swaps_len(s, i, (k - 1) as nat);
    }
}

proof fn lemma_suffix_reversed_items<T>(s: Seq<T>, i: int)
    requires
        0 <= i <= s.len(),
    ensures
        suffix_reversed(s, i).len() == s.len(),
        forall|j: int|
            0 <= j < s.len() ==> #[trigger] suffix_reversed(s, i)[j] == if j < i {
                s[j]
            } else {
                s[s.len() - 1 + i - j]
            },
{
    let k = ((s.len() - i) / 2) as nat;
    lemma_suffix_swaps_items(s, i, k);
    lemma_suffix_swaps_len(s, i, k);
}

proof fn lemma_reversal_steps_items<T>(s: Seq<T>, k: nat)
    requires
        k < s.len(),
    ensures
        reversal_steps(s, k).len() == s.len(),
        forall|j: int| 0 <= j < k ==> #[trigger] reversal_steps(s, k)[j] == alternated(s)[j],
        forall|j: int|
            k <= j < s.len() ==> #[trigger] reversal_steps(s, k)[j] == if k % 2 == 0 {
                s[k / 2 + (j - k)]
            } else {
                s[s.len() - (k - k / 2) - 1 - (j - k)]
            },
    decreases k,
{
    lemma_reversal_steps_len(s, k);
    if k > 0 {
        let p = (k - 1) as nat;
        lemma_reversal_steps_items(s, p);
        let r = reversal_steps(s, p);
        lemma_suffix_reversed_items(r, p as int);
        assert forall|j: int| 0 <= j < k implies #[trigger] reversal_steps(s, k)[j] == alternated(
            s,
        )[j] by {
            if j == p {
                assert(r[s.len() - 1] == alternated(s)[j]);
            }
        }
    }
}

/// Reversing the suffixes from `0` to `len - 2` in turn takes the items
/// alternately from the back and the front.
proof fn lemma_reversal_steps_alternate<T>(s: Seq<T>)
    requires
        s.len() >= 1,
    ensures
        reversal_steps(s, (s.len() - 1) as nat) == alternated(s),
{
    let k = (s.len() - 1) as nat;
    lemma_reversal_steps_items(s, k);
    assert(reversal_steps(s, k) =~= alternated(s));
}

/// The positions `0 .. n - 1` in the order that the seed byte gives them.
pub open spec fn shuffle_order(n: nat, seed: u8) -> Seq<int> {
    shuffled(Seq::new(n, |k: int| k), seed)
}

/// Shuffling keeps the length and every item with its number of occurrences:
/// the result is a permutation of the input.
pub proof fn shuffle_is_permutation<T>(s: Seq<T>, seed: u8)
    requires
        s.len() >= 1,
    ensures
        shuffled(s, seed).len() == s.len(),
        shuffled(s, seed).to_multiset() == s.to_multiset(),
{
    lemma_shuffled_perm(s, |x: T| x, seed);
}

/// The order is fixed by the length and the seed byte alone: item `k` of the
/// result is the input's item at position `shuffle_order(len, seed)[k]`,
/// whatever the items are.
pub proof fn shuffle_order_is_fixed<T>(s: Seq<T>, seed: u8)
    requires
        s.len() >= 1,
    ensures
        shuffled(s, seed) == shuffle_order(s.len(), seed).map_values(|k: int| s[k]),
{
    let ids = Seq::new(s.len(), |k: int| k);
    let f = |k: int| s[k];
    lemma_shuffled_perm(ids, f, seed);
    assert(ids.map_values(f) =~= s);
}

/// The seed byte drawn from a 32-bit random value: its lowest-order byte.
pub fn seed_byte(random: u32) -> (b: u8)
    ensures
        b as u32 == random % 256,
{
    (random % 256) as u8
}

/// The start index that `seed` selects among `n` positions: the seed itself
/// where it is a position, else its remainder modulo `n`.
pub fn start_index(n: usize, seed: u8) -> (r: usize)
    requires
        n >= 1,
    ensures
        r as nat == start_of(n as nat, seed),
        r < n,
{
    let s = seed as usize;
    if s <= n - 1 {
        proof {
            vstd::arithmetic::div_mod::lemma_small_mod(s as nat, n as nat);
        }
        s
    } else {
        s % n
    }
}

/// The anchored pass: swaps the items at `m` and `start + m` for
/// `m = 0, 1, ...` while `start + m` is a position of `v`.
pub fn rotate_phase<T>(v: &mut Vec<T>, start: usize)
    requires
        start <= old(v)@.len(),
    ensures
        final(v)@ == rotated(old(v)@, start as int),
{
    let ghost s = v@;
    let n = v.len();
    let mut i1: usize = 0;
    let mut i2: usize = start;
    while i2 < n
        invariant
            n == s.len(),
            i2 == start + i1,
            i2 <= n,
            v@.len() == n,
            v@ == rotate_swaps(s, start as int, i1 as nat),
        decreases n - i2,
    {
        swap_items(v, i1, i2);
        i1 = i1 + 1;
        i2 = i2 + 1;
    }
}

/// Reverses the suffix of `v` that starts at `i`.
pub fn reverse_suffix<T>(v: &mut Vec<T>, i: usize)
    requires
        i <= old(v)@.len(),
    ensures
        final(v)@ == suffix_reversed(old(v)@, i as int),
        final(v)@.len() == old(v)@.len(),
        forall|j: int|
            0 <= j < old(v)@.len() ==> #[trigger] final(v)@[j] == if j < i {
                old(v)@[j]
            } else {
                old(v)@[old(v)@.len() - 1 + i - j]
            },
{
    let ghost s = v@;
    proof {
        lemma_suffix_reversed_items(s, i as int);
    }
    let n = v.len();
    if n == 0 {
        return;
    }
    let mut i1: usize = i;
    let mut i2: usize = n - 1;
    while i1 < i2
        invariant
            n == s.len(),
            n >= 1,
            i <= i1,
            i1 - i == (n - 1) - i2,
            i2 < n,
            2 * (i1 - i) <= n - i,
            v@.len() == n,
            v@ == suffix_swaps(s, i as int, (i1 - i) as nat),
        decreases n - i1,
    {
        swap_items(v, i1, i2);
        i1 = i1 + 1;
        i2 = i2 - 1;
    }
}

/// The reversal phase: reverses the suffixes from `0`, `1`, ..., `len - 2`
/// in turn, which takes the items alternately from the back and the front.
pub fn reverse_phase<T>(v: &mut Vec<T>)
    requires
        old(v)@.len() >= 1,
    ensures
        final(v)@ == alternated(old(v)@),
{
    let ghost s = v@;
    let last = v.len() - 1;
    let mut i: usize = 0;
    while i < last
        invariant
            last == s.len() - 1,
            i <= last,
            v@ == reversal_steps(s, i as nat),
        decreases last - i,
    {
        proof {
            lemma_reversal_steps_len(s, i as nat);
        }
        reverse_suffix(v, i);
        i = i + 1;
    }
    proof {
        lemma_reversal_steps_alternate(s);
    }
}

/// Reorders `v` as the seed byte selects: the anchored pass from the start
/// index, then the reversal phase.
pub fn shuffle<T>(v: &mut Vec<T>, seed: u8)
    requires
        old(v)@.len() >= 1,
    ensures
        final(v)@ == shuffled(old(v)@, seed),
{
    let ghost s = v@;
    let start = start_index(v.len(), seed);
    rotate_phase(v, start);
    proof {
        lemma_rotate_swaps_len(s, start as int, (s.len() - start) as nat);
    }
    reverse_phase(v);
}

} // verus!
