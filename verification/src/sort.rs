//! The indirect sort engine: a stable ordering is computed over composite
//! sort keys as a permutation of indices, then applied to the collection
//! in place by following the permutation's cycles, with no auxiliary
//! allocation proportional to the element size.

use vstd::prelude::*;
use vstd::set_lib::{lemma_int_range, lemma_len_subset, set_int_range};

verus! {

broadcast use vstd::set::group_set_axioms;

/// `p` is a permutation of `[0, n)`: right length, every value in range,
/// no repeated value.
pub open spec fn is_permutation(p: Seq<usize>, n: int) -> bool {
    p.len() == n && (forall|i: int| #![trigger p[i]] 0 <= i < n ==> (p[i] as int) < n) && (forall|
        i: int,
        j: int,
    |
        #![trigger p[i], p[j]]
        0 <= i < n && 0 <= j < n && i != j ==> p[i] != p[j])
}

/// Relies on `<[T]>::swap`: exchanges the elements at `a` and `b`, which
/// must be in bounds (the call panics otherwise, so out-of-bounds indices
/// are excluded here).
#[verifier::external_body]
fn vec_swap<T>(v: &mut Vec<T>, a: usize, b: usize)
    requires
        a < old(v)@.len(),
        b < old(v)@.len(),
    ensures
        final(v)@ == old(v)@.update(a as int, old(v)@[b as int]).update(b as int, old(v)@[a as int]),
{
    v.as_mut_slice().swap(a, b);
}

/// Rearrange `subject` in place into the order given by `indices`: the
/// element that ends at position `k` is the one that started at position
/// `indices[k]`.  Uses `indices` as scratch space, so its contents
/// afterwards are unspecified; the data is moved by following each cycle
/// of the permutation, with at most one swap per element.
#[verifier::rlimit(100)]
pub fn apply_isort<T>(indices: &mut Vec<usize>, subject: &mut Vec<T>)
    requires
        is_permutation(old(indices)@, old(subject)@.len() as int),
    ensures
        final(indices)@.len() == old(indices)@.len(),
        final(subject)@.len() == old(subject)@.len(),
        forall|k: int|
            0 <= k < old(subject)@.len() ==> final(subject)@[k] == old(subject)@[old(
                indices,
            )@[k] as int],
{
    let ghost perm = indices@;
    let ghost orig = subject@;
    let n = indices.len();
    let ghost ni = n as int;
    if n == 0 {
        return ;
    }
    let ghost mut done: Set<int> = Set::empty();
    let mut i: usize = 0;
    while i < n - 1
        invariant
            indices@.len() == ni,
            subject@.len() == ni,
            orig.len() == ni,
            is_permutation(perm, ni),
            n as int == ni,
            1 <= ni,
            0 <= i <= n - 1,
            done.finite(),
            forall|k: int| #[trigger] done.contains(k) ==> 0 <= k < ni,
            forall|k: int|
                0 <= k < ni && #[trigger] done.contains(k) ==> indices@[k] as int == k
                    && subject@[k] == orig[perm[k] as int],
            forall|k: int|
                0 <= k < ni && !(#[trigger] done.contains(k)) ==> indices@[k] == perm[k]
                    && subject@[k] == orig[k],
            forall|k: int|
                0 <= k < ni && #[trigger] done.contains(k) ==> done.contains(perm[k] as int),
            forall|k: int|
                0 <= k < ni && done.contains(perm[k] as int) ==> #[trigger] done.contains(k),
            forall|k: int| 0 <= k < i ==> #[trigger] done.contains(k),
        decreases n - i,
    {
        let ghost mut visited: Set<int> = Set::empty();
        let ghost mut started: bool = false;
        let mut curr: usize = i;
        loop
            invariant_except_break
                indices@.len() == ni,
                subject@.len() == ni,
                orig.len() == ni,
                is_permutation(perm, ni),
                n as int == ni,
                0 <= i < ni,
                (curr as int) < ni,
                done.finite(),
                visited.finite(),
                visited.len() <= ni,
                forall|k: int| #[trigger] done.contains(k) ==> 0 <= k < ni,
                forall|k: int| #[trigger] visited.contains(k) ==> 0 <= k < ni,
                forall|k: int|
                    0 <= k < ni && #[trigger] done.contains(k) ==> indices@[k] as int == k
                        && subject@[k] == orig[perm[k] as int],
                forall|k: int|
                    0 <= k < ni && #[trigger] done.contains(k) ==> done.contains(perm[k] as int),
                forall|k: int|
                    0 <= k < ni && done.contains(perm[k] as int) ==> #[trigger] done.contains(k),
                forall|k: int| 0 <= k < i ==> #[trigger] done.contains(k),
                forall|k: int|
                    0 <= k < ni && #[trigger] visited.contains(k) ==> indices@[k] as int == k,
                forall|k: int|
                    0 <= k < ni && !(#[trigger] done.contains(k)) && !(#[trigger] visited.contains(
                        k,
                    )) ==> indices@[k] == perm[k],
                forall|k: int|
                    0 <= k < ni && #[trigger] visited.contains(k) && k != curr as int ==> subject@[k]
                        == orig[perm[k] as int],
                forall|k: int|
                    0 <= k < ni && !(#[trigger] done.contains(k)) && !(#[trigger] visited.contains(
                        k,
                    )) && k != curr as int ==> subject@[k] == orig[k],
                !started ==> curr == i && visited == Set::<int>::empty(),
                !started && !done.contains(i as int) ==> subject@[curr as int] == orig[curr as int],
                started ==> subject@[curr as int] == orig[i as int] && !done.contains(curr as int)
                    && !visited.contains(curr as int) && visited.contains(i as int)
                    && !done.contains(i as int),
                forall|k: int| #[trigger]
                    visited.contains(k) ==> visited.contains(perm[k] as int) || perm[k] as int
                        == curr as int,
                forall|k: int|
                    0 <= k < ni && (#[trigger] visited.contains(k) || k == curr as int) && k
                        != i as int ==> exists|k2: int|
                        visited.contains(k2) && perm[k2] as int == k,
            ensures
                indices@.len() == ni,
                subject@.len() == ni,
                done.finite(),
                visited.finite(),
                ({
                    let dd = done.union(visited).insert(i as int);
                    &&& forall|k: int| #[trigger] dd.contains(k) ==> 0 <= k < ni
                    &&& forall|k: int|
                        0 <= k < ni && #[trigger] dd.contains(k) ==> indices@[k] as int == k
                            && subject@[k] == orig[perm[k] as int]
                    &&& forall|k: int|
                        0 <= k < ni && !(#[trigger] dd.contains(k)) ==> indices@[k] == perm[k]
                            && subject@[k] == orig[k]
                    &&& forall|k: int|
                        0 <= k < ni && #[trigger] dd.contains(k) ==> dd.contains(perm[k] as int)
                    &&& forall|k: int|
                        0 <= k < ni && dd.contains(perm[k] as int) ==> #[trigger] dd.contains(k)
                }),
            decreases ni - visited.len(),
        {
            let ghost pre_visited = visited;
            let ghost pre_idx = indices@;
            let next = indices[curr];
            indices[curr] = curr;
            proof {
                visited = visited.insert(curr as int);
                assert(visited.subset_of(set_int_range(0, ni)));
                lemma_int_range(0, ni);
                lemma_len_subset(visited, set_int_range(0, ni));
                assert(next == pre_idx[curr as int]);
            }
            if next == i {
                proof {
                    // the cycle is closed: every walked position now holds
                    // its final element and its own index
                    let dd = done.union(visited).insert(i as int);
                    if !started {
                        assert(curr == i);
                        if !done.contains(i as int) {
                            assert(next == perm[i as int]);
                            assert(perm[i as int] as int == i as int);
                        }
                    } else {
                        assert(next == perm[curr as int]);
                        assert(perm[curr as int] as int == i as int);
                    }
                    assert forall|k: int|
                        0 <= k < ni && #[trigger] dd.contains(k) implies indices@[k] as int == k
                        && subject@[k] == orig[perm[k] as int] by {
                        if done.contains(k) {
                        } else if k == curr as int {
                            if !started {
                                if done.contains(i as int) {
                                } else {
                                    assert(subject@[k] == orig[k]);
                                    assert(perm[k] as int == k);
                                }
                            } else {
                                assert(subject@[k] == orig[i as int]);
                                assert(perm[curr as int] as int == i as int);
                            }
                        } else if pre_visited.contains(k) {
                        }
                    }
                    assert forall|k: int|
                        0 <= k < ni && #[trigger] dd.contains(k) implies dd.contains(
                        perm[k] as int,
                    ) by {
                        if done.contains(k) {
                        } else if k == curr as int {
                            if !started && !done.contains(i as int) {
                                assert(perm[k] as int == k);
                            }
                        } else if pre_visited.contains(k) {
                            assert(pre_visited.contains(perm[k] as int) || perm[k] as int
                                == curr as int);
                        }
                    }
                    assert forall|k: int|
                        0 <= k < ni && dd.contains(perm[k] as int) implies #[trigger] dd.contains(
                        k,
                    ) by {
                        let pk = perm[k] as int;
                        if done.contains(pk) {
                            assert(done.contains(k));
                        } else if pk == i as int {
                            // only the closing position maps back to the start
                            if !started {
                                if done.contains(i as int) {
                                    assert(done.contains(k));
                                } else {
                                    assert(perm[i as int] as int == i as int);
                                    assert(k == i as int);
                                }
                            } else {
                                assert(perm[curr as int] as int == i as int);
                                assert(k == curr as int);
                            }
                        } else {
                            // an interior walked position: its only preimage
                            // was walked too
                            assert(pre_visited.contains(pk) || pk == curr as int);
                            let k2 = choose|k2: int|
                                pre_visited.contains(k2) && perm[k2] as int == pk;
                            assert(pre_visited.contains(k2) && perm[k2] as int == pk);
                            assert(k2 == k);
                        }
                    }
                }
                break ;
            }
            proof {
                // the walk continues: the position it moves to is fresh
                if done.contains(curr as int) {
                    assert(!started);
                    assert(curr == i);
                    assert(pre_idx[curr as int] as int == curr as int);
                    assert(false);
                }
                assert(!pre_visited.contains(curr as int));
                assert(next == perm[curr as int]);
                let nx = next as int;
                assert(0 <= nx < ni);
                if done.contains(nx) {
                    assert(done.contains(curr as int));
                    assert(false);
                }
                if pre_visited.contains(nx) {
                    assert(nx != i as int);
                    let k2 = choose|k2: int| pre_visited.contains(k2) && perm[k2] as int == nx;
                    assert(pre_visited.contains(k2) && perm[k2] as int == nx);
                    assert(k2 == curr as int);
                    assert(false);
                }
                if nx == curr as int {
                    if started {
                        let k2 = choose|k2: int|
                            pre_visited.contains(k2) && perm[k2] as int == curr as int;
                        assert(pre_visited.contains(k2) && perm[k2] as int == curr as int);
                        assert(k2 == curr as int);
                        assert(false);
                    } else {
                        assert(curr == i);
                        assert(false);
                    }
                }
            }
            vec_swap(subject, curr, next);
            proof {
                started = true;
                // the walked position is the witness for the one it fed
                assert(visited.contains(curr as int));
                assert(perm[curr as int] as int == next as int);
            }
            curr = next;
        }
        proof {
            assert(done.union(visited).finite()) by {
                vstd::set::axiom_set_union_finite(done, visited);
            }
            done = done.union(visited).insert(i as int);
        }
        i = i + 1;
    }
    proof {
        let last = ni - 1;
        if !done.contains(last) {
            assert((perm[last] as int) < ni);
            if (perm[last] as int) < last {
                assert(done.contains(perm[last] as int));
                assert(done.contains(last));
                assert(false);
            }
            assert(perm[last] as int == last);
            assert(subject@[last] == orig[perm[last] as int]);
        }
        assert forall|k: int| 0 <= k < ni implies subject@[k] == orig[perm[k] as int] by {
            if k < ni - 1 {
                assert(done.contains(k));
            }
        }
    }
}

} // verus!

use vstd::string::StrSliceExecFns;

verus! {

/// The composite sort key: a fixed category ordinal, a per-kind tie-break
/// hint, and the record's identifier, compared lexicographically in that
/// order.
pub struct SortKey {
    /// Fixed ordinal of the record kind.
    pub category: u32,
    /// Tie-break hint; zero unless the kind overrides it.
    pub hint: i32,
    /// The record's identifier, or empty for kinds sorted without one.
    pub id: String,
}

/// Strict code-point lexicographic order on character sequences; this is
/// the order `str` comparison uses.
pub open spec fn chars_lt(a: Seq<char>, b: Seq<char>) -> bool
    decreases a.len(),
{
    if b.len() == 0 {
        false
    } else if a.len() == 0 {
        true
    } else if a[0] == b[0] {
        chars_lt(a.drop_first(), b.drop_first())
    } else {
        (a[0] as u32) < (b[0] as u32)
    }
}

/// `chars_lt` is irreflexive.
pub proof fn lemma_chars_lt_irrefl(a: Seq<char>)
    ensures
        !chars_lt(a, a),
    decreases a.len(),
{
    if a.len() > 0 {
        lemma_chars_lt_irrefl(a.drop_first());
    }
}

/// `chars_lt` is transitive.
pub proof fn lemma_chars_lt_trans(a: Seq<char>, b: Seq<char>, c: Seq<char>)
    requires
        chars_lt(a, b),
        chars_lt(b, c),
    ensures
        chars_lt(a, c),
    decreases a.len(),
{
    if a.len() > 0 && b.len() > 0 && c.len() > 0 {
        if a[0] == b[0] && b[0] == c[0] {
            lemma_chars_lt_trans(a.drop_first(), b.drop_first(), c.drop_first());
        }
    }
}

/// `chars_lt` is connected: sequences that compare unordered are equal.
pub proof fn lemma_chars_lt_connected(a: Seq<char>, b: Seq<char>)
    requires
        !chars_lt(a, b),
        !chars_lt(b, a),
    ensures
        a == b,
    decreases a.len(),
{
    if a.len() == 0 || b.len() == 0 {
        assert(a =~= b);
    } else {
        assert((a[0] as u32) == (b[0] as u32));
        assert(a[0] == b[0]) by {
            vstd::utf8::char_u32_cast(a[0], a[0] as u32);
            vstd::utf8::char_u32_cast(b[0], b[0] as u32);
        }
        lemma_chars_lt_connected(a.drop_first(), b.drop_first());
        assert(a =~= b) by {
            assert(a.drop_first() =~= b.drop_first());
            assert(forall|k: int|
                1 <= k < a.len() ==> a[k] == a.drop_first()[k - 1] && b[k] == b.drop_first()[k
                    - 1]);
        }
    }
}

/// Strict lexicographic order on keys: by category, then hint, then
/// identifier.
pub open spec fn key_lt(x: SortKey, y: SortKey) -> bool {
    if x.category != y.category {
        x.category < y.category
    } else if x.hint != y.hint {
        x.hint < y.hint
    } else {
        chars_lt(x.id@, y.id@)
    }
}

/// Two keys compare equal: all three components agree.
pub open spec fn key_eq(x: SortKey, y: SortKey) -> bool {
    x.category == y.category && x.hint == y.hint && x.id@ == y.id@
}

/// The order the stable sort establishes among positions `a` and `b` of
/// `keys`: strictly smaller key, or equal keys with `a` before `b` (which
/// is what makes the sort stable).
pub open spec fn key_index_lt(keys: Seq<SortKey>, a: int, b: int) -> bool {
    key_lt(keys[a], keys[b]) || (key_eq(keys[a], keys[b]) && a < b)
}

/// `key_lt` is transitive.
pub proof fn lemma_key_lt_trans(x: SortKey, y: SortKey, z: SortKey)
    requires
        key_lt(x, y),
        key_lt(y, z),
    ensures
        key_lt(x, z),
{
    if x.category == y.category && y.category == z.category && x.hint == y.hint && y.hint == z.hint
    {
        lemma_chars_lt_trans(x.id@, y.id@, z.id@);
    }
}

/// `key_lt` is connected up to `key_eq`.
pub proof fn lemma_key_lt_connected(x: SortKey, y: SortKey)
    requires
        !key_lt(x, y),
        !key_lt(y, x),
    ensures
        key_eq(x, y),
{
    lemma_chars_lt_connected(x.id@, y.id@);
}

/// The stable order on positions is transitive.
pub proof fn lemma_key_index_lt_trans(keys: Seq<SortKey>, a: int, b: int, c: int)
    requires
        0 <= a < keys.len(),
        0 <= b < keys.len(),
        0 <= c < keys.len(),
        key_index_lt(keys, a, b),
        key_index_lt(keys, b, c),
    ensures
        key_index_lt(keys, a, c),
{
    if key_lt(keys[a], keys[b]) && key_lt(keys[b], keys[c]) {
        lemma_key_lt_trans(keys[a], keys[b], keys[c]);
    }
}

/// The stable order relates any two distinct positions.
pub proof fn lemma_key_index_lt_connected(keys: Seq<SortKey>, a: int, b: int)
    requires
        0 <= a < keys.len(),
        0 <= b < keys.len(),
        a != b,
        !key_index_lt(keys, a, b),
    ensures
        key_index_lt(keys, b, a),
{
    if !key_lt(keys[a], keys[b]) && !key_lt(keys[b], keys[a]) {
        lemma_key_lt_connected(keys[a], keys[b]);
    }
}

/// Strict code-point order on two strings, the executable form of
/// [`chars_lt`].
pub fn str_lt(a: &str, b: &str) -> (r: bool)
    ensures
        r == chars_lt(a@, b@),
{
    let an = a.unicode_len();
    let bn = b.unicode_len();
    let mut i: usize = 0;
    proof {
        assert(a@.skip(0) =~= a@);
        assert(b@.skip(0) =~= b@);
    }
    while i < an && i < bn
        invariant
            an == a@.len(),
            bn == b@.len(),
            0 <= i <= an,
            i <= bn,
            chars_lt(a@, b@) == chars_lt(a@.skip(i as int), b@.skip(i as int)),
        decreases an - i,
    {
        let ca = a.get_char(i);
        let cb = b.get_char(i);
        proof {
            assert(a@.skip(i as int)[0] == a@[i as int]);
            assert(b@.skip(i as int)[0] == b@[i as int]);
        }
        if ca != cb {
            return (ca as u32) < (cb as u32);
        }
        proof {
            assert(a@.skip(i as int).drop_first() =~= a@.skip(i as int + 1));
            assert(b@.skip(i as int).drop_first() =~= b@.skip(i as int + 1));
        }
        i = i + 1;
    }
    proof {
        assert(a@.skip(i as int).len() == an - i);
        assert(b@.skip(i as int).len() == bn - i);
    }
    an < bn
}

/// Strict key order, the executable form of [`key_lt`].
pub fn sort_key_lt(x: &SortKey, y: &SortKey) -> (r: bool)
    ensures
        r == key_lt(*x, *y),
{
    if x.category != y.category {
        x.category < y.category
    } else if x.hint != y.hint {
        x.hint < y.hint
    } else {
        str_lt(x.id.as_str(), y.id.as_str())
    }
}

/// The stable position order, the executable form of [`key_index_lt`].
fn key_index_lt_exec(keys: &Vec<SortKey>, a: usize, b: usize) -> (r: bool)
    requires
        a < keys@.len(),
        b < keys@.len(),
    ensures
        r == key_index_lt(keys@, a as int, b as int),
{
    let x = &keys[a];
    let y = &keys[b];
    if sort_key_lt(x, y) {
        true
    } else if x.category == y.category && x.hint == y.hint && x.id == y.id {
        a < b
    } else {
        false
    }
}

/// Compute into `indices` the stable ascending ordering of `keys`: the
/// result is a permutation, and walking it visits positions in strictly
/// increasing stable key order, so positions with equal keys are visited
/// in their original relative order.
pub fn isort(indices: &mut Vec<usize>, keys: &Vec<SortKey>)
    ensures
        is_permutation(final(indices)@, keys@.len() as int),
        forall|p: int, q: int|
            0 <= p < q < keys@.len() ==> key_index_lt(
                keys@,
                final(indices)@[p] as int,
                final(indices)@[q] as int,
            ),
{
    indices.clear();
    let n = keys.len();
    for idx in 0..n
        invariant
            n == keys@.len(),
            indices@.len() == idx,
            forall|k: int| 0 <= k < idx ==> (#[trigger] indices@[k]) as int == k,
    {
        indices.push(idx);
    }
    let mut i: usize = 1;
    while i < n
        invariant
            n == keys@.len(),
            indices@.len() == n,
            is_permutation(indices@, n as int),
            1 <= i <= n || (n == 0 && i == 1),
            forall|p: int, q: int|
                0 <= p < q < i ==> key_index_lt(
                    keys@,
                    (#[trigger] indices@[p]) as int,
                    (#[trigger] indices@[q]) as int,
                ),
        decreases n - i,
    {
        let mut j = i;
        while j > 0 && key_index_lt_exec(keys, indices[j], indices[j - 1])
            invariant
                n == keys@.len(),
                indices@.len() == n,
                is_permutation(indices@, n as int),
                0 <= j <= i < n,
                forall|p: int, q: int|
                    0 <= p < q <= i && p != j && q != j ==> key_index_lt(
                        keys@,
                        (#[trigger] indices@[p]) as int,
                        (#[trigger] indices@[q]) as int,
                    ),
                forall|q: int|
                    j < q <= i ==> key_index_lt(
                        keys@,
                        indices@[j as int] as int,
                        (#[trigger] indices@[q]) as int,
                    ),
            decreases j,
        {
            let vj = indices[j];
            let vp = indices[j - 1];
            indices[j] = vp;
            indices[j - 1] = vj;
            j = j - 1;
        }
        proof {
            assert forall|p: int, q: int| 0 <= p < q <= i implies key_index_lt(
                keys@,
                indices@[p] as int,
                indices@[q] as int,
            ) by {
                if j > 0 && (p == j || q == j) {
                    lemma_key_index_lt_connected(
                        keys@,
                        indices@[j as int] as int,
                        indices@[j - 1] as int,
                    );
                    if q == j && p < j - 1 {
                        lemma_key_index_lt_trans(
                            keys@,
                            indices@[p] as int,
                            indices@[j - 1] as int,
                            indices@[j as int] as int,
                        );
                    }
                }
            }
        }
        i = i + 1;
    }
}

/// Applying the identity permutation leaves the array unchanged.
pub proof fn lemma_apply_identity<T>(p: Seq<usize>, s1: Seq<T>, s2: Seq<T>)
    requires
        p.len() == s1.len(),
        s2.len() == s1.len(),
        forall|k: int| 0 <= k < p.len() ==> (#[trigger] p[k]) as int == k,
        forall|k: int| 0 <= k < s2.len() ==> #[trigger] s2[k] == s1[p[k] as int],
    ensures
        s2 == s1,
{
    assert(s2 =~= s1);
}

/// Applying the full-reverse permutation reverses the array.
pub proof fn lemma_apply_reverse<T>(p: Seq<usize>, s1: Seq<T>, s2: Seq<T>)
    requires
        p.len() == s1.len(),
        s2.len() == s1.len(),
        forall|k: int| 0 <= k < p.len() ==> (#[trigger] p[k]) as int == p.len() - 1 - k,
        forall|k: int| 0 <= k < s2.len() ==> #[trigger] s2[k] == s1[p[k] as int],
    ensures
        forall|k: int| 0 <= k < s2.len() ==> #[trigger] s2[k] == s1[s1.len() - 1 - k],
{
}

/// Applying the single-cycle permutation `p[k] = (k + 1) % n` rotates the
/// array left by one.
pub proof fn lemma_apply_rotate<T>(p: Seq<usize>, s1: Seq<T>, s2: Seq<T>)
    requires
        p.len() == s1.len(),
        s2.len() == s1.len(),
        forall|k: int|
            0 <= k < p.len() ==> (#[trigger] p[k]) as int == (k + 1) % (p.len() as int),
        forall|k: int| 0 <= k < s2.len() ==> #[trigger] s2[k] == s1[p[k] as int],
    ensures
        forall|k: int| 0 <= k < s2.len() - 1 ==> #[trigger] s2[k] == s1[k + 1],
        s2.len() > 0 ==> s2[s2.len() - 1] == s1[0],
{
    assert forall|k: int| 0 <= k < s2.len() - 1 implies #[trigger] s2[k] == s1[k + 1] by {
        assert(p[k] as int == (k + 1) % (p.len() as int));
        assert((k + 1) % (p.len() as int) == k + 1) by (nonlinear_arith)
            requires
                0 <= k,
                k + 1 < p.len() as int,
        ;
    }
    if s2.len() > 0 {
        let m = s2.len() - 1;
        assert(p[m] as int == (m + 1) % (p.len() as int));
        assert((m + 1) % (p.len() as int) == 0) by (nonlinear_arith)
            requires
                m + 1 == p.len() as int,
                p.len() > 0,
        ;
    }
}

/// Stability: after sorting with the ordering of [`isort`] and applying
/// it as [`apply_isort`] does, two positions holding equal keys originate
/// from positions in the same relative order.
pub proof fn lemma_sort_is_stable(keys: Seq<SortKey>, p: Seq<usize>, m1: int, m2: int)
    requires
        is_permutation(p, keys.len() as int),
        forall|a: int, b: int|
            0 <= a < b < keys.len() ==> key_index_lt(
                keys,
                (#[trigger] p[a]) as int,
                (#[trigger] p[b]) as int,
            ),
        0 <= m1 < m2 < keys.len(),
        key_eq(keys[p[m1] as int], keys[p[m2] as int]),
    ensures
        p[m1] < p[m2],
{
    assert(key_index_lt(keys, p[m1] as int, p[m2] as int));
    if key_lt(keys[p[m1] as int], keys[p[m2] as int]) {
        lemma_chars_lt_irrefl(keys[p[m1] as int].id@);
    }
}

} // verus!
