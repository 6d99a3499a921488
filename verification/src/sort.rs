//! Stable descending sort by a precomputed 64-bit key. Used wherever the
//! daemon publishes a "top N" list (processes by CPU time, cgroups by
//! traffic, bandwidth deltas by internet traffic).

use vstd::prelude::*;

verus! {

/// `out` is `input` rearranged by `perm` (`out[k] == input[perm[k]]`, no
/// index used twice), ordered by descending key, and entries with equal
/// keys keep their relative input order.
pub open spec fn stable_desc_perm<T>(input: Seq<T>, keys: Seq<u64>, out: Seq<T>, perm: Seq<int>) -> bool {
    &&& out.len() == input.len()
    &&& perm.len() == input.len()
    &&& forall|k: int|
        0 <= k < perm.len() ==> 0 <= #[trigger] perm[k] < input.len() && out[k] == input[perm[k]]
    &&& forall|a: int, b: int|
        #![trigger perm[a], perm[b]]
        0 <= a < b < perm.len() ==> {
            &&& perm[a] != perm[b]
            &&& keys[perm[a]] >= keys[perm[b]]
            &&& (keys[perm[a]] == keys[perm[b]] ==> perm[a] < perm[b])
        }
}

/// `out` is the stable descending-by-key ordering of `input`.
pub open spec fn is_stable_desc_sort<T>(input: Seq<T>, keys: Seq<u64>, out: Seq<T>) -> bool {
    exists|perm: Seq<int>| stable_desc_perm(input, keys, out, perm)
}

/// Sort `items` by descending `keys[i]` (the key of `items[i]`), keeping
/// the input order among equal keys.
pub fn stable_sort_desc<T: Copy>(items: &Vec<T>, keys: &Vec<u64>) -> (out: Vec<T>)
    requires
        items.len() == keys.len(),
    ensures
        is_stable_desc_sort(items@, keys@, out@),
{
    let n = items.len();
    let mut out: Vec<T> = Vec::new();
    let mut out_keys: Vec<u64> = Vec::new();
    let ghost mut perm: Seq<int> = Seq::empty();
    let mut i: usize = 0;
    while i < n
        invariant
            n == items.len(),
            n == keys.len(),
            i <= n,
            out.len() == i,
            out_keys.len() == i,
            perm.len() == i,
            forall|k: int|
                0 <= k < i ==> 0 <= #[trigger] perm[k] < i && out[k] == items@[perm[k]]
                    && out_keys[k] == keys@[perm[k]],
            forall|a: int, b: int|
                #![trigger perm[a], perm[b]]
                0 <= a < b < i ==> {
                    &&& perm[a] != perm[b]
                    &&& keys@[perm[a]] >= keys@[perm[b]]
                    &&& (keys@[perm[a]] == keys@[perm[b]] ==> perm[a] < perm[b])
                },
        decreases n - i,
    {
        let key = keys[i];
        let mut p: usize = 0;
        while p < out_keys.len() && out_keys[p] >= key
            invariant
                p <= out_keys.len(),
                forall|q: int| 0 <= q < p ==> out_keys[q] >= key,
            decreases out_keys.len() - p,
        {
            p = p + 1;
        }
        proof {
            assert forall|q: int| p <= q < i implies out_keys[q] < key by {
                if q > p {
                    assert(keys@[perm[p as int]] >= keys@[perm[q]]);
                }
            }
        }
        let ghost old_perm = perm;
        let ghost old_out = out@;
        let ghost old_keys = out_keys@;
        out.insert(p, items[i]);
        out_keys.insert(p, key);
        proof {
            perm = perm.insert(p as int, i as int);
            assert forall|k: int| 0 <= k < i + 1 implies 0 <= #[trigger] perm[k] < i + 1
                && out[k] == items@[perm[k]] && out_keys[k] == keys@[perm[k]] by {
                if k < p {
                    assert(perm[k] == old_perm[k]);
                } else if k > p {
                    assert(perm[k] == old_perm[k - 1]);
                }
            }
            assert forall|a: int, b: int| #![trigger perm[a], perm[b]] 0 <= a < b < i + 1 implies {
                &&& perm[a] != perm[b]
                &&& keys@[perm[a]] >= keys@[perm[b]]
                &&& (keys@[perm[a]] == keys@[perm[b]] ==> perm[a] < perm[b])
            } by {
                if a < p && b < p {
                    assert(perm[a] == old_perm[a] && perm[b] == old_perm[b]);
                } else if a < p && b == p {
                    assert(perm[a] == old_perm[a]);
                    assert(old_keys[a] >= key);
                } else if a < p && b > p {
                    assert(perm[a] == old_perm[a] && perm[b] == old_perm[b - 1]);
                } else if a == p {
                    assert(perm[b] == old_perm[b - 1]);
                    assert(old_keys[b - 1] < key);
                } else {
                    assert(perm[a] == old_perm[a - 1] && perm[b] == old_perm[b - 1]);
                }
            }
        }
        i = i + 1;
    }
    assert(stable_desc_perm(items@, keys@, out@, perm));
    out
}

} // verus!
