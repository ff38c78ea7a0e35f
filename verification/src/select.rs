//! Coin selection: a stable sort of the candidate outputs by descending
//! value, then a greedy prefix that covers the target plus the estimated
//! fee, recomputed as inputs are added.

use vstd::prelude::*;
use crate::types::{Utxo, UtxoModel, WalletError, spec_models};
use crate::fees::{spec_fee, estimated_fee, DUST_THRESHOLD};

verus! {

/// Strict order on candidate positions: position `x` comes before `y` when
/// its value is larger, with ties broken by the original order.
pub open spec fn spec_before(u: Seq<UtxoModel>, x: int, y: int) -> bool {
    u[x].value > u[y].value || (u[x].value == u[y].value && x < y)
}

/// Inserts position `i` into an already sorted list of positions.
pub open spec fn spec_insert_idx(u: Seq<UtxoModel>, s: Seq<int>, i: int) -> Seq<int>
    decreases s.len(),
{
    if s.len() == 0 {
        seq![i]
    } else if spec_before(u, s[0], i) {
        seq![s[0]] + spec_insert_idx(u, s.drop_first(), i)
    } else {
        seq![i] + s
    }
}

/// The sorted order of the first `n` positions, built by insertion.
pub open spec fn spec_sort_idx_upto(u: Seq<UtxoModel>, n: nat) -> Seq<int>
    decreases n,
{
    if n == 0 {
        Seq::<int>::empty()
    } else {
        spec_insert_idx(u, spec_sort_idx_upto(u, (n - 1) as nat), n - 1)
    }
}

/// The positions of `u` sorted by descending value, stable.
pub open spec fn spec_sort_idx(u: Seq<UtxoModel>) -> Seq<int> {
    spec_sort_idx_upto(u, u.len())
}

/// The candidates of `u` in sorted order.
pub open spec fn spec_sorted_utxos(u: Seq<UtxoModel>) -> Seq<UtxoModel> {
    spec_vals_at(u, spec_sort_idx(u))
}

/// Sum of the values of a sequence of candidates, in satoshi.
pub open spec fn spec_values_sum(s: Seq<UtxoModel>) -> int
    decreases s.len(),
{
    if s.len() == 0 {
        0int
    } else {
        s[0].value + spec_values_sum(s.drop_first())
    }
}

/// The sum of a concatenation is the sum of the parts.
pub proof fn lemma_sum_concat(a: Seq<UtxoModel>, b: Seq<UtxoModel>)
    ensures
        spec_values_sum(a + b) == spec_values_sum(a) + spec_values_sum(b),
    decreases a.len(),
{
    if a.len() == 0 {
        assert(a + b =~= b);
    } else {
        assert((a + b).drop_first() =~= a.drop_first() + b);
        assert((a + b)[0] == a[0]);
        lemma_sum_concat(a.drop_first(), b);
    }
}

/// Every value is non-negative, so every sum is.
pub proof fn lemma_sum_nonneg(s: Seq<UtxoModel>)
    ensures
        spec_values_sum(s) >= 0,
    decreases s.len(),
{
    if s.len() != 0 {
        lemma_sum_nonneg(s.drop_first());
    }
}

/// A prefix sum never exceeds the whole sum.
pub proof fn lemma_sum_take_le(s: Seq<UtxoModel>, k: int)
    requires
        0 <= k <= s.len(),
    ensures
        spec_values_sum(s.take(k)) <= spec_values_sum(s),
{
    assert(s.take(k) + s.skip(k) =~= s);
    lemma_sum_concat(s.take(k), s.skip(k));
    lemma_sum_nonneg(s.skip(k));
}

/// The candidates of `u` at the positions of `s`, in that order.
pub open spec fn spec_vals_at(u: Seq<UtxoModel>, s: Seq<int>) -> Seq<UtxoModel> {
    s.map_values(|j: int| u[j])
}

/// The sum of a one-element sequence is that element's value.
pub proof fn lemma_sum_singleton(x: UtxoModel)
    ensures
        spec_values_sum(seq![x]) == x.value,
{
    assert(seq![x].drop_first() =~= Seq::<UtxoModel>::empty());
    assert(spec_values_sum(Seq::<UtxoModel>::empty()) == 0);
}

/// Inserting one position adds exactly its value to the mapped sum.
proof fn lemma_insert_idx_sum(u: Seq<UtxoModel>, s: Seq<int>, i: int)
    ensures
        spec_values_sum(spec_vals_at(u, spec_insert_idx(u, s, i))) == spec_values_sum(
            spec_vals_at(u, s),
        ) + u[i].value,
    decreases s.len(),
{
    lemma_sum_singleton(u[i]);
    if s.len() == 0 {
        assert(spec_vals_at(u, seq![i]) =~= seq![u[i]]);
        assert(spec_vals_at(u, s) =~= Seq::<UtxoModel>::empty());
    } else if spec_before(u, s[0], i) {
        let rec = spec_insert_idx(u, s.drop_first(), i);
        lemma_insert_idx_sum(u, s.drop_first(), i);
        lemma_sum_singleton(u[s[0]]);
        assert(spec_vals_at(u, seq![s[0]] + rec) =~= seq![u[s[0]]] + spec_vals_at(u, rec));
        lemma_sum_concat(seq![u[s[0]]], spec_vals_at(u, rec));
        assert(spec_vals_at(u, s) =~= seq![u[s[0]]] + spec_vals_at(u, s.drop_first()));
        lemma_sum_concat(seq![u[s[0]]], spec_vals_at(u, s.drop_first()));
    } else {
        assert(spec_vals_at(u, seq![i] + s) =~= seq![u[i]] + spec_vals_at(u, s));
        lemma_sum_concat(seq![u[i]], spec_vals_at(u, s));
    }
}

/// The sorted sequence has the same sum as the original.
pub proof fn lemma_sorted_sum(u: Seq<UtxoModel>, n: nat)
    requires
        n <= u.len(),
    ensures
        spec_values_sum(spec_vals_at(u, spec_sort_idx_upto(u, n))) == spec_values_sum(
            u.take(n as int),
        ),
    decreases n,
{
    if n == 0 {
        assert(spec_vals_at(u, spec_sort_idx_upto(u, 0)) =~= Seq::<UtxoModel>::empty());
        assert(u.take(0) =~= Seq::<UtxoModel>::empty());
    } else {
        lemma_sorted_sum(u, (n - 1) as nat);
        lemma_insert_idx_sum(u, spec_sort_idx_upto(u, (n - 1) as nat), n - 1);
        assert(u.take(n as int) =~= u.take(n - 1) + seq![u[n - 1]]);
        lemma_sum_concat(u.take(n - 1), seq![u[n - 1]]);
        lemma_sum_singleton(u[n - 1]);
    }
}

/// What the inserted list holds: the old positions and the new one.
proof fn lemma_insert_idx_contains(u: Seq<UtxoModel>, s: Seq<int>, i: int)
    ensures
        spec_insert_idx(u, s, i).len() == s.len() + 1,
        forall|x: int|
            #![trigger spec_insert_idx(u, s, i).contains(x)]
            spec_insert_idx(u, s, i).contains(x) <==> (s.contains(x) || x == i),
    decreases s.len(),
{
    let r = spec_insert_idx(u, s, i);
    if s.len() == 0 {
        assert forall|x: int| r.contains(x) <==> (s.contains(x) || x == i) by {
            if r.contains(x) {
                let w = r.lemma_contains_to_index(x);
                assert(r[0] == i);
            }
            if x == i {
                assert(r[0] == x);
                assert(r.contains(x));
            }
        }
    } else if spec_before(u, s[0], i) {
        lemma_insert_idx_contains(u, s.drop_first(), i);
        let rec = spec_insert_idx(u, s.drop_first(), i);
        assert forall|x: int| r.contains(x) <==> (s.contains(x) || x == i) by {
            if r.contains(x) {
                let w = r.lemma_contains_to_index(x);
                if w == 0 {
                    assert(s[0] == x);
                    assert(s.contains(x));
                } else {
                    assert(rec[w - 1] == x);
                    assert(rec.contains(x));
                    if x != i {
                        let v = s.drop_first().lemma_contains_to_index(x);
                        assert(s[v + 1] == x);
                        assert(s.contains(x));
                    }
                }
            }
            if s.contains(x) {
                let w = s.lemma_contains_to_index(x);
                if w == 0 {
                    assert(r[0] == x);
                } else {
                    assert(s.drop_first()[w - 1] == x);
                    assert(s.drop_first().contains(x));
                    assert(rec.contains(x));
                    let v = rec.lemma_contains_to_index(x);
                    assert(r[v + 1] == x);
                }
                assert(r.contains(x));
            }
            if x == i {
                assert(spec_insert_idx(u, s.drop_first(), i).contains(x));
                let v = rec.lemma_contains_to_index(x);
                assert(r[v + 1] == x);
                assert(r.contains(x));
            }
        }
    } else {
        assert forall|x: int| r.contains(x) <==> (s.contains(x) || x == i) by {
            if r.contains(x) {
                let w = r.lemma_contains_to_index(x);
                if w != 0 {
                    assert(s[w - 1] == x);
                    assert(s.contains(x));
                }
            }
            if s.contains(x) {
                let w = s.lemma_contains_to_index(x);
                assert(r[w + 1] == x);
                assert(r.contains(x));
            }
            if x == i {
                assert(r[0] == x);
                assert(r.contains(x));
            }
        }
    }
}

/// Inserting a fresh position keeps the list sorted.
proof fn lemma_insert_idx_sorted(u: Seq<UtxoModel>, s: Seq<int>, i: int)
    requires
        forall|a: int, b: int| 0 <= a < b < s.len() ==> spec_before(u, s[a], s[b]),
        forall|a: int| 0 <= a < s.len() ==> s[a] != i,
    ensures
        forall|a: int, b: int|
            0 <= a < b < spec_insert_idx(u, s, i).len() ==> spec_before(
                u,
                spec_insert_idx(u, s, i)[a],
                spec_insert_idx(u, s, i)[b],
            ),
    decreases s.len(),
{
    let r = spec_insert_idx(u, s, i);
    if s.len() == 0 {
    } else if spec_before(u, s[0], i) {
        assert(forall|a: int, b: int|
            0 <= a < b < s.drop_first().len() ==> spec_before(
                u,
                s.drop_first()[a],
                s.drop_first()[b],
            ));
        lemma_insert_idx_sorted(u, s.drop_first(), i);
        let rec = spec_insert_idx(u, s.drop_first(), i);
        lemma_insert_idx_contains(u, s.drop_first(), i);
        assert forall|a: int, b: int| 0 <= a < b < r.len() implies spec_before(u, r[a], r[b]) by {
            if a == 0 {
                assert(r[0] == s[0]);
                assert(r[b] == rec[b - 1]);
                assert(rec.contains(rec[b - 1]));
                if rec[b - 1] == i {
                } else {
                    assert(s.drop_first().contains(rec[b - 1]));
                    let v = s.drop_first().lemma_contains_to_index(rec[b - 1]);
                    assert(s[v + 1] == rec[b - 1]);
                    assert(spec_before(u, s[0], s[v + 1]));
                }
            } else {
                assert(r[a] == rec[a - 1]);
                assert(r[b] == rec[b - 1]);
            }
        }
    } else {
        assert(!spec_before(u, s[0], i));
        assert(spec_before(u, i, s[0]));
        assert forall|a: int, b: int| 0 <= a < b < r.len() implies spec_before(u, r[a], r[b]) by {
            if a == 0 {
                assert(r[0] == i);
                assert(r[b] == s[b - 1]);
                if b > 1 {
                    assert(spec_before(u, s[0], s[b - 1]));
                }
            } else {
                assert(r[a] == s[a - 1]);
                assert(r[b] == s[b - 1]);
            }
        }
    }
}

/// The sorted order is a permutation of the positions, sorted by
/// descending value with ties kept in the original order.
pub proof fn lemma_sort_idx_props(u: Seq<UtxoModel>, n: nat)
    requires
        n <= u.len(),
    ensures
        spec_sort_idx_upto(u, n).len() == n,
        forall|x: int|
            #![trigger spec_sort_idx_upto(u, n).contains(x)]
            spec_sort_idx_upto(u, n).contains(x) <==> 0 <= x < n,
        forall|a: int, b: int|
            0 <= a < b < n ==> spec_before(
                u,
                spec_sort_idx_upto(u, n)[a],
                spec_sort_idx_upto(u, n)[b],
            ),
    decreases n,
{
    if n != 0 {
        lemma_sort_idx_props(u, (n - 1) as nat);
        let prev = spec_sort_idx_upto(u, (n - 1) as nat);
        assert(forall|a: int| 0 <= a < prev.len() ==> prev.contains(#[trigger] prev[a]));
        assert(forall|a: int| 0 <= a < prev.len() ==> #[trigger] prev[a] != n - 1);
        lemma_insert_idx_contains(u, prev, n - 1);
        lemma_insert_idx_sorted(u, prev, n - 1);
        let cur = spec_sort_idx_upto(u, n);
        assert(cur == spec_insert_idx(u, prev, n - 1));
        assert forall|x: int| cur.contains(x) <==> 0 <= x < n by {
            assert(spec_insert_idx(u, prev, n - 1).contains(x) <==> (prev.contains(x) || x == n
                - 1));
            assert(prev.contains(x) <==> 0 <= x < n - 1);
        }
        assert forall|a: int, b: int| 0 <= a < b < n implies spec_before(u, cur[a], cur[b]) by {
            assert(spec_before(
                u,
                spec_insert_idx(u, prev, n - 1)[a],
                spec_insert_idx(u, prev, n - 1)[b],
            ));
        }
    }
}

/// When the scan that found position `p` respected the order, inserting
/// there is what the specification-level insertion does.
proof fn lemma_insert_idx_at(u: Seq<UtxoModel>, s: Seq<int>, i: int, p: int)
    requires
        0 <= p <= s.len(),
        forall|a: int| 0 <= a < p ==> spec_before(u, s[a], i),
        p < s.len() ==> !spec_before(u, s[p], i),
    ensures
        spec_insert_idx(u, s, i) == s.insert(p, i),
    decreases s.len(),
{
    if p == 0 {
        if s.len() == 0 {
            assert(seq![i] =~= s.insert(0, i));
        } else {
            assert(!spec_before(u, s[0], i));
            assert(seq![i] + s =~= s.insert(0, i));
        }
    } else {
        assert(spec_before(u, s[0], i));
        assert(forall|a: int| 0 <= a < p - 1 ==> spec_before(u, s.drop_first()[a], i));
        lemma_insert_idx_at(u, s.drop_first(), i, p - 1);
        assert(seq![s[0]] + s.drop_first().insert(p - 1, i) =~= s.insert(p, i));
    }
}

/// Sorts the positions of the candidates by descending value, stable.
#[verifier::loop_isolation(false)]
pub fn sort_positions(utxos: &Vec<Utxo>) -> (idx: Vec<usize>)
    ensures
        idx@.map_values(|x: usize| x as int) == spec_sort_idx(spec_models(utxos@)),
        idx@.len() == utxos@.len(),
        forall|a: int| 0 <= a < idx@.len() ==> (#[trigger] idx@[a]) < utxos@.len(),
{
    let ghost u = spec_models(utxos@);
    let mut idx: Vec<usize> = Vec::new();
    let mut i: usize = 0;
    while i < utxos.len()
        invariant
            i <= utxos.len(),
            idx@.len() == i,
            idx@.map_values(|x: usize| x as int) == spec_sort_idx_upto(u, i as nat),
            forall|a: int| 0 <= a < idx@.len() ==> (#[trigger] idx@[a]) < i,
        decreases utxos.len() - i,
    {
        let ghost m = idx@.map_values(|x: usize| x as int);
        let mut p: usize = 0;
        while p < idx.len() && utxos[idx[p]].value >= utxos[i].value
            invariant
                p <= idx@.len(),
                forall|a: int| 0 <= a < p ==> spec_before(u, m[a], i as int),
            decreases idx@.len() - p,
        {
            proof {
                assert(m[p as int] == idx@[p as int] as int);
                assert(u[m[p as int]] == utxos@[idx@[p as int] as int]@);
            }
            p = p + 1;
        }
        proof {
            if p < idx.len() {
                assert(m[p as int] == idx@[p as int] as int);
                assert(u[m[p as int]] == utxos@[idx@[p as int] as int]@);
                assert(!spec_before(u, m[p as int], i as int));
            }
            lemma_insert_idx_at(u, m, i as int, p as int);
        }
        idx.insert(p, i);
        proof {
            assert(idx@.map_values(|x: usize| x as int) =~= m.insert(p as int, i as int));
            assert(idx@.map_values(|x: usize| x as int) == spec_sort_idx_upto(u, (i + 1) as nat));
        }
        i = i + 1;
    }
    proof {
        lemma_sort_idx_props(u, u.len());
        assert(utxos@.len() == u.len());
    }
    idx
}

/// Whether an accumulated value covers the target plus the estimated fee
/// for `k` inputs and two outputs.
fn feasible_at(acc: u64, k: u64, target: u64, rate: u64) -> (b: bool)
    ensures
        b == (acc >= target + spec_fee(k as int, 2, rate as int)),
{
    match estimated_fee(k, 2, rate) {
        Some(f) => match target.checked_add(f) {
            Some(need) => acc >= need,
            None => false,
        },
        None => false,
    }
}

/// A funded selection: the chosen outputs, their total value, the fee that
/// will be paid and the change to return.
pub struct Selection {
    /// The chosen outputs, highest value first.
    pub chosen: Vec<Utxo>,
    /// Total value of the chosen outputs, in satoshi.
    pub total: u64,
    /// Fee that the spend will pay, in satoshi.
    pub fee: u64,
    /// Change returned to the caller's address; zero when folded into the
    /// fee as dust.
    pub change: u64,
}

/// Whether the first `k` outputs of the sorted candidates cover the target
/// plus the estimated fee for a transaction with `k` inputs and two
/// outputs.
pub open spec fn spec_prefix_feasible(u: Seq<UtxoModel>, target: u64, rate: u64, k: int) -> bool {
    spec_values_sum(spec_sorted_utxos(u).take(k)) >= target + spec_fee(k, 2, rate as int)
}

/// Greedy coin selection over the candidates sorted by descending value:
/// the shortest feasible prefix, or `InsufficientFunds` when none is.
#[verifier::loop_isolation(false)]
pub fn select_utxos(utxos: &Vec<Utxo>, target: u64, fee_rate: u64) -> (r: Result<
    Selection,
    WalletError,
>)
    requires
        spec_values_sum(spec_models(utxos@)) <= u64::MAX,
    ensures
        match r {
            Ok(sel) => {
                let u = spec_models(utxos@);
                let k = sel.chosen@.len() as int;
                &&& k <= u.len()
                &&& spec_models(sel.chosen@) == spec_sorted_utxos(u).take(k)
                &&& spec_prefix_feasible(u, target, fee_rate, k)
                &&& forall|j: int| 0 <= j < k ==> !spec_prefix_feasible(u, target, fee_rate, j)
                &&& sel.total == spec_values_sum(spec_sorted_utxos(u).take(k))
                &&& sel.total == target + sel.fee + sel.change
                &&& {
                    let raw = sel.total - target - spec_fee(k, 2, fee_rate as int);
                    if raw >= DUST_THRESHOLD {
                        sel.change == raw && sel.fee == spec_fee(k, 2, fee_rate as int)
                    } else {
                        sel.change == 0 && sel.fee == sel.total - target
                    }
                }
            },
            Err(e) => {
                let u = spec_models(utxos@);
                &&& e == WalletError::InsufficientFunds
                &&& forall|k: int|
                    0 <= k <= u.len() ==> !spec_prefix_feasible(u, target, fee_rate, k)
            },
        },
{
    let ghost u = spec_models(utxos@);
    let n = utxos.len();
    let idx = sort_positions(utxos);
    let ghost sorted = spec_sorted_utxos(u);
    proof {
        lemma_sort_idx_props(u, u.len());
        assert(sorted.len() == u.len());
        lemma_sorted_sum(u, u.len());
        assert(u.take(u.len() as int) =~= u);
    }
    let mut chosen: Vec<Utxo> = Vec::new();
    let mut acc: u64 = 0;
    let mut k: usize = 0;
    proof {
        assert(sorted.take(0) =~= Seq::<UtxoModel>::empty());
        assert(spec_models(chosen@) =~= Seq::<UtxoModel>::empty());
    }
    loop
        invariant
            k <= n,
            chosen@.len() == k,
            spec_models(chosen@) == sorted.take(k as int),
            acc == spec_values_sum(sorted.take(k as int)),
            forall|j: int| 0 <= j < k ==> !spec_prefix_feasible(u, target, fee_rate, j),
        decreases n - k,
    {
        proof {
            lemma_sum_take_le(sorted, k as int);
            lemma_sum_nonneg(sorted.take(k as int));
        }
        if feasible_at(acc, k as u64, target, fee_rate) {
            let fee_est = match estimated_fee(k as u64, 2, fee_rate) {
                Some(f) => f,
                None => {
                    proof {
                        assert(false);
                    }
                    0
                },
            };
            let need = target + fee_est;
            let raw = acc - need;
            if raw >= DUST_THRESHOLD {
                return Ok(Selection { chosen, total: acc, fee: fee_est, change: raw });
            } else {
                return Ok(Selection { chosen, total: acc, fee: acc - target, change: 0 });
            }
        }
        if k == n {
            return Err(WalletError::InsufficientFunds);
        }
        let pos = idx[k];
        let picked = utxos[pos].clone();
        proof {
            assert(idx@.map_values(|x: usize| x as int)[k as int] == spec_sort_idx(u)[k as int]);
            assert(spec_sort_idx(u)[k as int] == pos as int);
            assert(sorted[k as int] == u[pos as int]);
            assert(u[pos as int] == utxos@[pos as int]@);
            assert(picked@ == sorted[k as int]);
            assert(sorted.take(k + 1) =~= sorted.take(k as int) + seq![sorted[k as int]]);
            lemma_sum_concat(sorted.take(k as int), seq![sorted[k as int]]);
            lemma_sum_singleton(sorted[k as int]);
            lemma_sum_take_le(sorted, k + 1);
        }
        acc = acc + picked.value;
        chosen.push(picked);
        k = k + 1;
        proof {
            assert(spec_models(chosen@) =~= sorted.take(k as int));
        }
    }
}

} // verus!
