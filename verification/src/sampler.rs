//! Dataset sampler: selects a reproducible random subset of a table's rows,
//! without replacement, of size `floor(rows * num / den)`, driven by an
//! explicit seed. The draw is a pure function of `(rows, fraction, seed)`, so
//! the same inputs always select the same rows.

use vstd::prelude::*;
use crate::table::{Column, Table, TableModel};
use vstd::arithmetic::div_mod::{group_mod_properties, lemma_div_is_ordered, lemma_div_multiples_vanish};

verus! {

/// Multiplier of the linear congruential generator.
pub const LCG_MULT: u64 = 1664525;

/// Increment of the linear congruential generator.
pub const LCG_INC: u64 = 1013904223;

/// Modulus of the linear congruential generator (2^32).
pub const LCG_MOD: u64 = 0x1_0000_0000;

/// One step of the seeded pseudo-random generator.
pub open spec fn lcg_next(s: int) -> int {
    (s * LCG_MULT + LCG_INC) % (LCG_MOD as int)
}

/// The state after `k` steps of a partial Fisher-Yates shuffle of the
/// identity permutation of `0..r`, paired with the generator state: step
/// `i` swaps position `i` with a pseudo-randomly chosen position in `i..r`.
#[verifier::opaque]
pub open spec fn shuffle(r: int, s0: int, k: nat) -> (Seq<int>, int)
    decreases k,
{
    if k == 0 {
        (Seq::new(r as nat, |i: int| i), s0)
    } else {
        let (prev, s) = shuffle(r, s0, (k - 1) as nat);
        let s2 = lcg_next(s);
        let i = k - 1;
        let j = i + s2 % (r - i);
        (prev.update(i as int, prev[j]).update(j, prev[i as int]), s2)
    }
}

/// The row indices that a draw with the given seed selects: the first `n`
/// entries of the shuffled identity permutation of `0..r`.
pub open spec fn selection(r: int, seed: int, n: nat) -> Seq<int> {
    shuffle(r, seed % (LCG_MOD as int), n).0.take(n as int)
}

/// The number of rows a sample keeps: `floor(rows * num / den)`.
pub open spec fn sample_size(rows: int, num: int, den: int) -> int {
    rows * num / den
}

/// The sampled table: the same columns under the same names, each keeping
/// exactly the cells of the selected rows, in selection order.
pub open spec fn sampled_model(t: TableModel, num: int, den: int, seed: int) -> TableModel {
    let n = sample_size(t.rows() as int, num, den);
    let sel = selection(t.rows() as int, seed, n as nat);
    TableModel {
        cols: Seq::new(
            t.cols.len(),
            |c: int| (t.cols[c].0, Seq::new(n as nat, |p: int| t.cols[c].1[sel[p]])),
        ),
    }
}

/// After any number of steps the shuffle is a permutation of `0..r`: it has
/// length `r`, every entry is a row index, no entry repeats, and the
/// generator state stays below the modulus.
pub proof fn lemma_shuffle_wf(r: int, s0: int, k: nat)
    requires
        k <= r,
        0 <= s0 < LCG_MOD,
    ensures
        shuffle(r, s0, k).0.len() == r,
        0 <= shuffle(r, s0, k).1 < LCG_MOD,
        forall|p: int| 0 <= p < r ==> 0 <= #[trigger] shuffle(r, s0, k).0[p] < r,
        forall|p: int, q: int|
            0 <= p < q < r ==> #[trigger] shuffle(r, s0, k).0[p] != #[trigger] shuffle(r, s0, k).0[q],
    decreases k,
{
    broadcast use group_mod_properties;

    reveal_with_fuel(shuffle, 1);
    if k == 0 {
    } else {
        lemma_shuffle_wf(r, s0, (k - 1) as nat);
        let (prev, s) = shuffle(r, s0, (k - 1) as nat);
        let s2 = lcg_next(s);
        let i = k - 1;
        let j = i + s2 % (r - i);
        assert(0 <= s2 < LCG_MOD);
        assert(0 <= s2 % (r - i) < r - i);
        assert(0 <= i <= j < r);
        let cur = shuffle(r, s0, k).0;
        assert(cur == prev.update(i as int, prev[j]).update(j, prev[i as int]));
        assert forall|p: int, q: int| 0 <= p < q < r implies #[trigger] cur[p] != #[trigger] cur[q] by {
            assert(prev[p] != prev[q]);
            assert(0 <= prev[i as int] < r && 0 <= prev[j] < r);
        }
    }
}

/// The selection is a draw without replacement: `n` pairwise distinct row
/// indices of `0..r`, a pure function of `(r, seed, n)`.
pub proof fn lemma_selection_wf(r: int, seed: int, n: nat)
    requires
        n <= r,
    ensures
        selection(r, seed, n).len() == n,
        forall|p: int| 0 <= p < n ==> 0 <= #[trigger] selection(r, seed, n)[p] < r,
        forall|p: int, q: int|
            0 <= p < q < n ==> #[trigger] selection(r, seed, n)[p] != #[trigger] selection(r, seed, n)[q],
{
    broadcast use group_mod_properties;

    let s0 = seed % (LCG_MOD as int);
    assert(0 <= s0 < LCG_MOD);
    lemma_shuffle_wf(r, s0, n);
}

/// Shuffle the identity permutation of `0..r` for `n` steps, reproducibly
/// from the seed.
#[verifier::loop_isolation(false)]
#[verifier::rlimit(100)]
fn shuffle_prefix(r: usize, n: usize, seed: u64) -> (idx: Vec<usize>)
    requires
        n <= r,
    ensures
        idx@.len() == r,
        forall|p: int| 0 <= p < r ==> (#[trigger] idx@[p]) as int
            == shuffle(r as int, (seed as int) % (LCG_MOD as int), n as nat).0[p],
{
    let mut idx: Vec<usize> = Vec::new();
    let mut i: usize = 0;
    while i < r
        invariant
            i <= r,
            idx@.len() == i,
            forall|p: int| 0 <= p < i ==> #[trigger] idx@[p] == p,
        decreases r - i,
    {
        idx.push(i);
        i += 1;
    }
    let mut state: u64 = seed % 0x1_0000_0000;
    let ghost s0 = state as int;
    proof {
        reveal_with_fuel(shuffle, 1);
        assert(s0 == (seed as int) % (LCG_MOD as int));
        assert(0 <= s0 < LCG_MOD);
        assert(shuffle(r as int, s0, 0).1 == s0);
        assert(forall|p: int| 0 <= p < r ==> #[trigger] (idx@[p] as int) == shuffle(r as int, s0, 0).0[p]);
    }
    let mut k: usize = 0;
    while k < n
        invariant
            k <= n,
            idx@.len() == r,
            state as int == shuffle(r as int, s0, k as nat).1,
            0 <= s0 < LCG_MOD,
            state < LCG_MOD,
            forall|p: int| 0 <= p < r ==> #[trigger] (idx@[p] as int) == shuffle(r as int, s0, k as nat).0[p],
        decreases n - k,
    {
        proof {
            lemma_shuffle_wf(r as int, s0, k as nat);
        }
        let state2: u64 = (state * LCG_MULT + LCG_INC) % 0x1_0000_0000;
        let rem: usize = r - k;
        let off: usize = (state2 % (rem as u64)) as usize;
        let j: usize = k + off;
        proof {
            assert(state2 as int == lcg_next(state as int));
            assert(off < rem);
        }
        let a = idx[k];
        let b = idx[j];
        idx.set(k, b);
        idx.set(j, a);
        proof {
            reveal_with_fuel(shuffle, 1);
            let prev = shuffle(r as int, s0, k as nat).0;
            let cur = shuffle(r as int, s0, (k + 1) as nat).0;
            assert(cur == prev.update(k as int, prev[j as int]).update(j as int, prev[k as int]));
            assert(shuffle(r as int, s0, (k + 1) as nat).1 == lcg_next(shuffle(r as int, s0, k as nat).1));
            assert forall|p: int| 0 <= p < r implies #[trigger] (idx@[p] as int) == cur[p] by {
                if p == j as int {
                    assert(idx@[p] == a);
                } else if p == k as int {
                    assert(idx@[p] == b);
                }
            }
        }
        state = state2;
        k += 1;
    }
    idx
}

/// The first `n` entries of the shuffled permutation are the selection: `n`
/// pairwise distinct row indices of `0..r`.
#[verifier::rlimit(100)]
proof fn lemma_selection_from_shuffle(vperm: Seq<usize>, vidx: Seq<usize>, r: int, seed: int, n: nat)
    requires
        n <= r,
        vperm.len() == r,
        vidx.len() == n,
        forall|p: int| 0 <= p < r ==> (#[trigger] vperm[p]) as int
            == shuffle(r, seed % (LCG_MOD as int), n).0[p],
        forall|q: int| 0 <= q < n ==> #[trigger] vidx[q] == vperm[q],
    ensures
        forall|p: int| 0 <= p < n ==> (#[trigger] vidx[p]) as int == selection(r, seed, n)[p],
        forall|p: int| 0 <= p < n ==> (#[trigger] vidx[p]) < r,
        forall|p: int, q: int| 0 <= p < q < n ==> vidx[p] != vidx[q],
{
    broadcast use group_mod_properties;

    lemma_selection_wf(r, seed, n);
    lemma_shuffle_wf(r, seed % (LCG_MOD as int), n);
    assert forall|p: int| 0 <= p < n implies (#[trigger] vidx[p]) as int == selection(r, seed, n)[p] by {
        assert(vidx[p] == vperm[p]);
        assert(selection(r, seed, n)[p] == shuffle(r, seed % (LCG_MOD as int), n).0[p]);
    }
    assert forall|p: int| 0 <= p < n implies (#[trigger] vidx[p]) < r by {
        assert(vidx[p] as int == selection(r, seed, n)[p]);
        assert(0 <= selection(r, seed, n)[p] < r);
    }
    assert forall|p: int, q: int| 0 <= p < q < n implies vidx[p] != vidx[q] by {
        assert(vidx[p] as int == selection(r, seed, n)[p]);
        assert(vidx[q] as int == selection(r, seed, n)[q]);
        assert(selection(r, seed, n)[p] != selection(r, seed, n)[q]);
    }
}

/// Select `n` pairwise distinct row indices of `0..r`, reproducibly from the
/// seed.
#[verifier::loop_isolation(false)]
pub fn sample_indices(r: usize, n: usize, seed: u64) -> (idx: Vec<usize>)
    requires
        n <= r,
    ensures
        idx@.len() == n,
        forall|p: int| 0 <= p < n ==> (#[trigger] idx@[p]) as int == selection(r as int, seed as int, n as nat)[p],
        forall|p: int| 0 <= p < n ==> (#[trigger] idx@[p]) < r,
        forall|p: int, q: int| 0 <= p < q < n ==> idx@[p] != idx@[q],
{
    let perm = shuffle_prefix(r, n, seed);
    let mut idx: Vec<usize> = Vec::new();
    let mut p: usize = 0;
    while p < n
        invariant
            p <= n,
            idx@.len() == p,
            forall|q: int| 0 <= q < p ==> #[trigger] idx@[q] == perm@[q],
        decreases n - p,
    {
        let v = perm[p];
        idx.push(v);
        p += 1;
    }
    proof {
        lemma_selection_from_shuffle(perm@, idx@, r as int, seed as int, n as nat);
    }
    idx
}

/// Draw a reproducible sample of `floor(rows * num / den)` rows, without
/// replacement: same columns, same names, cells taken from the selected rows
/// in selection order. The result is a pure function of the table, the
/// fraction and the seed.
#[verifier::loop_isolation(false)]
pub fn sample(table: &Table, num: usize, den: usize, seed: u64) -> (out: Table)
    requires
        table@.wf(),
        0 < num <= den,
        table@.rows() * num <= usize::MAX,
    ensures
        out@.wf(),
        out@ == sampled_model(table@, num as int, den as int, seed as int),
        out@.width() == table@.width(),
        out@.rows() == sample_size(table@.rows() as int, num as int, den as int),
{
    let rows = table.rows();
    let n = (rows * num) / den;
    proof {
        let ri = rows as int;
        let ni = num as int;
        let di = den as int;
        assert(ri * ni <= ri * di) by (nonlinear_arith)
            requires
                ni <= di,
                ri >= 0,
        ;
        lemma_div_is_ordered(ri * ni, ri * di, di);
        lemma_div_multiples_vanish(ri, di);
        assert(ri * di == di * ri) by (nonlinear_arith);
        assert(n <= rows);
        lemma_selection_wf(ri, seed as int, n as nat);
    }
    let ghost sel = selection(rows as int, seed as int, n as nat);
    let ghost model = sampled_model(table@, num as int, den as int, seed as int);
    let idx = sample_indices(rows, n, seed);
    let width = table.width();
    let mut cols: Vec<Column> = Vec::new();
    let mut c: usize = 0;
    while c < width
        invariant
            c <= width,
            cols@.len() == c,
            forall|i: int| 0 <= i < c ==> #[trigger] cols@[i].name@ == table@.cols[i].0,
            forall|i: int| 0 <= i < c ==> #[trigger] cols@[i].cells@ == model.cols[i].1,
        decreases width - c,
    {
        let mut cells: Vec<u64> = Vec::new();
        let mut p: usize = 0;
        while p < n
            invariant
                p <= n,
                cells@.len() == p,
                c < width,
                forall|q: int| 0 <= q < p ==> #[trigger] cells@[q] == table@.cell(c as int, sel[q]),
            decreases n - p,
        {
            let v = table.cell_at(c, idx[p]);
            cells.push(v);
            p += 1;
        }
        proof {
            assert(cells@ =~= model.cols[c as int].1);
        }
        let name = table.name_at(c).clone();
        cols.push(Column { name, cells });
        c += 1;
    }
    let out = Table { cols };
    proof {
        assert forall|i: int| 0 <= i < width implies out@.cols[i] == model.cols[i] by {
            assert(out@.cols[i].0 =~= model.cols[i].0);
            assert(out@.cols[i].1 == model.cols[i].1);
        }
        assert(out@.cols =~= model.cols);
        assert(out@ == model);
        assert forall|i: int| 0 <= i < out@.cols.len() implies (#[trigger] out@.cols[i].1.len()) == out@.rows() by {
            assert(out@.cols[i].1.len() == n);
        }
        assert(out@.wf());
        assert(out@.rows() == sample_size(table@.rows() as int, num as int, den as int));
    }
    out
}

/// Determinism law: the sampled table is a pure function of the table, the
/// fraction and the seed, so two draws over equal inputs select identical
/// rows — `sample` ensures its result's model is exactly `sampled_model` of
/// its inputs.
pub proof fn lemma_sample_deterministic(
    t1: TableModel,
    t2: TableModel,
    num: int,
    den: int,
    seed: int,
    o1: TableModel,
    o2: TableModel,
)
    requires
        t1 == t2,
        o1 == sampled_model(t1, num, den, seed),
        o2 == sampled_model(t2, num, den, seed),
    ensures
        o1 == o2,
{
}

} // verus!
