use vstd::prelude::*;

verus! {

/// `n / d` rounded up.
pub open spec fn ceil_div(n: nat, d: nat) -> nat {
    if n % d == 0 {
        n / d
    } else {
        n / d + 1
    }
}

/// How many items each worker takes: one where there are fewer items than
/// cores, else `n / cores` rounded up.
pub open spec fn chunk_len(n: nat, cores: nat) -> nat {
    if n < cores {
        1
    } else {
        ceil_div(n, cores)
    }
}

pub open spec fn min_nat(a: nat, b: nat) -> nat {
    if a <= b {
        a
    } else {
        b
    }
}

/// The work of each worker: contiguous runs of `chunk_len` items, the last
/// one possibly shorter.
pub open spec fn partitioned<T>(items: Seq<T>, cores: nat) -> Seq<Seq<T>> {
    let n = items.len();
    let k = chunk_len(n, cores);
    Seq::new(
        ceil_div(n, k),
        |i: int| items.subrange(i * k, min_nat(((i + 1) * k) as nat, n) as int),
    )
}

/// All runs one after the other.
pub open spec fn joined<T>(runs: Seq<Seq<T>>) -> Seq<T>
    decreases runs.len(),
{
    if runs.len() == 0 {
        Seq::empty()
    } else {
        joined(runs.drop_last()) + runs.last()
    }
}

proof fn lemma_ceil_div_bounds(n: nat, k: nat)
    requires
        k > 0,
        n > 0,
    ensures
        ceil_div(n, k) >= 1,
        (ceil_div(n, k) - 1) * k < n,
        n <= ceil_div(n, k) * k,
{
    let q = n / k;
    let r = n % k;
    assert(n == q * k + r && 0 <= r < k) by (nonlinear_arith)
        requires
            k > 0,
            q == n / k,
            r == n % k,
    ;
    if r == 0 {
        assert(q >= 1) by (nonlinear_arith)
            requires
                n == q * k,
                n > 0,
                k > 0,
        ;
        assert((q - 1) * k < n) by (nonlinear_arith)
            requires
                n == q * k,
                k > 0,
                q >= 1,
        ;
    } else {
        assert((q + 1) * k == q * k + k) by (nonlinear_arith);
    }
}

/// Rounding up a quotient that is not exact stays within the range of `usize`.
proof fn lemma_ceil_fits(n: nat, d: nat)
    requires
        d >= 1,
        n % d != 0,
        n <= usize::MAX,
    ensures
        n / d + 1 <= usize::MAX,
{
    vstd::arithmetic::div_mod::lemma_fundamental_div_mod(n as int, d as int);
    assert(d != 1);
    let q = n / d;
    assert(q * 2 <= n) by (nonlinear_arith)
        requires
            n == d * q + n % d,
            n % d >= 0,
            d >= 2,
            q >= 0,
    ;
}

/// The only `m` with `(m - 1) * k < n <= m * k` is `n / k` rounded up.
proof fn lemma_ceil_div_unique(n: nat, k: nat, m: nat)
    requires
        k > 0,
        n > 0,
        m >= 1,
        (m - 1) * k < n,
        n <= m * k,
    ensures
        m == ceil_div(n, k),
{
    lemma_ceil_div_bounds(n, k);
    let c = ceil_div(n, k);
    if m < c {
        assert(m * k <= (c - 1) * k) by (nonlinear_arith)
            requires
                m <= c - 1,
                k > 0,
        ;
    } else if m > c {
        assert(c * k <= (m - 1) * k) by (nonlinear_arith)
            requires
                c <= m - 1,
                k > 0,
        ;
    }
}

/// Splits `items` among workers, at most `cores` of them: one item each where
/// there are fewer items than cores, else contiguous runs of `items.len() /
/// cores` rounded up, the last run possibly shorter.
pub fn partition<T>(items: Vec<T>, cores: usize) -> (r: Vec<Vec<T>>)
    requires
        cores >= 1,
    ensures
        r@.map_values(|v: Vec<T>| v@) == partitioned(items@, cores as nat),
{
    let n = items.len();
    proof {
        if n % cores != 0 {
            lemma_ceil_fits(n as nat, cores as nat);
        }
    }
    let k: usize = if n < cores {
        1
    } else if n % cores == 0 {
        n / cores
    } else {
        n / cores + 1
    };
    assert(k == chunk_len(n as nat, cores as nat));
    assert(k >= 1) by (nonlinear_arith)
        requires
            n >= cores ==> k >= n / cores,
            cores >= 1,
            n < cores ==> k == 1,
    ;
    proof {
        if n % k != 0 {
            lemma_ceil_fits(n as nat, k as nat);
        }
    }
    let m: usize = if n % k == 0 {
        n / k
    } else {
        n / k + 1
    };
    assert(m == ceil_div(n as nat, k as nat));
    let ghost whole = items@;
    let ghost runs = partitioned(whole, cores as nat);
    if n == 0 {
        let none: Vec<Vec<T>> = Vec::new();
        assert(none@.map_values(|v: Vec<T>| v@) =~= runs);
        return none;
    }
    proof {
        lemma_ceil_div_bounds(n as nat, k as nat);
    }
    let mut rest = items;
    let mut chunks: Vec<Vec<T>> = Vec::new();
    let mut start: usize = 0;
    let mut i: usize = 0;
    while i < m
        invariant
            n == whole.len(),
            k >= 1,
            m == ceil_div(n as nat, k as nat),
            k == chunk_len(n as nat, cores as nat),
            runs == partitioned(whole, cores as nat),
            (m - 1) * k < n,
            n <= m * k,
            i <= m,
            chunks@.len() == i,
            start == min_nat((i * k) as nat, n as nat),
            rest@ == whole.subrange(start as int, n as int),
            forall|j: int| 0 <= j < i ==> (#[trigger] chunks@[j])@ == runs[j],
        decreases m - i,
    {
        let take: usize = if rest.len() < k {
            rest.len()
        } else {
            k
        };
        let tail = rest.split_off(take);
        proof {
            assert((i + 1) * k == i * k + k) by (nonlinear_arith);
            assert(i * k <= (m - 1) * k) by (nonlinear_arith)
                requires
                    i <= m - 1,
            ;
        }
        chunks.push(rest);
        rest = tail;
        start = start + take;
        i = i + 1;
        proof {
            assert(chunks@[i - 1]@ == runs[i - 1]);
        }
    }
    assert(chunks@.map_values(|v: Vec<T>| v@) =~= runs);
    chunks
}

proof fn lemma_chunk_len_pos(n: nat, cores: nat)
    requires
        cores >= 1,
    ensures
        chunk_len(n, cores) >= 1,
{
    if n >= cores {
        lemma_ceil_div_bounds(n, cores);
    }
}

/// Runs `0..j` of a partition, read one after the other, are the items up to
/// where run `j` would start.
proof fn lemma_joined_prefix<T>(items: Seq<T>, cores: nat, j: nat)
    requires
        cores >= 1,
        j <= partitioned(items, cores).len(),
    ensures
        joined(partitioned(items, cores).take(j as int)) == items.take(
            min_nat(j * chunk_len(items.len(), cores), items.len()) as int,
        ),
    decreases j,
{
    let n = items.len();
    let k = chunk_len(n, cores);
    let runs = partitioned(items, cores);
    lemma_chunk_len_pos(n, cores);
    if j == 0 {
        assert(0 * k == 0);
        assert(runs.take(0) =~= Seq::<Seq<T>>::empty());
        assert(items.take(0) =~= Seq::<T>::empty());
    } else {
        lemma_joined_prefix(items, cores, (j - 1) as nat);
        assert(runs.take(j as int).drop_last() =~= runs.take(j - 1));
        assert(j * k == (j - 1) * k + k) by (nonlinear_arith);
        if n == 0 {
            assert(n % k == 0 && n / k == 0) by (nonlinear_arith)
                requires
                    n == 0,
                    k >= 1,
            ;
        }
        lemma_ceil_div_bounds(n, k);
        assert((j - 1) * k <= (ceil_div(n, k) - 1) * k) by (nonlinear_arith)
            requires
                j <= ceil_div(n, k),
                j >= 1,
        ;
        let lo = ((j - 1) * k) as int;
        let hi = min_nat(j * k, n) as int;
        assert(runs.take(j as int).last() == items.subrange(lo, hi));
        assert(items.take(lo) + items.subrange(lo, hi) =~= items.take(hi));
    }
}

/// How work is shared out: with fewer items than cores, one worker per item;
/// otherwise every worker but the last takes `n / cores` items rounded up and
/// the last at least one and at most that; and read one after the other the
/// workers' items are the input, each exactly once.
pub proof fn lemma_partition_shape<T>(items: Seq<T>, cores: nat)
    requires
        cores >= 1,
    ensures
        items.len() < cores ==> partitioned(items, cores).len() == items.len(),
        items.len() < cores ==> forall|i: int|
            0 <= i < items.len() ==> #[trigger] partitioned(items, cores)[i] == seq![items[i]],
        items.len() >= cores ==> forall|i: int|
            0 <= i < partitioned(items, cores).len() - 1 ==> (#[trigger] partitioned(
                items,
                cores,
            )[i]).len() == ceil_div(items.len(), cores),
        items.len() >= cores ==> 1 <= partitioned(items, cores).last().len() <= ceil_div(
            items.len(),
            cores,
        ),
        joined(partitioned(items, cores)) == items,
{
    let n = items.len();
    let k = chunk_len(n, cores);
    let runs = partitioned(items, cores);
    if n < cores {
        assert(k == 1);
        assert(n % 1 == 0 && n / 1 == n) by (nonlinear_arith);
        assert forall|i: int| 0 <= i < n implies #[trigger] runs[i] == seq![items[i]] by {
            assert(runs[i] =~= seq![items[i]]);
        }
    } else {
        lemma_ceil_div_bounds(n, cores);
        assert(k >= 1);
        lemma_ceil_div_bounds(n, k);
        let m = ceil_div(n, k);
        assert forall|i: int| 0 <= i < runs.len() - 1 implies (#[trigger] runs[i]).len() == k by {
            assert((i + 1) * k <= (m - 1) * k) by (nonlinear_arith)
                requires
                    i + 1 <= m - 1,
            ;
            assert((i + 1) * k == i * k + k) by (nonlinear_arith);
        }
        assert(m * k == (m - 1) * k + k) by (nonlinear_arith);
        assert(runs.last() == runs[m - 1]);
        assert(runs.last().len() == n - (m - 1) * k);
    }
    if n > 0 {
        lemma_ceil_div_bounds(n, k);
    } else {
        assert(n % k == 0 && n / k == 0) by (nonlinear_arith)
            requires
                n == 0,
                k >= 1,
        ;
    }
    lemma_joined_prefix(items, cores, runs.len());
    assert(runs.take(runs.len() as int) =~= runs);
    assert(items.take(n as int) =~= items);
}

/// With at least as many items as cores, there are exactly as many workers as
/// cores, except where the rounded-up share leaves the last cores idle (five
/// items on four cores take three workers of two, two and one): that is,
/// whenever `cores - 1` shares fall short of the items.
pub proof fn lemma_partition_worker_count<T>(items: Seq<T>, cores: nat)
    requires
        cores >= 1,
        items.len() >= cores,
        (cores - 1) * ceil_div(items.len(), cores) < items.len(),
    ensures
        partitioned(items, cores).len() == cores,
{
    let n = items.len();
    lemma_ceil_div_bounds(n, cores);
    let k = ceil_div(n, cores);
    assert(n <= cores * k) by (nonlinear_arith)
        requires
            n <= k * cores,
    ;
    lemma_ceil_div_unique(n, k, cores);
}

} // verus!
