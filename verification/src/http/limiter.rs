//! A concurrency budget split into shards.
//!
//! One counter shared by every worker becomes a hot spot, so the budget is split into
//! shards that workers prefer one each. The shards together hold the whole budget.

use vstd::prelude::*;

verus! {

/// How many shards there are at most.
pub const MAX_SHARDS: usize = 16;

/// The number of shards for a budget: one for each processor, but no more than the
/// budget has permits, and at least one.
pub open spec fn shard_count(total: int, parallelism: int) -> int {
    let n = if parallelism <= total {
        parallelism
    } else {
        total
    };
    if n < 1 {
        1
    } else if n > MAX_SHARDS {
        MAX_SHARDS as int
    } else {
        n
    }
}

/// The sum of the first `n` permits.
pub open spec fn permit_sum(shards: Seq<usize>, n: int) -> int
    decreases n,
{
    if n <= 0 {
        0
    } else {
        permit_sum(shards, n - 1) + shards[n - 1]
    }
}

/// A concurrency budget split into shards.
#[derive(Debug)]
pub struct ConcurrencyLimiter {
    pub shards: Vec<usize>,
}

/// The budget that a limiter is made for: at least one permit.
pub open spec fn budget(total_permits: usize) -> int {
    if total_permits < 1 {
        1
    } else {
        total_permits as int
    }
}

impl ConcurrencyLimiter {
    /// Splits a budget as evenly as it goes: the first shards get one permit more
    /// where it does not divide.
    pub fn new(total_permits: usize, parallelism: usize) -> (limiter: Self)
        ensures
            ({
                let total = budget(total_permits);
                let n = shard_count(total, parallelism as int);
                &&& limiter.shards@.len() == n
                &&& forall|i: int|
                    0 <= i < n ==> #[trigger] limiter.shards@[i] == total / n + (if i < total % n {
                        1int
                    } else {
                        0
                    })
            }),
    {
        let total: usize = if total_permits < 1 {
            1
        } else {
            total_permits
        };
        let wanted: usize = if parallelism <= total {
            parallelism
        } else {
            total
        };
        let count: usize = if wanted < 1 {
            1
        } else if wanted > MAX_SHARDS {
            MAX_SHARDS
        } else {
            wanted
        };
        let base: usize = total / count;
        let extra: usize = total % count;
        let mut shards: Vec<usize> = Vec::new();
        let mut i: usize = 0;
        while i < count
            invariant
                i <= count,
                count >= 1,
                shards@.len() == i,
                base == total / count,
                extra == total % count,
                forall|k: int|
                    0 <= k < i ==> #[trigger] shards@[k] == base + (if k < extra {
                        1int
                    } else {
                        0
                    }),
            decreases count - i,
        {
            proof {
                vstd::arithmetic::div_mod::lemma_fundamental_div_mod(total as int, count as int);
                assert(count * base >= base) by (nonlinear_arith)
                    requires
                        count >= 1,
                        base >= 0,
                ;
            }
            if i < extra {
                shards.push(base + 1);
            } else {
                shards.push(base);
            }
            i += 1;
        }
        ConcurrencyLimiter { shards }
    }

    /// The order in which a worker tries the shards: its own first, then the others
    /// in turn.
    pub fn sweep(&self, local: usize) -> (order: Vec<usize>)
        requires
            0 < self.shards@.len() <= MAX_SHARDS,
        ensures
            order@.len() == self.shards@.len(),
            forall|k: int|
                0 <= k < order@.len() ==> #[trigger] order@[k] == (local as int
                    % self.shards@.len() as int + k) % self.shards@.len() as int,
    {
        let n: usize = self.shards.len();
        let first: usize = local % n;
        let mut order: Vec<usize> = Vec::new();
        let mut k: usize = 0;
        while k < n
            invariant
                k <= n,
                0 < n <= MAX_SHARDS,
                n == self.shards@.len(),
                first == local % n,
                first < n,
                order@.len() == k,
                forall|j: int|
                    0 <= j < k ==> #[trigger] order@[j] == (local as int % n as int + j) % n as int,
            decreases n - k,
        {
            order.push((first + k) % n);
            k += 1;
        }
        order
    }
}

/// Splitting into shards loses no permit and adds none.
pub proof fn law_shards_hold_the_whole_budget(shards: Seq<usize>, total: int)
    requires
        total >= 1,
        shards.len() >= 1,
        forall|i: int|
            0 <= i < shards.len() ==> #[trigger] shards[i] == total / shards.len() as int + (if i
                < total % shards.len() as int {
                1int
            } else {
                0
            }),
    ensures
        permit_sum(shards, shards.len() as int) == total,
{
    let n = shards.len() as int;
    lemma_partial_sum(shards, total, n);
    vstd::arithmetic::div_mod::lemma_fundamental_div_mod(total, n);
    vstd::arithmetic::div_mod::lemma_mod_bound(total, n);
}

proof fn lemma_partial_sum(shards: Seq<usize>, total: int, k: int)
    requires
        total >= 1,
        shards.len() >= 1,
        0 <= k <= shards.len(),
        forall|i: int|
            0 <= i < shards.len() ==> #[trigger] shards[i] == total / shards.len() as int + (if i
                < total % shards.len() as int {
                1int
            } else {
                0
            }),
    ensures
        permit_sum(shards, k) == k * (total / shards.len() as int) + (if k < total
            % shards.len() as int {
            k
        } else {
            total % shards.len() as int
        }),
    decreases k,
{
    let n = shards.len() as int;
    vstd::arithmetic::div_mod::lemma_mod_bound(total, n);
    let b = total / n;
    if k > 0 {
        lemma_partial_sum(shards, total, k - 1);
        assert(k * b == (k - 1) * b + b) by (nonlinear_arith);
    } else {
        assert(0 * b == 0) by (nonlinear_arith);
    }
}

/// A sweep tries every shard exactly once.
pub proof fn law_sweep_tries_every_shard_once(n: int, local: int, order: Seq<usize>)
    requires
        n >= 1,
        0 <= local,
        order.len() == n,
        forall|k: int| 0 <= k < n ==> #[trigger] order[k] == (local % n + k) % n,
    ensures
        forall|i: int, j: int|
            0 <= i < j < n ==> #[trigger] order[i] != #[trigger] order[j],
        forall|k: int| 0 <= k < n ==> 0 <= #[trigger] order[k] < n,
{
    vstd::arithmetic::div_mod::lemma_mod_bound(local, n);
    let a = local % n;
    assert forall|k: int| 0 <= k < n implies #[trigger] order[k] == (if a + k < n {
        a + k
    } else {
        a + k - n
    }) by {
        if a + k < n {
            vstd::arithmetic::div_mod::lemma_small_mod((a + k) as nat, n as nat);
        } else {
            vstd::arithmetic::div_mod::lemma_mod_sub_multiples_vanish(a + k, n);
            vstd::arithmetic::div_mod::lemma_small_mod((a + k - n) as nat, n as nat);
        }
    }
}

/// Gives each worker its own shard in turn, the first time that it asks.
#[derive(Debug)]
pub struct ShardCounter {
    pub next: u64,
}

impl ShardCounter {
    /// The shard of a worker that may have one already. A new one takes the next
    /// number, and numbers start again after the largest.
    pub fn shard_index(&mut self, assigned: Option<u64>) -> (index: u64)
        ensures
            match assigned {
                Some(i) => index == i && *final(self) == *old(self),
                None => index == old(self).next && final(self).next == (if old(self).next
                    == u64::MAX {
                    0
                } else {
                    old(self).next + 1
                }),
            },
    {
        match assigned {
            Some(i) => i,
            None => {
                let index: u64 = self.next;
                if index == u64::MAX {
                    self.next = 0;
                } else {
                    self.next = index + 1;
                }
                index
            },
        }
    }
}

} // verus!
