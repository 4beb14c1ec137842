//! Scheduling rules of the probe engines: spawn batches, rate pacing and
//! payload sizing.

use vstd::prelude::*;

verus! {

/// Count-bounded runs spawn their tasks in batches of this size.
pub const BATCH_SIZE: usize = 100;

/// Largest payload a traffic probe sends at once.
pub const MAX_SEND_SIZE: usize = 65536;

/// The batches `[start, end)` that cover `0..count`, in order, each of
/// `BATCH_SIZE` tasks but the last.
pub open spec fn batch_spec(count: nat, k: int) -> (int, int) {
    (k * 100, if (k + 1) * 100 < count {
        (k + 1) * 100
    } else {
        count as int
    })
}

pub open spec fn batch_total(count: nat) -> int {
    (count as int + 99) / 100
}

/// Splits `count` tasks into spawn batches.
pub fn batch_bounds(count: usize) -> (r: Vec<(usize, usize)>)
    ensures
        r@.len() == batch_total(count as nat),
        forall|k: int|
            0 <= k < r@.len() ==> (#[trigger] r@[k]).0 == batch_spec(count as nat, k).0 && r@[k].1
                == batch_spec(count as nat, k).1,
{
    let mut out: Vec<(usize, usize)> = Vec::new();
    let total: usize = count / BATCH_SIZE + if count % BATCH_SIZE > 0 {
        1
    } else {
        0
    };
    assert(total == batch_total(count as nat));
    let mut k: usize = 0;
    while k < total
        invariant
            total == batch_total(count as nat),
            k <= total,
            out@.len() == k,
            forall|j: int|
                0 <= j < out@.len() ==> (#[trigger] out@[j]).0 == batch_spec(count as nat, j).0
                    && out@[j].1 == batch_spec(count as nat, j).1,
        decreases total - k,
    {
        assert(k * 100 < count);
        let start = k * BATCH_SIZE;
        let end = if count - start > BATCH_SIZE {
            start + BATCH_SIZE
        } else {
            count
        };
        out.push((start, end));
        k = k + 1;
    }
    out
}

/// Minimum time of one iteration of a rate-limited worker, in microseconds:
/// `concurrency / rate` seconds, so that all workers together make `rate`
/// requests per second. No pacing without a rate.
pub open spec fn pacing_spec(rate: Option<u64>, concurrency: nat) -> nat {
    match rate {
        Some(r) => if r == 0 {
            0
        } else {
            concurrency * 1_000_000 / (r as nat)
        },
        None => 0,
    }
}

pub fn pacing_interval_us(rate: Option<u64>, concurrency: usize) -> (r: u128)
    ensures
        r == pacing_spec(rate, concurrency as nat),
{
    match rate {
        Some(r) => if r == 0 {
            0
        } else {
            assert((concurrency as int) * 1_000_000 <= u128::MAX) by (nonlinear_arith)
                requires
                    concurrency <= 0xffff_ffff_ffff_ffffu64,
            ;
            (concurrency as u128) * 1_000_000 / (r as u128)
        },
        None => 0,
    }
}

/// Payload of a traffic probe: `size` bytes of `'A'`, at most 64 KiB.
pub fn get_send_data(size: usize) -> (r: Vec<u8>)
    ensures
        r@.len() == if size > MAX_SEND_SIZE {
            MAX_SEND_SIZE
        } else {
            size
        },
        forall|i: int| 0 <= i < r@.len() ==> #[trigger] r@[i] == 0x41u8,
{
    let n = if size > MAX_SEND_SIZE {
        MAX_SEND_SIZE
    } else {
        size
    };
    let mut v: Vec<u8> = Vec::with_capacity(n);
    let mut i: usize = 0;
    while i < n
        invariant
            i <= n,
            v@.len() == i,
            forall|k: int| 0 <= k < i ==> #[trigger] v@[k] == 0x41u8,
        decreases n - i,
    {
        v.push(0x41);
        i = i + 1;
    }
    v
}

/// Bytes an echo probe reads back: what it sent, capped like the payload.
pub fn echo_buffer_size(size: usize) -> (r: usize)
    ensures
        r == if size > MAX_SEND_SIZE {
            MAX_SEND_SIZE
        } else {
            size
        },
{
    if size > MAX_SEND_SIZE {
        MAX_SEND_SIZE
    } else {
        size
    }
}

} // verus!
