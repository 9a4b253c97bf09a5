use vstd::prelude::*;

use crate::text::{concat, padded_decimal, zero_padded};

verus! {

/// Most frames dumped for one reel.
pub const DUMP_LIMIT: u32 = 3000;
/// Least time between two dumped frames, in nanoseconds.
pub const DUMP_INTERVAL_NS: u128 = 100_000_000;
/// Most snapshots taken for one reel.
pub const SNAPSHOT_LIMIT: u32 = 12;
/// Most reels kept in the trace index.
pub const INDEX_LIMIT: usize = 500;

/// A frame may be dumped while under the limit and at least the dump
/// interval after the previous dump.
pub fn dump_allowed(dumped: u32, since_last_dump_ns: Option<u128>) -> (b: bool)
    ensures
        b == (dumped < 3000 && match since_last_dump_ns {
            Some(t) => t >= 100_000_000,
            None => true,
        }),
{
    if dumped >= DUMP_LIMIT {
        return false;
    }
    match since_last_dump_ns {
        Some(t) => t >= DUMP_INTERVAL_NS,
        None => true,
    }
}

/// A snapshot may be taken while under the limit.
pub fn snapshot_allowed(snapshots: u32) -> (b: bool)
    ensures
        b == (snapshots < 12),
{
    snapshots < SNAPSHOT_LIMIT
}

/// File name of dumped frame number `n`: five digits and `.png`.
pub fn dump_file_name(n: u64) -> (s: String)
    ensures
        s@ == padded_decimal(n as nat, 5) + ".png"@,
{
    concat(zero_padded(n, 5).as_str(), ".png")
}

/// File name of snapshot `n` taken under `tag`.
pub fn snapshot_file_name(tag: &str, n: u32) -> (s: String)
    ensures
        s@ == tag@ + "-"@ + padded_decimal(n as nat, 2) + ".png"@,
{
    let a = concat(tag, "-");
    let b = concat(a.as_str(), zero_padded(n as u64, 2).as_str());
    concat(b.as_str(), ".png")
}

/// Drops the oldest entries so that at most `cap` remain.
pub fn keep_last<T>(list: &mut Vec<T>, cap: usize)
    ensures
        final(list)@ == (if old(list)@.len() > cap {
            old(list)@.subrange(old(list)@.len() - cap, old(list)@.len() as int)
        } else {
            old(list)@
        }),
{
    if list.len() > cap {
        let drop = list.len() - cap;
        let tail = list.split_off(drop);
        *list = tail;
    }
}

} // verus!
