//! Splitting the account pool among the legs: each leg takes the entries that
//! follow those of the leg before it.

use crate::error::MyErrorCode;
use vstd::prelude::*;

verus! {

/// A run of pool entries: those at `start` up to, not including, `end`.
#[derive(Clone, Copy, Debug, PartialEq, Eq)]
pub struct AccountRange {
    pub start: usize,
    pub end: usize,
}

/// How many pool entries the first `legs` counts take together.
pub open spec fn consumed(counts: Seq<u8>, legs: int) -> int
    decreases legs,
{
    if legs <= 0 {
        0
    } else {
        consumed(counts, legs - 1) + counts[legs - 1]
    }
}

/// The range of a leg that starts at `offset` and needs `accounts_needed`
/// entries of a pool of `pool_len`.
pub open spec fn leg_range_spec(offset: int, accounts_needed: u8, pool_len: int) -> Result<
    (int, int),
    MyErrorCode,
> {
    if offset + accounts_needed <= pool_len {
        Ok((offset, offset + accounts_needed))
    } else {
        Err(MyErrorCode::InsufficientAccounts)
    }
}

/// The range of one leg, checked against the pool before anything is taken
/// from it.
pub fn leg_range(offset: usize, accounts_needed: u8, pool_len: usize) -> (r: Result<
    AccountRange,
    MyErrorCode,
>)
    ensures
        match leg_range_spec(offset as int, accounts_needed, pool_len as int) {
            Ok((start, end)) => r matches Ok(range) && range.start == start && range.end == end,
            Err(error) => r == Err::<AccountRange, MyErrorCode>(error),
        },
{
    let needed: usize = accounts_needed as usize;
    if offset <= pool_len && needed <= pool_len - offset {
        Ok(AccountRange { start: offset, end: offset + needed })
    } else {
        Err(MyErrorCode::InsufficientAccounts)
    }
}

/// The ranges of all legs, in order. There is a range for each leg exactly
/// when the counts together fit the pool.
pub fn partition_pool(counts: &[u8], pool_len: usize) -> (r: Result<Vec<AccountRange>, MyErrorCode>)
    ensures
        consumed(counts@, counts@.len() as int) <= pool_len ==> r is Ok,
        consumed(counts@, counts@.len() as int) > pool_len ==> r == Err::<
            Vec<AccountRange>,
            MyErrorCode,
        >(MyErrorCode::InsufficientAccounts),
        r matches Ok(ranges) ==> ranges@.len() == counts@.len() && forall|k: int|
            0 <= k < counts@.len() ==> (#[trigger] ranges@[k]).start == consumed(counts@, k)
                && ranges@[k].end == consumed(counts@, k + 1),
{
    let mut ranges: Vec<AccountRange> = Vec::new();
    let mut offset: usize = 0;
    let mut leg: usize = 0;
    while leg < counts.len()
        invariant
            leg <= counts@.len(),
            offset == consumed(counts@, leg as int),
            offset <= pool_len,
            ranges@.len() == leg,
            forall|k: int|
                0 <= k < leg ==> (#[trigger] ranges@[k]).start == consumed(counts@, k)
                    && ranges@[k].end == consumed(counts@, k + 1),
        decreases counts@.len() - leg,
    {
        match leg_range(offset, counts[leg], pool_len) {
            Ok(range) => {
                ranges.push(range);
                offset = range.end;
                leg += 1;
            },
            Err(error) => {
                proof {
                    lemma_consumed_grows(counts@, leg as int + 1, counts@.len() as int);
                }
                return Err(error);
            },
        }
    }
    Ok(ranges)
}

/// More legs never take fewer entries.
pub proof fn lemma_consumed_grows(counts: Seq<u8>, fewer: int, more: int)
    requires
        0 <= fewer <= more,
    ensures
        0 <= consumed(counts, fewer) <= consumed(counts, more),
    decreases more,
{
    if more > fewer {
        lemma_consumed_grows(counts, fewer, more - 1);
    } else if fewer > 0 {
        lemma_consumed_grows(counts, fewer - 1, fewer - 1);
    }
}

/// The ranges follow one another without gap or overlap: the first starts at
/// the head of the pool, each leg starts where the leg before it ended, and
/// an earlier leg ends at or before the start of every later one.
pub proof fn lemma_ranges_are_contiguous(counts: Seq<u8>, earlier: int, later: int)
    requires
        0 <= earlier < later,
    ensures
        consumed(counts, 0) == 0,
        consumed(counts, earlier + 1) == consumed(counts, earlier) + counts[earlier],
        consumed(counts, earlier) <= consumed(counts, earlier + 1) <= consumed(counts, later),
{
    lemma_consumed_grows(counts, earlier, earlier + 1);
    lemma_consumed_grows(counts, earlier + 1, later);
}

} // verus!
