//! Work partition.
//!
//! The pixel grid is split across workers by rows: an ordered sequence of
//! contiguous, disjoint row ranges whose union is exactly `[0, height)`, so
//! every pixel is computed once and never twice.

use vstd::prelude::*;
use vstd::arithmetic::div_mod::{
    lemma_div_is_ordered, lemma_div_multiples_vanish, lemma_div_nonincreasing,
    lemma_div_pos_is_pos,
};
use vstd::arithmetic::mul::{lemma_mul_inequality, lemma_mul_nonnegative, lemma_mul_upper_bound};

verus! {

/// A contiguous range of pixel rows, `start` inclusive to `end` exclusive.
#[derive(Clone, Copy, Debug, PartialEq, Eq, Structural)]
pub struct RowRange {
    pub start: u32,
    pub end: u32,
}

/// What it means for a sequence of row ranges to partition `[0, height)`:
/// the ranges chain the whole interval, without gap and without overlap.
pub open spec fn is_row_partition(ranges: Seq<RowRange>, height: int) -> bool {
    &&& ranges.len() > 0
    &&& ranges[0].start == 0
    &&& ranges[ranges.len() - 1].end == height
    &&& forall|k: int| 0 <= k < ranges.len() ==> (#[trigger] ranges[k]).start <= ranges[k].end
    &&& forall|k: int|
        0 <= k < ranges.len() - 1 ==> (#[trigger] ranges[k]).end == ranges[k + 1].start
}

/// The static, load-oblivious split: range `k` of `w` is
/// `[k*h/w, (k+1)*h/w)`, the last range absorbing the remainder.
pub open spec fn range_bound_spec(k: int, height: int, workers: int) -> int {
    (k * height) / workers
}

/// Row `k*height/workers` is a valid row index bound.
proof fn lemma_range_bound(k: int, height: int, workers: int)
    requires
        0 <= k <= workers,
        1 <= workers,
        0 <= height,
    ensures
        0 <= range_bound_spec(k, height, workers) <= height,
{
    lemma_mul_nonnegative(k, height);
    lemma_div_pos_is_pos(k * height, workers);
    lemma_mul_inequality(k, workers, height);
    lemma_div_is_ordered(k * height, workers * height, workers);
    lemma_div_multiples_vanish(height, workers);
}

/// Partition `[0, height)` into `workers` contiguous row ranges.
pub fn make_partition(height: u32, workers: usize) -> (ranges: Vec<RowRange>)
    requires
        workers >= 1,
    ensures
        ranges@.len() == workers,
        is_row_partition(ranges@, height as int),
        forall|k: int|
            0 <= k < workers ==> (#[trigger] ranges@[k]).start == range_bound_spec(
                k,
                height as int,
                workers as int,
            ) && ranges@[k].end == range_bound_spec(k + 1, height as int, workers as int),
{
    let mut ranges: Vec<RowRange> = Vec::new();
    let mut k: usize = 0;
    while k < workers
        invariant
            k <= workers,
            workers >= 1,
            ranges@.len() == k,
            forall|j: int|
                0 <= j < k ==> (#[trigger] ranges@[j]).start == range_bound_spec(
                    j,
                    height as int,
                    workers as int,
                ) && ranges@[j].end == range_bound_spec(j + 1, height as int, workers as int),
        decreases workers - k,
    {
        proof {
            lemma_range_bound(k as int, height as int, workers as int);
            lemma_range_bound(k as int + 1, height as int, workers as int);
            lemma_mul_upper_bound(
                k as int,
                0xFFFF_FFFF_FFFF_FFFF,
                height as int,
                0xFFFF_FFFF,
            );
            lemma_mul_upper_bound(
                k as int + 1,
                0xFFFF_FFFF_FFFF_FFFF,
                height as int,
                0xFFFF_FFFF,
            );
        }
        let start128: u128 = (k as u128) * (height as u128) / (workers as u128);
        let end128: u128 = ((k as u128) + 1) * (height as u128) / (workers as u128);
        let r = RowRange { start: start128 as u32, end: end128 as u32 };
        ranges.push(r);
        k = k + 1;
    }
    proof {
        assert forall|j: int| 0 <= j < workers implies (#[trigger] ranges@[j]).start
            <= ranges@[j].end by {
            lemma_mul_inequality(j, j + 1, height as int);
            lemma_div_is_ordered(j * height, (j + 1) * height, workers as int);
        }
        assert(ranges@[0].start == (0 * height) / (workers as int));
        assert(0 * height == 0int);
        lemma_div_pos_is_pos(0, workers as int);
        lemma_div_nonincreasing(0, workers as int);
        assert(ranges@[0].start == 0);
        assert(ranges@[workers - 1].end == ((workers as int) * height) / (workers as int));
        lemma_div_multiples_vanish(height as int, workers as int);
        assert(ranges@[workers - 1].end == height);
    }
    ranges
}

/// Two distinct ranges of a chain never overlap: the earlier one ends before
/// the later one starts.
proof fn lemma_ends_ordered(ranges: Seq<RowRange>, height: int, k1: int, k2: int)
    requires
        is_row_partition(ranges, height),
        0 <= k1 < k2 < ranges.len(),
    ensures
        ranges[k1].end <= ranges[k2].start,
    decreases k2 - k1,
{
    if k1 + 1 == k2 {
    } else {
        lemma_ends_ordered(ranges, height, k1, k2 - 1);
    }
}

/// A row below the end of range `k` lies in some range up to `k`.
proof fn lemma_covers_below(ranges: Seq<RowRange>, height: int, k: int, y: int)
    requires
        is_row_partition(ranges, height),
        0 <= k < ranges.len(),
        0 <= y < ranges[k].end,
    ensures
        exists|j: int| 0 <= j <= k && (#[trigger] ranges[j]).start <= y < ranges[j].end,
    decreases k,
{
    if ranges[k].start <= y {
        assert(0 <= k <= k && ranges[k].start <= y < ranges[k].end);
    } else {
        assert(k > 0);
        lemma_covers_below(ranges, height, k - 1, y);
    }
}

/// Every range of a row partition lies inside `[0, height]`.
pub proof fn lemma_range_within(ranges: Seq<RowRange>, height: int, k: int)
    requires
        is_row_partition(ranges, height),
        0 <= k < ranges.len(),
    ensures
        ranges[k].start <= ranges[k].end <= height,
    decreases ranges.len() - k,
{
    if k == ranges.len() - 1 {
    } else {
        lemma_range_within(ranges, height, k + 1);
    }
}

/// Law: a row partition covers every row of `[0, height)` exactly once —
/// some range contains the row, and no two distinct ranges both do.
pub proof fn lemma_partition_covers(ranges: Seq<RowRange>, height: int, y: int)
    requires
        is_row_partition(ranges, height),
        0 <= y < height,
    ensures
        exists|k: int| 0 <= k < ranges.len() && (#[trigger] ranges[k]).start <= y < ranges[k].end,
        forall|k1: int, k2: int|
            0 <= k1 < ranges.len() && (#[trigger] ranges[k1]).start <= y < ranges[k1].end && 0
                <= k2 < ranges.len() && (#[trigger] ranges[k2]).start <= y < ranges[k2].end ==> k1
                == k2,
{
    lemma_covers_below(ranges, height, ranges.len() - 1, y);
    assert forall|k1: int, k2: int|
        0 <= k1 < ranges.len() && (#[trigger] ranges[k1]).start <= y < ranges[k1].end && 0 <= k2
            < ranges.len() && (#[trigger] ranges[k2]).start <= y < ranges[k2].end implies k1
        == k2 by {
        if k1 < k2 {
            lemma_ends_ordered(ranges, height, k1, k2);
        } else if k2 < k1 {
            lemma_ends_ordered(ranges, height, k2, k1);
        }
    }
}

} // verus!
