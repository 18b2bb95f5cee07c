//! Arithmetic on cycles of irregular length.
//!
//! A year is a sequence of month lengths. Everything the calendar needs from
//! such a sequence is stated here over `Seq<nat>` and `int`, with no
//! reference to any executable type: sums of leading months, sums taken
//! cyclically from any month, and the walk that finds the month owning a
//! given day.

use vstd::prelude::*;

verus! {

/// Every entry of `lengths` is at least one.
pub open spec fn all_positive(lengths: Seq<nat>) -> bool {
    forall|i: int| 0 <= i < lengths.len() ==> lengths[i] > 0
}

/// Sum of the first `n` entries of `lengths`.
pub open spec fn prefix_sum(lengths: Seq<nat>, n: int) -> nat
    decreases n,
{
    if n <= 0 {
        0
    } else {
        prefix_sum(lengths, n - 1) + lengths[n - 1]
    }
}

/// Sum of the first `n` entries of `lengths`, or of all of them where it has
/// fewer than `n`.
pub open spec fn leading_sum(lengths: Seq<nat>, n: int) -> nat {
    if n < lengths.len() {
        prefix_sum(lengths, n)
    } else {
        prefix_sum(lengths, lengths.len() as int)
    }
}

/// Sum of all entries of `lengths`.
pub open spec fn total(lengths: Seq<nat>) -> nat {
    prefix_sum(lengths, lengths.len() as int)
}

/// Sum of `count` entries of `lengths` read cyclically, starting at index
/// `from` (taken modulo the length).
pub open spec fn cyclic_sum(lengths: Seq<nat>, from: int, count: int) -> nat
    decreases count,
{
    if count <= 0 {
        0
    } else {
        lengths[from % (lengths.len() as int)] + cyclic_sum(lengths, from + 1, count - 1)
    }
}

/// The cyclic walk: starting before entry `from` with `days` left to place,
/// consume whole entries while they fit. The result is the number of the
/// entry reached (not reduced modulo the length) and what is left inside it.
pub open spec fn walk(lengths: Seq<nat>, from: int, days: int) -> (int, int)
    decreases days,
{
    let here = lengths[from % (lengths.len() as int)] as int;
    if days < here || here <= 0 {
        (from, days)
    } else {
        walk(lengths, from + 1, days - here)
    }
}

/// Appending one more entry to a cyclic sum.
pub proof fn lemma_cyclic_sum_extend(lengths: Seq<nat>, from: int, count: int)
    requires
        count >= 0,
    ensures
        cyclic_sum(lengths, from, count + 1) == cyclic_sum(lengths, from, count) + lengths[(from
            + count) % (lengths.len() as int)],
    decreases count,
{
    if count > 0 {
        lemma_cyclic_sum_extend(lengths, from + 1, count - 1);
    } else {
        assert(cyclic_sum(lengths, from + 1, 0) == 0);
    }
}

/// A cyclic sum splits at any point.
pub proof fn lemma_cyclic_sum_split(lengths: Seq<nat>, from: int, a: int, b: int)
    requires
        a >= 0,
        b >= 0,
    ensures
        cyclic_sum(lengths, from, a + b) == cyclic_sum(lengths, from, a) + cyclic_sum(
            lengths,
            from + a,
            b,
        ),
    decreases a,
{
    if a > 0 {
        lemma_cyclic_sum_split(lengths, from + 1, a - 1, b);
    }
}

/// Inside one pass over the sequence a cyclic sum is a difference of prefix sums.
pub proof fn lemma_cyclic_sum_in_range(lengths: Seq<nat>, from: int, count: int)
    requires
        0 <= from,
        0 <= count,
        from + count <= lengths.len(),
    ensures
        cyclic_sum(lengths, from, count) + prefix_sum(lengths, from) == prefix_sum(
            lengths,
            from + count,
        ),
    decreases count,
{
    if count > 0 {
        lemma_cyclic_sum_extend(lengths, from, count - 1);
        lemma_cyclic_sum_in_range(lengths, from, count - 1);
        let len = lengths.len() as int;
        assert((from + count - 1) % len == from + count - 1) by {
            vstd::arithmetic::div_mod::lemma_small_mod((from + count - 1) as nat, len as nat);
        }
    }
}

/// Starting one whole pass later changes nothing.
pub proof fn lemma_cyclic_sum_periodic(lengths: Seq<nat>, from: int, count: int)
    requires
        lengths.len() > 0,
    ensures
        cyclic_sum(lengths, from + lengths.len(), count) == cyclic_sum(lengths, from, count),
    decreases count,
{
    if count > 0 {
        let len = lengths.len() as int;
        lemma_cyclic_sum_periodic(lengths, from + 1, count - 1);
        assert((from + len) % len == from % len) by {
            vstd::arithmetic::div_mod::lemma_mod_add_multiples_vanish(from, len);
        }
    }
}

/// Starting at `from` is the same as starting at `from` modulo the length.
pub proof fn lemma_cyclic_sum_start_mod(lengths: Seq<nat>, from: int, count: int)
    requires
        lengths.len() > 0,
    ensures
        cyclic_sum(lengths, from % (lengths.len() as int), count) == cyclic_sum(
            lengths,
            from,
            count,
        ),
    decreases count,
{
    let len = lengths.len() as int;
    if count > 0 {
        lemma_cyclic_sum_start_mod(lengths, from + 1, count - 1);
        lemma_cyclic_sum_start_mod(lengths, from % len + 1, count - 1);
        assert((from % len) % len == from % len) by {
            vstd::arithmetic::div_mod::lemma_mod_twice(from, len);
        }
        assert((from + 1) % len == (from % len + 1) % len) by {
            vstd::arithmetic::div_mod::lemma_add_mod_noop(from, 1, len);
            vstd::arithmetic::div_mod::lemma_add_mod_noop(from % len, 1, len);
        }
    }
}

/// One whole pass sums to the total, wherever it starts.
pub proof fn lemma_cyclic_sum_full_pass(lengths: Seq<nat>, from: int)
    requires
        lengths.len() > 0,
    ensures
        cyclic_sum(lengths, from, lengths.len() as int) == total(lengths),
{
    let len = lengths.len() as int;
    let start = from % len;
    assert(0 <= start < len) by {
        vstd::arithmetic::div_mod::lemma_mod_bound(from, len);
    }
    lemma_cyclic_sum_start_mod(lengths, from, len);
    lemma_cyclic_sum_split(lengths, start, len - start, start);
    lemma_cyclic_sum_in_range(lengths, start, len - start);
    lemma_cyclic_sum_periodic(lengths, 0, start);
    lemma_cyclic_sum_in_range(lengths, 0, start);
}

/// Any number of whole passes, followed by a partial one.
pub proof fn lemma_cyclic_sum_passes(lengths: Seq<nat>, from: int, passes: int, rest: int)
    requires
        lengths.len() > 0,
        passes >= 0,
        rest >= 0,
    ensures
        cyclic_sum(lengths, from, passes * lengths.len() + rest) == passes * total(lengths)
            + cyclic_sum(lengths, from, rest),
    decreases passes,
{
    let len = lengths.len() as int;
    if passes > 0 {
        assert(passes * len + rest == len + ((passes - 1) * len + rest)) by (nonlinear_arith);
        assert(passes * total(lengths) == total(lengths) + (passes - 1) * total(lengths))
            by (nonlinear_arith);
        assert((passes - 1) * len + rest >= 0) by (nonlinear_arith)
            requires
                passes >= 1,
                len > 0,
                rest >= 0,
        ;
        lemma_cyclic_sum_split(lengths, from, len, (passes - 1) * len + rest);
        lemma_cyclic_sum_full_pass(lengths, from);
        lemma_cyclic_sum_periodic(lengths, from, (passes - 1) * len + rest);
        lemma_cyclic_sum_passes(lengths, from, passes - 1, rest);
    } else {
        assert(passes * len + rest == rest) by (nonlinear_arith)
            requires
                passes == 0,
        ;
        assert(passes * total(lengths) == 0) by (nonlinear_arith)
            requires
                passes == 0,
        ;
    }
}

/// With positive entries, `count` entries sum to at least `count`.
pub proof fn lemma_cyclic_sum_at_least_count(lengths: Seq<nat>, from: int, count: int)
    requires
        lengths.len() > 0,
        all_positive(lengths),
        count >= 0,
    ensures
        cyclic_sum(lengths, from, count) >= count,
    decreases count,
{
    if count > 0 {
        let len = lengths.len() as int;
        assert(0 <= from % len < len) by {
            vstd::arithmetic::div_mod::lemma_mod_bound(from, len);
        }
        lemma_cyclic_sum_at_least_count(lengths, from + 1, count - 1);
    }
}

/// Prefix sums grow with the number of entries; with positive entries they
/// grow by at least one per entry.
pub proof fn lemma_prefix_sum_grows(lengths: Seq<nat>, i: int, j: int)
    requires
        0 <= i <= j <= lengths.len(),
    ensures
        prefix_sum(lengths, i) <= prefix_sum(lengths, j),
        all_positive(lengths) ==> prefix_sum(lengths, i) + (j - i) <= prefix_sum(lengths, j),
    decreases j - i,
{
    if i < j {
        lemma_prefix_sum_grows(lengths, i, j - 1);
    }
}

/// What the walk returns: the entries passed over and the remainder add up
/// to the days given, and the remainder lies inside the entry reached.
pub proof fn lemma_walk(lengths: Seq<nat>, from: int, days: int)
    requires
        lengths.len() > 0,
        all_positive(lengths),
        days >= 0,
    ensures
        walk(lengths, from, days).0 >= from,
        0 <= walk(lengths, from, days).1 < lengths[walk(lengths, from, days).0 % (
        lengths.len() as int)],
        cyclic_sum(lengths, from, walk(lengths, from, days).0 - from) + walk(
            lengths,
            from,
            days,
        ).1 == days,
    decreases days,
{
    let len = lengths.len() as int;
    assert(0 <= from % len < len) by {
        vstd::arithmetic::div_mod::lemma_mod_bound(from, len);
    }
    let here = lengths[from % len] as int;
    if days >= here {
        lemma_walk(lengths, from + 1, days - here);
        let k = walk(lengths, from + 1, days - here).0;
        assert(cyclic_sum(lengths, from, k - from) == here + cyclic_sum(
            lengths,
            from + 1,
            k - from - 1,
        ));
    }
}

/// The walk is the only way to place the days: whoever splits `days` into
/// `count` whole entries from `from` and a remainder inside the next entry
/// has found what the walk finds.
pub proof fn lemma_walk_unique(lengths: Seq<nat>, from: int, days: int, count: int, rest: int)
    requires
        lengths.len() > 0,
        all_positive(lengths),
        count >= 0,
        0 <= rest < lengths[(from + count) % (lengths.len() as int)],
        cyclic_sum(lengths, from, count) + rest == days,
    ensures
        walk(lengths, from, days) == (from + count, rest),
    decreases count,
{
    let len = lengths.len() as int;
    assert(0 <= from % len < len) by {
        vstd::arithmetic::div_mod::lemma_mod_bound(from, len);
    }
    if count > 0 {
        lemma_walk_unique(lengths, from + 1, days - lengths[from % len], count - 1, rest);
    }
}

/// A day inside the year is found in the month that holds it.
pub proof fn lemma_walk_in_year(lengths: Seq<nat>, month: int, day: int)
    requires
        all_positive(lengths),
        0 <= month < lengths.len(),
        0 <= day < lengths[month],
    ensures
        walk(lengths, 0, prefix_sum(lengths, month) + day) == (month, day),
        prefix_sum(lengths, month) + day < total(lengths),
{
    let len = lengths.len() as int;
    lemma_cyclic_sum_in_range(lengths, 0, month);
    assert(month % len == month) by {
        vstd::arithmetic::div_mod::lemma_small_mod(month as nat, len as nat);
    }
    lemma_walk_unique(lengths, 0, prefix_sum(lengths, month) + day, month, day);
    lemma_prefix_sum_grows(lengths, month + 1, len);
}

/// A walk over fewer days than the year holds stays inside the year.
pub proof fn lemma_walk_stays_in_year(lengths: Seq<nat>, days: int)
    requires
        lengths.len() > 0,
        all_positive(lengths),
        0 <= days < total(lengths),
    ensures
        0 <= walk(lengths, 0, days).0 < lengths.len(),
        0 <= walk(lengths, 0, days).1 < lengths[walk(lengths, 0, days).0],
        prefix_sum(lengths, walk(lengths, 0, days).0) + walk(lengths, 0, days).1 == days,
{
    let len = lengths.len() as int;
    lemma_walk(lengths, 0, days);
    let k = walk(lengths, 0, days).0;
    if k >= len {
        lemma_cyclic_sum_split(lengths, 0, len, k - len);
        lemma_cyclic_sum_full_pass(lengths, 0);
        assert(false);
    }
    lemma_cyclic_sum_in_range(lengths, 0, k);
    assert(k % len == k) by {
        vstd::arithmetic::div_mod::lemma_small_mod(k as nat, len as nat);
    }
}

} // verus!
