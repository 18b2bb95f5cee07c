//! Stable ordering of a list by a key.

use crate::datetime::RawDateTime;
use vstd::prelude::*;
use vstd::set_lib::{lemma_int_range, lemma_subset_equality, set_int_range};

verus! {

/// Things that a whole number orders.
pub trait Keyed {
    /// The number that orders this value.
    spec fn key(&self) -> int;

    /// Tells whether this value comes strictly before another.
    fn before(&self, other: &Self) -> (r: bool)
        ensures
            r == (self.key() < other.key()),
    ;
}

impl Keyed for usize {
    open spec fn key(&self) -> int {
        *self as int
    }

    fn before(&self, other: &Self) -> (r: bool) {
        *self < *other
    }
}

impl Keyed for RawDateTime {
    /// A number that orders moments as their fields do, read from the year
    /// down to the second.
    open spec fn key(&self) -> int {
        ((((self.date.year * 0x1_0000_0000 + self.date.month) * 0x1_0000_0000 + self.date.day)
            * 0x1_0000_0000 + self.time.hour) * 0x1_0000_0000 + self.time.minute) * 0x1_0000_0000
            + self.time.second
    }

    fn before(&self, other: &Self) -> (r: bool) {
        if self.date.year != other.date.year {
            self.date.year < other.date.year
        } else if self.date.month != other.date.month {
            self.date.month < other.date.month
        } else if self.date.day != other.date.day {
            self.date.day < other.date.day
        } else if self.time.hour != other.time.hour {
            self.time.hour < other.time.hour
        } else if self.time.minute != other.time.minute {
            self.time.minute < other.time.minute
        } else {
            self.time.second < other.time.second
        }
    }
}

/// Two numbers written with a last digit below 2^32 are equal only where
/// the digit and what stands before it are.
proof fn lemma_last_digit(high_a: int, low_a: int, high_b: int, low_b: int)
    requires
        0 <= low_a < 0x1_0000_0000,
        0 <= low_b < 0x1_0000_0000,
        high_a * 0x1_0000_0000 + low_a == high_b * 0x1_0000_0000 + low_b,
    ensures
        high_a == high_b,
        low_a == low_b,
{
}

/// Moments of equal key are equal.
pub proof fn lemma_moment_key_is_exact(a: RawDateTime, b: RawDateTime)
    ensures
        a.key() == b.key() <==> a == b,
{
    if a.key() == b.key() {
        let a1 = a.date.year * 0x1_0000_0000 + a.date.month;
        let b1 = b.date.year * 0x1_0000_0000 + b.date.month;
        let a2 = a1 * 0x1_0000_0000 + a.date.day;
        let b2 = b1 * 0x1_0000_0000 + b.date.day;
        let a3 = a2 * 0x1_0000_0000 + a.time.hour;
        let b3 = b2 * 0x1_0000_0000 + b.time.hour;
        let a4 = a3 * 0x1_0000_0000 + a.time.minute;
        let b4 = b3 * 0x1_0000_0000 + b.time.minute;
        lemma_last_digit(a4, a.time.second as int, b4, b.time.second as int);
        lemma_last_digit(a3, a.time.minute as int, b3, b.time.minute as int);
        lemma_last_digit(a2, a.time.hour as int, b2, b.time.hour as int);
        lemma_last_digit(a1, a.date.day as int, b1, b.date.day as int);
        lemma_last_digit(
            a.date.year as int,
            a.date.month as int,
            b.date.year as int,
            b.date.month as int,
        );
    }
}

/// `order` lists each of the numbers below `count` once.
pub open spec fn is_arrangement(order: Seq<usize>, count: nat) -> bool {
    &&& order.len() == count
    &&& forall|i: int| 0 <= i < order.len() ==> (#[trigger] order[i]) < count
    &&& forall|i: int, j: int| 0 <= i < j < order.len() ==> order[i] != order[j]
}

/// `order` lists places of `items` by rising key, places of equal key by
/// rising place.
pub open spec fn is_stably_ordered<K: Keyed>(order: Seq<usize>, items: Seq<K>) -> bool {
    forall|i: int, j: int|
        0 <= i < j < order.len() ==> items[order[i] as int].key() < items[order[j] as int].key()
            || (items[order[i] as int].key() == items[order[j] as int].key() && order[i]
            < order[j])
}

/// Where the place `next` of `items` goes into `order`: before the places
/// at the end of `order`, from `place` down, whose key is greater than its
/// own.
pub open spec fn place_in<K: Keyed>(order: Seq<usize>, items: Seq<K>, next: int, place: int) -> int
    decreases place,
{
    if place > 0 && items[next].key() < items[order[place - 1] as int].key() {
        place_in(order, items, next, place - 1)
    } else {
        place
    }
}

/// The stable order of the first `count` places of `items`: that of the
/// places before the last, with the last put in after the places whose key
/// is no greater than its own.
pub open spec fn stable_order_of<K: Keyed>(items: Seq<K>, count: nat) -> Seq<usize>
    decreases count,
{
    if count == 0 {
        Seq::empty()
    } else {
        let order = stable_order_of(items, (count - 1) as nat);
        order.insert(place_in(order, items, count - 1, order.len() as int), (count - 1) as usize)
    }
}

/// Where a place goes into an order: it lies inside the order, every place
/// from there on has a greater key, and the place before it has not.
pub proof fn lemma_place_in<K: Keyed>(order: Seq<usize>, items: Seq<K>, next: int, place: int)
    requires
        0 <= place <= order.len(),
    ensures
        0 <= place_in(order, items, next, place) <= place,
        forall|k: int|
            place_in(order, items, next, place) <= k < place ==> items[next].key() < items[(
            #[trigger] order[k]) as int].key(),
        place_in(order, items, next, place) > 0 ==> items[order[place_in(
            order,
            items,
            next,
            place,
        ) - 1] as int].key() <= items[next].key(),
    decreases place,
{
    if place > 0 && items[next].key() < items[order[place - 1] as int].key() {
        lemma_place_in(order, items, next, place - 1);
    }
}

/// The stable order is what its name says: it lists each of the places
/// once, by rising key, and places of equal key by rising place.
pub proof fn law_stable_order<K: Keyed>(items: Seq<K>, count: nat)
    requires
        count <= items.len() <= usize::MAX,
    ensures
        is_arrangement(stable_order_of(items, count), count),
        is_stably_ordered(stable_order_of(items, count), items),
    decreases count,
{
    if count > 0 {
        let before = stable_order_of(items, (count - 1) as nat);
        law_stable_order(items, (count - 1) as nat);
        let next = (count - 1) as usize;
        let place = place_in(before, items, count - 1, before.len() as int);
        lemma_place_in(before, items, count - 1, before.len() as int);
        let after = before.insert(place, next);
        assert(after == stable_order_of(items, count));
        assert forall|i: int| 0 <= i < after.len() implies (#[trigger] after[i]) < count by {
            if i < place {
                assert(after[i] == before[i]);
            } else if i > place {
                assert(after[i] == before[i - 1]);
            }
        }
        assert forall|i: int, j: int| 0 <= i < j < after.len() implies after[i] != after[j] && (
        items[after[i] as int].key() < items[after[j] as int].key() || (items[after[i] as int].key()
            == items[after[j] as int].key() && after[i] < after[j])) by {
            let a = if i < place {
                i
            } else {
                i - 1
            };
            let b = if j < place {
                j
            } else {
                j - 1
            };
            if i != place && j != place {
                assert(after[i] == before[a]);
                assert(after[j] == before[b]);
            } else if i == place {
                assert(after[j] == before[b]);
            } else {
                assert(after[i] == before[a]);
                assert(before[place - 1] < next);
                if a < place - 1 {
                    assert(items[before[a] as int].key() < items[before[place - 1] as int].key()
                        || (items[before[a] as int].key() == items[before[place
                        - 1] as int].key() && before[a] < before[place - 1]));
                }
            }
        }
    }
}

/// An arrangement leaves no place out.
pub proof fn lemma_arrangement_is_complete(order: Seq<usize>, count: nat, place: int)
    requires
        is_arrangement(order, count),
        0 <= place < count,
    ensures
        exists|i: int| 0 <= i < order.len() && order[i] == place,
{
    broadcast use vstd::seq_lib::seq_to_set_is_finite;

    let places = Seq::new(order.len(), |i: int| order[i] as int);
    let all = set_int_range(0, count as int);
    assert(places.no_duplicates());
    places.unique_seq_to_set();
    lemma_int_range(0, count as int);
    assert(places.to_set().subset_of(all)) by {
        assert forall|v: int| places.to_set().contains(v) implies all.contains(v) by {
            let i = choose|i: int| 0 <= i < places.len() && places[i] == v;
            assert(order[i] < count);
        }
    }
    lemma_subset_equality(places.to_set(), all);
    assert(all.contains(place));
    assert(places.contains(place));
    let i = choose|i: int| 0 <= i < places.len() && places[i] == place;
    assert(order[i] == place);
}

/// A place goes in where every place from there on has a greater key and
/// the place before has not.
proof fn lemma_place_in_is<K: Keyed>(
    order: Seq<usize>,
    items: Seq<K>,
    next: int,
    place: int,
    found: int,
)
    requires
        0 <= found <= place <= order.len(),
        forall|k: int|
            found <= k < order.len() ==> items[next].key() < items[(
            #[trigger] order[k]) as int].key(),
        found > 0 ==> items[order[found - 1] as int].key() <= items[next].key(),
    ensures
        place_in(order, items, next, place) == found,
    decreases place,
{
    if place > found {
        assert(items[next].key() < items[order[place - 1] as int].key());
        lemma_place_in_is(order, items, next, place - 1, found);
    }
}

/// There is one stable order: whatever lists each of the places once, by
/// rising key, and places of equal key by rising place, is the stable
/// order.
pub proof fn law_stable_order_is_unique<K: Keyed>(items: Seq<K>, order: Seq<usize>)
    requires
        order.len() <= items.len() <= usize::MAX,
        is_arrangement(order, order.len()),
        is_stably_ordered(order, items),
    ensures
        order == stable_order_of(items, order.len()),
    decreases order.len(),
{
    let count = order.len();
    if count == 0 {
        assert(order =~= stable_order_of(items, 0));
    } else {
        let next = count - 1;
        lemma_arrangement_is_complete(order, count, next);
        let found = choose|i: int| 0 <= i < order.len() && order[i] == next;
        let rest = order.remove(found);
        assert forall|i: int| 0 <= i < rest.len() implies (#[trigger] rest[i]) < count - 1 by {
            let a = if i < found {
                i
            } else {
                i + 1
            };
            assert(rest[i] == order[a]);
            assert(order[a] != order[found]);
        }
        assert forall|i: int, j: int| 0 <= i < j < rest.len() implies rest[i] != rest[j] && (
        items[rest[i] as int].key() < items[rest[j] as int].key() || (items[rest[i] as int].key()
            == items[rest[j] as int].key() && rest[i] < rest[j])) by {
            let a = if i < found {
                i
            } else {
                i + 1
            };
            let b = if j < found {
                j
            } else {
                j + 1
            };
            assert(rest[i] == order[a]);
            assert(rest[j] == order[b]);
        }
        law_stable_order_is_unique(items, rest);
        assert forall|k: int| found <= k < rest.len() implies items[next].key() < items[(
        #[trigger] rest[k]) as int].key() by {
            assert(rest[k] == order[k + 1]);
            assert(order[k + 1] != order[found]);
            assert(order[k + 1] < count);
        }
        if found > 0 {
            assert(rest[found - 1] == order[found - 1]);
        }
        lemma_place_in_is(rest, items, next, rest.len() as int, found);
        assert(order =~= rest.insert(found, next as usize));
    }
}

/// Orders a list: gets the places of the list from the least key to the
/// greatest, places of equal key in the order in which they stand in the
/// list.
pub fn stable_order<K: Keyed>(items: &Vec<K>) -> (order: Vec<usize>)
    ensures
        order@ == stable_order_of(items@, items@.len()),
        is_arrangement(order@, items@.len()),
        is_stably_ordered(order@, items@),
{
    let mut order: Vec<usize> = Vec::new();
    let mut next: usize = 0;
    while next < items.len()
        invariant
            0 <= next <= items.len(),
            order@ == stable_order_of(items@, next as nat),
            is_arrangement(order@, next as nat),
            is_stably_ordered(order@, items@),
        decreases items.len() - next,
    {
        let mut place: usize = order.len();
        while place > 0 && items[next].before(&items[order[place - 1]])
            invariant
                0 <= place <= order.len(),
                next < items.len(),
                is_arrangement(order@, next as nat),
                place_in(order@, items@, next as int, order@.len() as int) == place_in(
                    order@,
                    items@,
                    next as int,
                    place as int,
                ),
                forall|k: int|
                    place <= k < order.len() ==> items@[next as int].key() < items@[(
                    #[trigger] order[k]) as int].key(),
            decreases place,
        {
            place = place - 1;
        }
        let ghost before = order@;
        order.insert(place, next);
        proof {
            let after = order@;
            assert forall|i: int| 0 <= i < after.len() implies (#[trigger] after[i]) < next
                + 1 by {
                if i < place {
                    assert(after[i] == before[i]);
                } else if i > place {
                    assert(after[i] == before[i - 1]);
                }
            }
            assert forall|i: int, j: int| 0 <= i < j < after.len() implies after[i]
                != after[j] by {
                let a = if i < place {
                    i
                } else {
                    i - 1
                };
                let b = if j < place {
                    j
                } else {
                    j - 1
                };
                if i != place && j != place {
                    assert(after[i] == before[a]);
                    assert(after[j] == before[b]);
                } else if i == place {
                    assert(after[j] == before[b]);
                } else {
                    assert(after[i] == before[a]);
                }
            }
            assert forall|i: int, j: int| 0 <= i < j < after.len() implies items@[after[i] as int].key()
                < items@[after[j] as int].key() || (items@[after[i] as int].key()
                == items@[after[j] as int].key() && after[i] < after[j]) by {
                let a = if i < place {
                    i
                } else {
                    i - 1
                };
                let b = if j < place {
                    j
                } else {
                    j - 1
                };
                if i != place && j != place {
                    assert(after[i] == before[a]);
                    assert(after[j] == before[b]);
                } else if i == place {
                    assert(after[j] == before[b]);
                } else {
                    assert(after[i] == before[a]);
                    if place > 0 {
                        assert(before[place - 1] < next);
                        if a < place - 1 {
                            assert(items@[before[a] as int].key() < items@[before[place
                                - 1] as int].key() || (items@[before[a] as int].key()
                                == items@[before[place - 1] as int].key() && before[a]
                                < before[place - 1]));
                        }
                    }
                }
            }
        }
        next = next + 1;
    }
    order
}

} // verus!
