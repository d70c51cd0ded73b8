//! Ready-made producers: a finite one backed by a vector, and an unbounded
//! counting one.

use vstd::prelude::*;

use crate::source::{within, PullSource};
use vstd::arithmetic::div_mod::{lemma_mod_multiples_vanish, lemma_small_mod};

verus! {

/// The value a counting producer that started at `start` yields after `i`
/// pulls: the count wraps back to zero after `u64::MAX`.
pub open spec fn counter_value(start: u64, i: nat) -> u64 {
    ((start as nat + i) % 0x1_0000_0000_0000_0000) as u64
}

/// A finite producer that yields the elements of a vector, front to back.
pub struct VecSource<T> {
    items: Vec<T>,
}

impl<T> VecSource<T> {
    /// Wrap a vector; the producer will yield its elements in order.
    pub fn from_vec(items: Vec<T>) -> (r: VecSource<T>)
        ensures
            r.remaining() == Some(items@.len()),
            forall|i: nat| i < items@.len() ==> #[trigger] r.item_at(i) == items@[i as int],
    {
        VecSource { items }
    }
}

impl<T> PullSource<T> for VecSource<T> {
    closed spec fn remaining(&self) -> Option<nat> {
        Some(self.items@.len())
    }

    closed spec fn item_at(&self, i: nat) -> T {
        self.items@[i as int]
    }

    fn next(&mut self) -> (r: Option<T>) {
        if self.items.len() == 0 {
            None
        } else {
            Some(self.items.remove(0))
        }
    }
}

/// An unbounded producer that counts upward one by one, wrapping back to zero
/// after `u64::MAX`. It never runs out of values.
pub struct CountFrom {
    next_value: u64,
}

impl CountFrom {
    /// A counting producer whose first value is `start`.
    pub fn starting_at(start: u64) -> (r: CountFrom)
        ensures
            r.remaining() is None,
            forall|i: nat| #[trigger] r.item_at(i) == counter_value(start, i),
            forall|i: nat|
                start as nat + i <= u64::MAX ==> #[trigger] r.item_at(i) == start as nat + i,
    {
        proof {
            assert forall|i: nat| start as nat + i <= u64::MAX implies #[trigger] counter_value(
                start,
                i,
            ) == start as nat + i by {
                lemma_small_mod(start as nat + i, 0x1_0000_0000_0000_0000);
            }
        }
        CountFrom { next_value: start }
    }
}

impl PullSource<u64> for CountFrom {
    closed spec fn remaining(&self) -> Option<nat> {
        None
    }

    closed spec fn item_at(&self, i: nat) -> u64 {
        counter_value(self.next_value, i)
    }

    fn next(&mut self) -> (r: Option<u64>) {
        let v = self.next_value;
        self.next_value = if v == u64::MAX {
            0
        } else {
            v + 1
        };
        proof {
            lemma_small_mod(v as nat, 0x1_0000_0000_0000_0000);
            assert forall|i: nat| within(self.remaining(), i) implies #[trigger] self.item_at(i)
                == old(self).item_at(i + 1) by {
                if v == u64::MAX {
                    lemma_mod_multiples_vanish(1, i as int, 0x1_0000_0000_0000_0000);
                }
            }
        }
        Some(v)
    }
}

} // verus!
