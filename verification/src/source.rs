//! The pull-based lazy sequence abstraction: a producer hands out one value at
//! a time on demand, and may be empty, finite, or unbounded.

use vstd::prelude::*;

verus! {

/// True when a producer with `rem` values left has nothing more to give.
/// An unbounded producer (`rem is None`) is never depleted.
pub open spec fn depleted(rem: Option<nat>) -> bool {
    rem == Some(0nat)
}

/// How many values are left after one value has been pulled.
pub open spec fn dec_rem(rem: Option<nat>) -> Option<nat> {
    match rem {
        Some(n) => Some((n - 1) as nat),
        None => None,
    }
}

/// Whether index `i` addresses a value that a producer with `rem` values left
/// will still yield. Every index is in range of an unbounded producer.
pub open spec fn within(rem: Option<nat>, i: nat) -> bool {
    match rem {
        Some(n) => i < n,
        None => true,
    }
}

/// A lazy producer of a sequence of values of type `T`, consumed one value per
/// call to `next`. Its mathematical model is the number of values it will
/// still yield (`None` for an unbounded producer) and the value at each index.
pub trait PullSource<T>: Sized {
    /// How many values this producer will still yield; `None` when it never
    /// runs out.
    spec fn remaining(&self) -> Option<nat>;

    /// The value this producer will yield after `i` more pulls.
    spec fn item_at(&self, i: nat) -> T;

    /// Pull the next value, or learn that the producer is depleted. A depleted
    /// producer yields nothing and is left exactly as it was; any other
    /// producer yields its first value, and every later value moves one index
    /// forward.
    fn next(&mut self) -> (r: Option<T>)
        ensures
            depleted(old(self).remaining()) ==> r is None && *final(self) == *old(self),
            !depleted(old(self).remaining()) ==> r == Some(old(self).item_at(0)),
            !depleted(old(self).remaining()) ==> final(self).remaining() == dec_rem(
                old(self).remaining(),
            ),
            !depleted(old(self).remaining()) ==> forall|i: nat|
                within(final(self).remaining(), i) ==> #[trigger] final(self).item_at(i) == old(
                    self,
                ).item_at(i + 1),
    ;
}

/// How many values a prefix of length `count` actually gets from a producer
/// with `rem` values left: `count`, unless the producer runs out first.
pub open spec fn prefix_len(rem: Option<nat>, count: nat) -> nat {
    match rem {
        Some(n) => if n < count {
            n
        } else {
            count
        },
        None => count,
    }
}

/// How many values are left after a prefix of length `count` has been taken.
pub open spec fn drop_rem(rem: Option<nat>, count: nat) -> Option<nat> {
    match rem {
        Some(n) => Some((n - prefix_len(rem, count)) as nat),
        None => None,
    }
}

/// Drain a finite producer into a vector holding all of its values in order.
pub fn collect_all<T, S: PullSource<T>>(source: S) -> (r: Vec<T>)
    requires
        source.remaining() is Some,
    ensures
        r@.len() == source.remaining()->0,
        forall|i: int| 0 <= i < r@.len() ==> r@[i] == source.item_at(i as nat),
{
    let ghost orig = source;
    let mut src = source;
    let mut out: Vec<T> = Vec::new();
    loop
        invariant
            src.remaining() is Some,
            out@.len() + src.remaining()->0 == orig.remaining()->0,
            forall|i: int| 0 <= i < out@.len() ==> out@[i] == orig.item_at(i as nat),
            forall|i: nat|
                within(src.remaining(), i) ==> #[trigger] src.item_at(i) == orig.item_at(
                    out@.len() + i,
                ),
        ensures
            out@.len() == orig.remaining()->0,
            forall|i: int| 0 <= i < out@.len() ==> out@[i] == orig.item_at(i as nat),
        decreases src.remaining()->0,
    {
        match src.next() {
            Some(v) => {
                out.push(v);
            },
            None => {
                break ;
            },
        }
    }
    out
}

/// Pull up to `count` values from a producer into a vector, in order. An
/// unbounded producer always fills the vector; a finite one may run out first
/// and is then left depleted.
pub fn take_prefix<T, S: PullSource<T>>(source: &mut S, count: usize) -> (r: Vec<T>)
    ensures
        r@.len() == prefix_len(old(source).remaining(), count as nat),
        forall|i: int| 0 <= i < r@.len() ==> r@[i] == old(source).item_at(i as nat),
        final(source).remaining() == drop_rem(old(source).remaining(), count as nat),
        forall|i: nat|
            within(final(source).remaining(), i) ==> #[trigger] final(source).item_at(i) == old(
                source,
            ).item_at(i + r@.len()),
{
    let mut out: Vec<T> = Vec::new();
    let mut taken: usize = 0;
    while taken < count
        invariant
            taken == out@.len(),
            taken <= count,
            old(source).remaining() is Some ==> source.remaining() is Some && taken
                + source.remaining()->0 == old(source).remaining()->0,
            old(source).remaining() is None ==> source.remaining() is None,
            forall|i: int| 0 <= i < out@.len() ==> out@[i] == old(source).item_at(i as nat),
            forall|i: nat|
                within(source.remaining(), i) ==> #[trigger] source.item_at(i) == old(
                    source,
                ).item_at(i + taken as nat),
        ensures
            out@.len() == prefix_len(old(source).remaining(), count as nat),
            forall|i: int| 0 <= i < out@.len() ==> out@[i] == old(source).item_at(i as nat),
            source.remaining() == drop_rem(old(source).remaining(), count as nat),
            forall|i: nat|
                within(source.remaining(), i) ==> #[trigger] source.item_at(i) == old(
                    source,
                ).item_at(i + out@.len()),
        decreases count - taken,
    {
        match source.next() {
            Some(v) => {
                out.push(v);
                taken = taken + 1;
            },
            None => {
                break ;
            },
        }
    }
    out
}

} // verus!
