//! The last-marking adapter: it turns a producer of values into a producer of
//! `(is_last, value)` pairs, using a single element of lookahead to decide, as
//! it yields a value, whether that value is the final one.

use vstd::prelude::*;

use crate::source::PullSource;

verus! {

/// Whether the value at index `i` is the last one of a producer with `rem`
/// values left. No value of an unbounded producer is ever last.
pub open spec fn is_last_flag(rem: Option<nat>, i: nat) -> bool {
    match rem {
        Some(n) => i + 1 == n,
        None => false,
    }
}

/// A producer of `(is_last, value)` pairs over the values of an underlying
/// producer. It owns the underlying producer and buffers at most one value of
/// lookahead, so memory use stays constant however long the sequence runs.
pub struct MarkLast<T, S: PullSource<T>> {
    source: S,
    lookahead: Option<T>,
}

/// The adapter `a` yields exactly the values of `src`, in order and in equal
/// number, each paired with the flag that tells whether it is the last one.
pub open spec fn wraps<T, S: PullSource<T>>(a: MarkLast<T, S>, src: S) -> bool {
    &&& a.remaining() == src.remaining()
    &&& forall|i: nat|
        #[trigger] a.item_at(i) == (is_last_flag(src.remaining(), i), src.item_at(i))
}

impl<T, S: PullSource<T>> MarkLast<T, S> {
    /// Wrap a producer. Nothing is pulled eagerly: the underlying producer is
    /// first consulted when the first pair is requested.
    pub fn new(source: S) -> (r: MarkLast<T, S>)
        ensures
            wraps(r, source),
    {
        MarkLast { source, lookahead: None }
    }
}

impl<T, S: PullSource<T>> PullSource<(bool, T)> for MarkLast<T, S> {
    closed spec fn remaining(&self) -> Option<nat> {
        match self.source.remaining() {
            Some(n) => Some(n + if self.lookahead is Some { 1nat } else { 0nat }),
            None => None,
        }
    }

    closed spec fn item_at(&self, i: nat) -> (bool, T) {
        let v = match self.lookahead {
            Some(x) => if i == 0 { x } else { self.source.item_at((i - 1) as nat) },
            None => self.source.item_at(i),
        };
        (is_last_flag(self.remaining(), i), v)
    }

    fn next(&mut self) -> (r: Option<(bool, T)>) {
        let buffered = self.lookahead.take();
        let v = match buffered {
            Some(x) => x,
            None => {
                match self.source.next() {
                    Some(x) => x,
                    None => {
                        return None;
                    },
                }
            },
        };
        let probed = self.source.next();
        match probed {
            Some(w) => {
                self.lookahead = Some(w);
                Some((false, v))
            },
            None => {
                Some((true, v))
            },
        }
    }
}

/// Gives every producer a `mark_last` method, the way the adapter is meant to
/// be reached.
pub trait MarkLastIterator<T>: PullSource<T> + Sized {
    /// Wrap this producer so that each value comes paired with a flag that is
    /// true exactly on the last value.
    fn mark_last(self) -> (r: MarkLast<T, Self>)
        ensures
            wraps(r, self),
    ;
}

impl<T, S: PullSource<T>> MarkLastIterator<T> for S {
    fn mark_last(self) -> (r: MarkLast<T, S>) {
        MarkLast::new(self)
    }
}

/// Over a finite underlying producer of `n >= 1` values, the adapter yields
/// exactly `n` pairs, in order; the pair at index `i` carries the `i`-th
/// underlying value, flagged as last exactly when `i` is the final index.
pub proof fn lemma_finite_marking<T, S: PullSource<T>>(a: MarkLast<T, S>, src: S, i: nat)
    requires
        wraps(a, src),
        src.remaining() is Some,
        1 <= src.remaining()->0,
        i < src.remaining()->0,
    ensures
        a.remaining() == src.remaining(),
        a.item_at(i).1 == src.item_at(i),
        a.item_at(i).0 <==> i + 1 == src.remaining()->0,
{
}

/// Over an empty underlying producer, the adapter has no pairs to yield.
pub proof fn lemma_empty_source<T, S: PullSource<T>>(a: MarkLast<T, S>, src: S)
    requires
        wraps(a, src),
        src.remaining() == Some(0nat),
    ensures
        a.remaining() == Some(0nat),
{
}

/// Over an underlying producer of exactly one value, the adapter yields
/// exactly one pair, and that pair is the value flagged as last.
pub proof fn lemma_single_value<T, S: PullSource<T>>(a: MarkLast<T, S>, src: S)
    requires
        wraps(a, src),
        src.remaining() == Some(1nat),
    ensures
        a.remaining() == Some(1nat),
        a.item_at(0) == (true, src.item_at(0)),
{
}

/// Over an unbounded underlying producer, the adapter is itself unbounded and
/// no pair it yields, at any index, ever carries a true flag.
pub proof fn lemma_unbounded_never_marks<T, S: PullSource<T>>(a: MarkLast<T, S>, src: S, i: nat)
    requires
        wraps(a, src),
        src.remaining() is None,
    ensures
        a.remaining() is None,
        a.item_at(i).0 == false,
        a.item_at(i).1 == src.item_at(i),
{
}

} // verus!
