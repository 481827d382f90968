//! The adapter itself, as an `Iterator`, and the extension trait that builds it.
use core::marker::PhantomData;
use vstd::prelude::*;
use vstd::std_specs::iter::{IteratorSpec, IteratorSpecImpl};
use crate::model::AdapterState;

verus! {

/// `p` may be called on every item: it asks nothing of its argument. A function
/// or closure that states no `requires` is total.
pub open spec fn total<T, P: FnMut(&T) -> bool>(p: P) -> bool {
    forall|x: T| #[trigger] call_requires(p, (&x,))
}

/// `p` computes `f`: whatever `p` returns on an item is `f` of that item.
pub open spec fn computes<T, P: FnMut(&T) -> bool>(p: P, f: spec_fn(T) -> bool) -> bool {
    forall|x: T, b: bool| #[trigger] call_ensures(p, (&x,), b) ==> b == f(x)
}

/// Calls `Iterator::size_hint` on `source`. The bounds are whatever the
/// source's own implementation reports, so nothing is claimed of them.
#[verifier::external_body]
fn size_hint_of<I: Iterator>(source: &I) -> (hint: (usize, Option<usize>)) {
    source.size_hint()
}

/// `hint` is what a call of `Iterator::size_hint` on `source` may report.
pub closed spec fn reported_by<I: Iterator>(source: I, hint: (usize, Option<usize>)) -> bool {
    call_ensures(size_hint_of::<I>, (&source,), hint)
}

/// The bounds that the adapter reports where its upstream reports `reported`:
/// no lower bound, since the very next item may fail, and the upstream's upper
/// bound as it is.
pub fn hint_over(reported: (usize, Option<usize>)) -> (hint: (usize, Option<usize>))
    ensures
        hint == (0usize, reported.1),
{
    (0, reported.1)
}

/// A predicate on the items of `I` that is known to be total. `I` stands only
/// in the bound of `P`.
struct Guard<I: Iterator, P: FnMut(&I::Item) -> bool> {
    predicate: P,
    source: PhantomData<I>,
}

impl<I: Iterator, P: FnMut(&I::Item) -> bool> Guard<I, P> {
    #[verifier::type_invariant]
    spec fn predicate_is_total(self) -> bool {
        total::<I::Item, P>(self.predicate)
    }

    fn new(predicate: P) -> (guard: Self)
        requires
            total::<I::Item, P>(predicate),
        ensures
            guard.predicate == predicate,
    {
        Guard { predicate, source: PhantomData }
    }

    /// Runs the predicate on `item`; returns its verdict together with the guard.
    fn test(self, item: &I::Item) -> (verdict: (bool, Self))
        ensures
            call_ensures(self.predicate, (item,), verdict.0),
            verdict.1 == self,
    {
        proof {
            use_type_invariant(&self);
        }
        let mut predicate = self.predicate;
        let passed = predicate(item);
        (passed, Guard { predicate, source: PhantomData })
    }
}

/// An iterator that accepts elements while `predicate` is true, including the first failure.
///
/// It owns its upstream and its predicate, and is in one of two states: active,
/// or exhausted for good. It looks ahead of what it hands out by no item.
///
/// The adapter is not `Clone`, whatever its upstream and predicate are. It
/// relies on its predicate being total, which is known of the predicate it was
/// built with and of no clone of it: what `Clone::clone` returns for a closure
/// depends on the `Clone` impls of what the closure captured, and a `requires`
/// of the closure may speak of just that. To have two adapters, build two.
pub struct TakeWhileWithFailure<I: Iterator, P: FnMut(&I::Item) -> bool> {
    iter: I,
    flag: bool,
    // In an `Option`, so that `next` can move the predicate out for the call
    // and back in; it is `None` only if that call never returned.
    guard: Option<Guard<I, P>>,
}

impl<I: Iterator, P: FnMut(&I::Item) -> bool> TakeWhileWithFailure<I, P> {
    /// The wrapped source, in its current position.
    pub closed spec fn upstream(self) -> I {
        self.iter
    }

    /// Whether the adapter has stopped for good.
    pub closed spec fn exhausted(self) -> bool {
        self.flag || self.guard is None
    }

    /// The predicate that decides where the adapter stops.
    pub closed spec fn predicate(self) -> P {
        self.guard->0.predicate
    }
}

impl<I: Iterator, P> Iterator for TakeWhileWithFailure<I, P> where P: FnMut(&I::Item) -> bool {
    type Item = I::Item;

    /// Pulls the next item.
    ///
    /// An exhausted adapter hands out nothing and stays as it is, upstream
    /// included. Otherwise the pull is one call of the upstream's own `next`,
    /// whatever the upstream is: it takes the upstream from where it stood to
    /// where it stands now, and what it returned is what is handed out, an
    /// item or the end. The predicate is run on an item that came, and the
    /// adapter is exhausted afterwards exactly if it returned false.
    ///
    /// Where the upstream keeps the iterator laws, the same is said over the
    /// items it has left: the item is the first of them, and for a predicate
    /// that computes `f` the call is one [`AdapterState::pull`] under `f`.
    #[inline]
    fn next(&mut self) -> (item: Option<I::Item>)
        ensures
            final(self).predicate() == old(self).predicate(),
            final(self).upstream().obeys_prophetic_iter_laws()
                == old(self).upstream().obeys_prophetic_iter_laws(),
            old(self).exhausted() ==> item is None && *final(self) == *old(self),
            !old(self).exhausted() ==> exists|pulled: &mut I|
                mut_ref_current(pulled) == old(self).upstream()
                    && mut_ref_future(pulled) == final(self).upstream()
                    && #[trigger] call_ensures(<I as Iterator>::next, (pulled,), item),
            !old(self).exhausted() ==> match item {
                Some(x) => call_ensures(old(self).predicate(), (&x,), !final(self).exhausted()),
                None => !final(self).exhausted(),
            },
            old(self).upstream().obeys_prophetic_iter_laws() && !old(self).exhausted() ==> {
                let left = old(self).upstream().remaining();
                if left.len() > 0 {
                    item == Some(left[0]) && final(self).upstream().remaining() == left.drop_first()
                } else {
                    item is None && final(self).upstream().remaining() == left
                }
            },
            old(self).upstream().obeys_prophetic_iter_laws() ==> forall|f: spec_fn(I::Item) -> bool|
                #[trigger] computes(old(self).predicate(), f) ==> (
                    item,
                    (AdapterState {
                        exhausted: final(self).exhausted(),
                        upstream: final(self).upstream().remaining(),
                    }),
                ) == (AdapterState {
                    exhausted: old(self).exhausted(),
                    upstream: old(self).upstream().remaining(),
                }).pull(f),
            old(self).upstream().obeys_prophetic_iter_laws() ==> (old(self).upstream().decrease() is Some
                <==> final(self).upstream().decrease() is Some),
            old(self).upstream().obeys_prophetic_iter_laws() && item is Some
                && final(self).upstream().decrease() is Some ==> decreases_to!(
                old(self).upstream().decrease()->0 => final(self).upstream().decrease()->0
            ),
    {
        if self.flag {
            return None;
        }
        match self.guard.take() {
            None => None,
            Some(guard) => match self.iter.next() {
                None => {
                    self.guard = Some(guard);
                    None
                },
                Some(x) => {
                    let (passed, guard) = guard.test(&x);
                    self.guard = Some(guard);
                    if !passed {
                        self.flag = true;
                    }
                    Some(x)
                },
            },
        }
    }

    /// Bounds on the number of items still to come: no lower bound, since the
    /// very next item may fail, and the upper bound that the upstream reports
    /// of itself as it now stands.
    #[inline]
    fn size_hint(&self) -> (hint: (usize, Option<usize>))
        ensures
            hint.0 == 0,
            exists|reported: (usize, Option<usize>)| #[trigger]
                reported_by(self.upstream(), reported) && hint == (0usize, reported.1),
    {
        let reported = size_hint_of(&self.iter);
        assert(reported_by(self.upstream(), reported));
        hint_over(reported)
    }
}

/// The iterator laws of `vstd` are stated over a prophecy of the items to
/// come. The adapter does not claim them: what it does is stated in the
/// contract of its `next`, over the prophecy of its upstream.
impl<I: Iterator, P> IteratorSpecImpl for TakeWhileWithFailure<I, P> where P: FnMut(&I::Item) -> bool {
    open spec fn obeys_prophetic_iter_laws(&self) -> bool {
        false
    }

    open spec fn remaining(&self) -> Seq<Self::Item> {
        Seq::empty()
    }

    open spec fn will_return_none(&self) -> bool {
        self.exhausted()
    }

    open spec fn decrease(&self) -> Option<nat> {
        self.upstream().decrease()
    }

    open spec fn initial_value_relation(&self, init: &Self) -> bool {
        true
    }

    open spec fn peek(&self, index: int) -> Option<Self::Item> {
        None
    }
}

/// Adds [`take_while_with_failure`](TakeWhileWithFailureIterator::take_while_with_failure)
/// to every iterator.
pub trait TakeWhileWithFailureIterator: Iterator {
    /// Creates an iterator that yields elements as long as the predicate returns true.
    /// Additionally, it includes the first element that returns false, after which no further
    /// elements will be yielded.
    ///
    /// This can be useful if, for example, you would like to read a stream until the first error
    /// and then stop processing immediately without losing the error.
    ///
    /// Nothing is pulled and nothing is tested here: the adapter starts active,
    /// over `self` as it stands. The predicate has to be total, since the
    /// adapter will run it on whatever the upstream yields.
    ///
    /// Totality is asked over `Self::Item`. Where `self` is itself an adapter
    /// that holds a closure or a function, Verus does not resolve that type at
    /// the call: make the call in a function that is generic over the inner
    /// source `I`, and state there that the predicate is total over `I::Item`.
    ///
    /// # Examples
    ///
    /// ```
    /// use take_while_with_failure::TakeWhileWithFailureIterator;
    ///
    /// let a = [1,2,3,4];
    /// let filtered: Vec<&i64> = a.iter().take_while_with_failure(|&x| *x < 2).collect();
    /// assert_eq!(filtered, [&1, &2]);
    /// ```
    ///
    /// ```
    /// use take_while_with_failure::TakeWhileWithFailureIterator;
    ///
    /// let a = [1, 2, 3, 4, 5];
    /// let mut taken = a.iter().take_while_with_failure(|&x| *x < 2);
    /// assert_eq!(taken.next(), Some(&1));
    /// assert_eq!(taken.next(), Some(&2));
    /// assert!(taken.next().is_none());
    /// ```
    fn take_while_with_failure<P>(self, predicate: P) -> (adapter: TakeWhileWithFailure<
        Self,
        P,
    >) where P: FnMut(&Self::Item) -> bool, Self: Sized
        requires
            total::<Self::Item, P>(predicate),
        ensures
            adapter.upstream() == self,
            adapter.predicate() == predicate,
            !adapter.exhausted(),
    ;
}

impl<I: Iterator + ?Sized> TakeWhileWithFailureIterator for I {
    fn take_while_with_failure<P>(self, predicate: P) -> (adapter: TakeWhileWithFailure<
        Self,
        P,
    >) where P: FnMut(&Self::Item) -> bool, Self: Sized {
        TakeWhileWithFailure { iter: self, flag: false, guard: Some(Guard::new(predicate)) }
    }
}

} // verus!
