//! The mathematics of the adapter: what it produces from a source, as a
//! sequence, and how a single pull changes it, as a step on a ghost state.
use vstd::prelude::*;

verus! {

/// Every item of `s` satisfies `f`.
pub open spec fn all_pass<T>(s: Seq<T>, f: spec_fn(T) -> bool) -> bool {
    forall|i: int| 0 <= i < s.len() ==> f(#[trigger] s[i])
}

/// `s[k]` is the first item of `s` that does not satisfy `f`.
pub open spec fn first_failure_at<T>(s: Seq<T>, f: spec_fn(T) -> bool, k: int) -> bool {
    &&& 0 <= k < s.len()
    &&& !f(s[k])
    &&& all_pass(s.take(k), f)
}

/// The sequence produced from the source `s` under the predicate `f`: all of
/// `s` where every item passes, else `s` up to and including its first failure.
pub open spec fn produced<T>(s: Seq<T>, f: spec_fn(T) -> bool) -> Seq<T> {
    if all_pass(s, f) {
        s
    } else {
        s.take((choose|k: int| first_failure_at(s, f, k)) + 1)
    }
}

/// A sequence has at most one first failure.
pub proof fn first_failure_is_unique<T>(s: Seq<T>, f: spec_fn(T) -> bool, j: int, k: int)
    requires
        first_failure_at(s, f, j),
        first_failure_at(s, f, k),
    ensures
        j == k,
{
    if j < k {
        assert(s.take(k)[j] == s[j]);
    } else if k < j {
        assert(s.take(j)[k] == s[k]);
    }
}

/// A sequence with an item that fails has a first failure, at or before it.
pub proof fn first_failure_exists<T>(s: Seq<T>, f: spec_fn(T) -> bool, j: int) -> (k: int)
    requires
        0 <= j < s.len(),
        !f(s[j]),
    ensures
        first_failure_at(s, f, k),
        k <= j,
    decreases j,
{
    if all_pass(s.take(j), f) {
        j
    } else {
        let i = choose|i: int| 0 <= i < s.take(j).len() && !f(#[trigger] s.take(j)[i]);
        first_failure_exists(s, f, i)
    }
}

/// Where `s[k]` is the first failure, the produced sequence is `s` up to and
/// including `s[k]`.
pub proof fn produced_up_to_first_failure<T>(s: Seq<T>, f: spec_fn(T) -> bool, k: int)
    requires
        first_failure_at(s, f, k),
    ensures
        produced(s, f) == s.take(k + 1),
{
    let c = choose|c: int| first_failure_at(s, f, c);
    first_failure_is_unique(s, f, c, k);
}

/// The produced sequence is the longest prefix of the source in which every
/// item but possibly the last passes; where the source holds an item that
/// fails, the first such item is included, as the last one.
pub proof fn produced_includes_failure<T>(s: Seq<T>, f: spec_fn(T) -> bool)
    ensures
        produced(s, f).len() <= s.len(),
        produced(s, f) == s.take(produced(s, f).len() as int),
        forall|i: int| 0 <= i < produced(s, f).len() - 1 ==> f(#[trigger] produced(s, f)[i]),
        forall|n: int| 0 <= n < s.len() && all_pass(#[trigger] s.take(n), f) ==> n < produced(s, f).len(),
        !all_pass(s, f) ==> first_failure_at(s, f, produced(s, f).len() - 1),
        all_pass(s, f) ==> produced(s, f) == s,
{
    if !all_pass(s, f) {
        let j = choose|j: int| 0 <= j < s.len() && !f(#[trigger] s[j]);
        let k = first_failure_exists(s, f, j);
        produced_up_to_first_failure(s, f, k);
        assert forall|i: int| 0 <= i < k implies f(#[trigger] produced(s, f)[i]) by {
            assert(s.take(k)[i] == s[i]);
        }
        assert forall|n: int| 0 <= n < s.len() && all_pass(#[trigger] s.take(n), f) implies n
            <= k by {
            if n > k {
                assert(s.take(n)[k] == s[k]);
            }
        }
    }
}

/// Where every item of the source passes, the produced sequence is the source
/// itself, unchanged and in order.
pub proof fn produced_all_pass<T>(s: Seq<T>, f: spec_fn(T) -> bool)
    requires
        all_pass(s, f),
    ensures
        produced(s, f) == s,
{
}

/// Where the first item of the source fails, the produced sequence is that
/// item alone.
pub proof fn produced_immediate_failure<T>(s: Seq<T>, f: spec_fn(T) -> bool)
    requires
        s.len() > 0,
        !f(s[0]),
    ensures
        produced(s, f) == seq![s[0]],
{
    produced_up_to_first_failure(s, f, 0);
}

/// Nothing is produced from an empty source, whatever the predicate.
pub proof fn produced_empty_source<T>(f: spec_fn(T) -> bool)
    ensures
        produced(Seq::<T>::empty(), f) == Seq::<T>::empty(),
{
}

/// The produced sequence, told from the head of the source: the head, and
/// behind it what the rest of the source produces if the head passes.
pub proof fn produced_by_head<T>(s: Seq<T>, f: spec_fn(T) -> bool)
    requires
        s.len() > 0,
    ensures
        produced(s, f) == if f(s[0]) {
            seq![s[0]] + produced(s.drop_first(), f)
        } else {
            seq![s[0]]
        },
{
    let tail = s.drop_first();
    if !f(s[0]) {
        produced_immediate_failure(s, f);
    } else if all_pass(s, f) {
        assert forall|i: int| 0 <= i < tail.len() implies f(#[trigger] tail[i]) by {
            assert(tail[i] == s[i + 1]);
        }
        assert(s =~= seq![s[0]] + tail);
    } else {
        let j = choose|j: int| 0 <= j < s.len() && !f(#[trigger] s[j]);
        let k = first_failure_exists(s, f, j);
        produced_up_to_first_failure(s, f, k);
        assert forall|i: int| 0 <= i < k - 1 implies f(#[trigger] tail.take(k - 1)[i]) by {
            assert(s.take(k)[i + 1] == s[i + 1]);
        }
        produced_up_to_first_failure(tail, f, k - 1);
        assert(s.take(k + 1) =~= seq![s[0]] + tail.take(k));
    }
}

/// The adapter as a value: its flag, and the items that its upstream has yet
/// to yield.
pub struct AdapterState<T> {
    pub exhausted: bool,
    pub upstream: Seq<T>,
}

impl<T> AdapterState<T> {
    /// The adapter as constructed over `source`.
    pub open spec fn start(source: Seq<T>) -> Self {
        AdapterState { exhausted: false, upstream: source }
    }

    /// One pull: the item handed out, if any, and the adapter afterwards.
    pub open spec fn pull(self, f: spec_fn(T) -> bool) -> (Option<T>, Self) {
        if self.exhausted || self.upstream.len() == 0 {
            (None, self)
        } else {
            (
                Some(self.upstream[0]),
                AdapterState { exhausted: !f(self.upstream[0]), upstream: self.upstream.drop_first() },
            )
        }
    }

    /// The items that are still to be handed out, in order.
    pub open spec fn pending(self, f: spec_fn(T) -> bool) -> Seq<T> {
        if self.exhausted {
            Seq::empty()
        } else {
            produced(self.upstream, f)
        }
    }

    /// The adapter after `n` pulls.
    pub open spec fn after(self, f: spec_fn(T) -> bool, n: nat) -> Self
        decreases n,
    {
        if n == 0 {
            self
        } else {
            self.pull(f).1.after(f, (n - 1) as nat)
        }
    }

    /// The items that `n` pulls hand out, in order.
    pub open spec fn yielded(self, f: spec_fn(T) -> bool, n: nat) -> Seq<T>
        decreases n,
    {
        if n == 0 {
            Seq::empty()
        } else {
            match self.pull(f).0 {
                Some(item) => seq![item] + self.pull(f).1.yielded(f, (n - 1) as nat),
                None => self.pull(f).1.yielded(f, (n - 1) as nat),
            }
        }
    }
}

/// A pull hands out the first pending item and leaves the others pending; with
/// nothing pending it hands out nothing and leaves the adapter as it is.
pub proof fn pull_takes_first_pending<T>(st: AdapterState<T>, f: spec_fn(T) -> bool)
    ensures
        st.pending(f).len() == 0 ==> st.pull(f) == (None::<T>, st),
        st.pending(f).len() > 0 ==> st.pull(f).0 == Some(st.pending(f)[0]) && st.pull(f).1.pending(
            f,
        ) == st.pending(f).drop_first(),
{
    if !st.exhausted && st.upstream.len() > 0 {
        produced_by_head(st.upstream, f);
    }
}

/// The pulls hand out the pending items in order, and nothing else: `n` pulls
/// hand out the first `n` of them, or all where fewer are pending.
pub proof fn pulls_yield_pending<T>(st: AdapterState<T>, f: spec_fn(T) -> bool, n: nat)
    ensures
        n <= st.pending(f).len() ==> st.yielded(f, n) == st.pending(f).take(n as int),
        n <= st.pending(f).len() ==> st.after(f, n).pending(f) == st.pending(f).skip(n as int),
        n >= st.pending(f).len() ==> st.yielded(f, n) == st.pending(f),
        n >= st.pending(f).len() ==> st.after(f, n).pending(f).len() == 0,
    decreases n,
{
    let pending = st.pending(f);
    if n > 0 {
        let m = (n - 1) as nat;
        pull_takes_first_pending(st, f);
        pulls_yield_pending(st.pull(f).1, f, m);
        if 0 < pending.len() {
            let tail = pending.drop_first();
            if n <= pending.len() {
                assert(pending.take(n as int) =~= seq![pending[0]] + tail.take(m as int));
                assert(pending.skip(n as int) =~= tail.skip(m as int));
            } else {
                assert(pending =~= seq![pending[0]] + tail);
            }
        }
    }
}

/// Pulled from its start, the adapter over `s` hands out `produced(s, f)`, item
/// by item, and then nothing more: `s.len()` pulls are enough to have it all.
pub proof fn pulls_yield_produced<T>(s: Seq<T>, f: spec_fn(T) -> bool, n: nat)
    ensures
        n <= produced(s, f).len() ==> AdapterState::start(s).yielded(f, n) == produced(s, f).take(
            n as int,
        ),
        n >= produced(s, f).len() ==> AdapterState::start(s).yielded(f, n) == produced(s, f),
        produced(s, f).len() <= s.len(),
{
    pulls_yield_pending(AdapterState::start(s), f, n);
    produced_includes_failure(s, f);
}

/// Once a pull hands out nothing, every later pull hands out nothing, and the
/// adapter stays as it is, its upstream included.
pub proof fn exhaustion_is_permanent<T>(st: AdapterState<T>, f: spec_fn(T) -> bool, n: nat)
    requires
        st.pull(f).0 is None,
    ensures
        st.after(f, n) == st,
        st.after(f, n).pull(f).0 is None,
        st.yielded(f, n) == Seq::<T>::empty(),
    decreases n,
{
    if n > 0 {
        exhaustion_is_permanent(st, f, (n - 1) as nat);
    }
}

/// After any number of pulls, the items that the upstream has lost are the
/// items handed out, no more: the item that fails is the last one taken.
pub proof fn upstream_loses_what_is_yielded<T>(st: AdapterState<T>, f: spec_fn(T) -> bool, n: nat)
    ensures
        st.upstream == st.yielded(f, n) + st.after(f, n).upstream,
    decreases n,
{
    if n > 0 {
        let m = (n - 1) as nat;
        let next = st.pull(f).1;
        upstream_loses_what_is_yielded(next, f, m);
        if st.pull(f).0 is Some {
            let head = seq![st.upstream[0]];
            let kept = next.after(f, m).upstream;
            assert(st.upstream =~= head + (next.yielded(f, m) + kept));
            assert(st.upstream =~= (head + next.yielded(f, m)) + kept);
        }
    }
}

/// An adapter that is not exhausted after `n` pulls has handed out only items
/// that pass.
pub proof fn active_only_while_items_pass<T>(st: AdapterState<T>, f: spec_fn(T) -> bool, n: nat)
    requires
        !st.after(f, n).exhausted,
    ensures
        all_pass(st.yielded(f, n), f),
    decreases n,
{
    if n > 0 {
        let m = (n - 1) as nat;
        let next = st.pull(f).1;
        active_only_while_items_pass(next, f, m);
        if next.exhausted {
            exhaustion_is_permanent(next, f, m);
        }
        if st.pull(f).0 is Some {
            let item = st.pull(f).0->0;
            let more = next.yielded(f, m);
            assert forall|i: int| 0 <= i < (seq![item] + more).len() implies f(
                #[trigger] (seq![item] + more)[i],
            ) by {
                if i > 0 {
                    assert((seq![item] + more)[i] == more[i - 1]);
                }
            }
        }
    }
}

/// Where the last item of `head` is the first to fail, `head.len()` pulls hand
/// out `head` and exhaust the adapter, however long the source goes on behind
/// it: `rest` is left in the upstream, unread.
pub proof fn rest_is_never_read<T>(head: Seq<T>, rest: Seq<T>, f: spec_fn(T) -> bool, n: nat)
    requires
        first_failure_at(head, f, head.len() - 1),
        n >= head.len(),
    ensures
        produced(head + rest, f) == head,
        AdapterState::start(head + rest).yielded(f, n) == head,
        AdapterState::start(head + rest).after(f, n) == (AdapterState { exhausted: true, upstream: rest }),
{
    let s = head + rest;
    let k = head.len() - 1;
    let st = AdapterState::start(s);
    let end = st.after(f, n);
    // The first failure of `head` is the first failure of `s`.
    assert(s.take(k) =~= head.take(k));
    produced_up_to_first_failure(s, f, k);
    assert(s.take(k + 1) =~= head);
    // So `n` pulls hand out `head`, and what the upstream keeps is `rest`.
    pulls_yield_pending(st, f, n);
    upstream_loses_what_is_yielded(st, f, n);
    assert(end.upstream =~= rest) by {
        assert forall|i: int| 0 <= i < rest.len() implies end.upstream[i] == rest[i] by {
            assert(s[head.len() + i] == rest[i]);
        }
    }
    // An adapter still active would have handed out passing items only.
    if !end.exhausted {
        active_only_while_items_pass(st, f, n);
    }
}

} // verus!
