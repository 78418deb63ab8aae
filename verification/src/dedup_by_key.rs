use vstd::prelude::*;
use vstd::std_specs::cmp::PartialEqSpec;
use crate::pull::{items_in, Pull, Step};
use vstd::laws_eq::obeys_eq_spec_properties;
use crate::runs::{compared, forwarded, lemma_forwarded_is_run_heads, run_heads, suppressed};

verus! {

/// Suppresses an item whose key equals the key of the one forwarded just
/// before it. Only the key is kept, never the item. Once the wrapped stream
/// has closed, so has the adapter, for good.
pub struct DedupByKey<K, F> {
    key_fn: F,
    prev_key: Option<K>,
    closed: bool,
}

/// The key that is kept, whether the adapter has closed, and the answer,
/// when `prev` is the key kept so far, `closed` says whether the wrapped
/// stream has closed before, and `polled` is reported of it: an item
/// together with the key derived from it, or that it has nothing for now, or
/// that it has closed.
pub open spec fn after_poll<T, K: PartialEq>(
    prev: Option<K>,
    closed: bool,
    polled: Pull<(T, K)>,
) -> (Option<K>, bool, Step<T>) {
    if closed {
        (prev, true, Step::Return(Pull::Closed))
    } else {
        match polled {
            Pull::Item((item, key)) => if suppressed(prev, key) {
                (prev, false, Step::Again)
            } else {
                (Some(key), false, Step::Return(Pull::Item(item)))
            },
            Pull::Pending => (prev, false, Step::Return(Pull::Pending)),
            Pull::Closed => (prev, true, Step::Return(Pull::Closed)),
        }
    }
}

/// The items that reach the consumer while `polls` is reported of the
/// wrapped stream, one report after the other, where `prev` is the key kept
/// at the start and `closed` says whether the stream has closed before.
pub open spec fn emitted<T, K: PartialEq>(
    prev: Option<K>,
    closed: bool,
    polls: Seq<Pull<(T, K)>>,
) -> Seq<T>
    decreases polls.len(),
{
    if polls.len() == 0 {
        Seq::empty()
    } else {
        let (kept, shut, step) = after_poll(prev, closed, polls[0]);
        let rest = emitted(kept, shut, polls.drop_first());
        match step {
            Step::Return(Pull::Item(item)) => seq![item] + rest,
            _ => rest,
        }
    }
}

/// The keys of `items` under `key`.
pub open spec fn keys_of<T, K>(items: Seq<T>, key: spec_fn(T) -> K) -> Seq<K> {
    Seq::new(items.len(), |i: int| key(items[i]))
}

/// The reports `polls` of a stream, each item with the key that `key`
/// derives from it.
pub open spec fn keyed<T, K>(polls: Seq<Pull<T>>, key: spec_fn(T) -> K) -> Seq<Pull<(T, K)>> {
    Seq::new(
        polls.len(),
        |i: int|
            match polls[i] {
                Pull::Item(item) => Pull::Item((item, key(item))),
                Pull::Pending => Pull::Pending,
                Pull::Closed => Pull::Closed,
            },
    )
}

/// Whether `key` says what `key_fn` returns: whatever `key_fn` can return
/// for an item is the item's key under `key`.
pub open spec fn derives<T, K, F: FnMut(&T) -> K>(key_fn: F, key: spec_fn(T) -> K) -> bool {
    forall|item: T, derived: K| #[trigger]
        call_ensures(key_fn, (&item,), derived) ==> derived == key(item)
}

/// Once the wrapped stream has closed, nothing reaches the consumer any
/// more, whatever is reported of the stream afterwards.
pub proof fn lemma_nothing_after_closed<T, K: PartialEq>(
    prev: Option<K>,
    polls: Seq<Pull<(T, K)>>,
)
    ensures
        emitted(prev, true, polls) == Seq::<T>::empty(),
        forall|polled: Pull<(T, K)>|
            #[trigger] after_poll(prev, true, polled) == (
                prev,
                true,
                Step::Return(Pull::<T>::Closed),
            ),
    decreases polls.len(),
{
    if polls.len() > 0 {
        lemma_nothing_after_closed(prev, polls.drop_first());
    }
}

/// What reaches the consumer depends on the items that the wrapped stream
/// produces before it closes and not on when it produces them: it is what
/// passes the comparison with the key of the item forwarded last.
pub proof fn lemma_emitted_of_items<T, K: PartialEq>(
    prev: Option<K>,
    polls: Seq<Pull<T>>,
    key: spec_fn(T) -> K,
)
    ensures
        emitted(prev, false, keyed(polls, key)) == forwarded(
            prev,
            items_in(polls),
            keys_of(items_in(polls), key),
        ),
    decreases polls.len(),
{
    if polls.len() > 0 {
        let later = items_in(polls.drop_first());
        let (kept, shut, step) = after_poll(prev, false, keyed(polls, key)[0]);
        assert(keyed(polls, key).drop_first() =~= keyed(polls.drop_first(), key));
        if polls[0] is Closed {
            lemma_nothing_after_closed(prev, keyed(polls.drop_first(), key));
        } else {
            lemma_emitted_of_items(kept, polls.drop_first(), key);
            if polls[0] is Item {
                assert(items_in(polls).drop_first() =~= later);
                assert(keys_of(items_in(polls), key).drop_first() =~= keys_of(later, key));
            }
        }
    }
}

/// Whatever a stream reports, and however often it has nothing for now, and
/// for any key function: exactly the first item of each maximal run of
/// consecutive items with equal keys that the stream produces before it
/// closes reaches the consumer, whenever the keys' equality is symmetric and
/// transitive.
pub proof fn lemma_dedup_by_key_keeps_run_heads<T, K: PartialEq>(
    polls: Seq<Pull<T>>,
    key: spec_fn(T) -> K,
)
    requires
        obeys_eq_spec_properties::<K>(),
    ensures
        emitted(None::<K>, false, keyed(polls, key)) == run_heads(
            None::<K>,
            items_in(polls),
            keys_of(items_in(polls), key),
        ),
{
    lemma_emitted_of_items(None::<K>, polls, key);
    lemma_forwarded_is_run_heads(items_in(polls), keys_of(items_in(polls), key));
}

impl<K, F> DedupByKey<K, F> {
    /// An adapter that has forwarded nothing yet and derives keys with
    /// `key_fn`.
    pub fn new(key_fn: F) -> (dedup: Self)
        ensures
            dedup.prev_key() == None::<K>,
            dedup.key_fn() == key_fn,
            !dedup.is_closed(),
    {
        DedupByKey { key_fn, prev_key: None, closed: false }
    }

    /// The key of the item forwarded last, if any was.
    pub closed spec fn prev_key(&self) -> Option<K> {
        self.prev_key
    }

    /// The function that derives an item's key.
    pub closed spec fn key_fn(&self) -> F {
        self.key_fn
    }

    /// Whether the wrapped stream has reported that it has closed.
    pub closed spec fn is_closed(&self) -> bool {
        self.closed
    }

    /// What to do first when the consumer pulls the adapter: pull the
    /// wrapped stream, unless it has closed. A closed stream is not pulled
    /// again; the consumer is told that the adapter has closed.
    pub fn begin<T>(&self) -> (step: Step<T>)
        ensures
            step == if self.is_closed() {
                Step::Return(Pull::<T>::Closed)
            } else {
                Step::<T>::Again
            },
    {
        if self.closed {
            Step::Return(Pull::Closed)
        } else {
            Step::Again
        }
    }
}

impl<K: PartialEq, F> DedupByKey<K, F> {
    /// Takes what a pull of the wrapped stream reported.
    ///
    /// Once the stream has reported `Closed`, the adapter is finished: the
    /// answer to that report and to every later one, whatever it is, is
    /// `Closed` for the consumer; no key is derived any more, and the kept
    /// key stays.
    ///
    /// Before that, `Pending` goes to the consumer as it is. For an item the
    /// key is derived, once. If it equals the key of the item forwarded
    /// last, the item is consumed and the wrapped stream is to be pulled
    /// again; otherwise the item is forwarded and its key kept. The first
    /// item is always forwarded.
    ///
    /// The key is one that the key function can return for the item, and
    /// which of the two the item meets is what `==` answers for the kept key
    /// and that key. Where the key type's `==` is specified, the kept key
    /// and the answer are those of `after_poll`.
    pub fn poll_next<T>(&mut self, polled: Pull<T>) -> (step: Step<T>) where F: FnMut(&T) -> K
        requires
            !old(self).is_closed() && polled is Item ==> call_requires(
                old(self).key_fn(),
                (&polled->Item_0,),
            ),
        ensures
            final(self).key_fn() == old(self).key_fn(),
            final(self).is_closed() == (old(self).is_closed() || polled is Closed),
            old(self).is_closed() ==> step == Step::Return(Pull::<T>::Closed)
                && final(self).prev_key() == old(self).prev_key(),
            !old(self).is_closed() && polled is Pending ==> step == Step::Return(
                Pull::<T>::Pending,
            ) && final(self).prev_key() == old(self).prev_key(),
            !old(self).is_closed() && polled is Closed ==> step == Step::Return(
                Pull::<T>::Closed,
            ) && final(self).prev_key() == old(self).prev_key(),
            !old(self).is_closed() && polled is Item ==> exists|key: K|
                {
                    &&& #[trigger] call_ensures(old(self).key_fn(), (&polled->Item_0,), key)
                    &&& step == Step::<T>::Again || step == Step::Return(polled)
                    &&& step is Again ==> final(self).prev_key() == old(self).prev_key()
                    &&& step is Return ==> final(self).prev_key() == Some(key)
                    &&& old(self).prev_key() is None ==> step is Return
                    &&& old(self).prev_key() matches Some(prev) ==> compared(
                        prev,
                        key,
                        step is Again,
                    )
                    &&& K::obeys_eq_spec() ==> (
                        final(self).prev_key(),
                        final(self).is_closed(),
                        step,
                    ) == after_poll(
                        old(self).prev_key(),
                        old(self).is_closed(),
                        Pull::Item((polled->Item_0, key)),
                    )
                },
    {
        if self.closed {
            return Step::Return(Pull::Closed);
        }
        match polled {
            Pull::Item(item) => {
                let key = (self.key_fn)(&item);
                let repeated = match &self.prev_key {
                    Some(prev) => *prev == key,
                    None => false,
                };
                if repeated {
                    Step::Again
                } else {
                    self.prev_key = Some(key);
                    Step::Return(Pull::Item(item))
                }
            },
            Pull::Pending => Step::Return(Pull::Pending),
            Pull::Closed => {
                self.closed = true;
                Step::Return(Pull::Closed)
            },
        }
    }

    /// Takes a whole run of reports of the wrapped stream, one after the
    /// other, and returns the items that reach the consumer, in their
    /// order.
    ///
    /// Where the key type's `==` is specified and `key` says what the key
    /// function returns, these are the items of `emitted`. For a fresh
    /// adapter and an `==` that is symmetric and transitive they are the
    /// first item of each maximal run of consecutive items with equal keys
    /// that the stream produced before it closed.
    pub fn poll_all<T>(&mut self, polls: Vec<Pull<T>>) -> (items: Vec<T>) where F: FnMut(&T) -> K
        requires
            forall|i: int|
                0 <= i < polls@.len() && (#[trigger] polls@[i]) is Item ==> call_requires(
                    old(self).key_fn(),
                    (&polls@[i]->Item_0,),
                ),
        ensures
            final(self).key_fn() == old(self).key_fn(),
            forall|key: spec_fn(T) -> K|
                K::obeys_eq_spec() && #[trigger] derives(old(self).key_fn(), key) ==> items@
                    == emitted(old(self).prev_key(), old(self).is_closed(), keyed(polls@, key)),
            forall|key: spec_fn(T) -> K|
                K::obeys_eq_spec() && #[trigger] derives(old(self).key_fn(), key)
                    && obeys_eq_spec_properties::<K>() && old(self).prev_key() is None
                    && !old(self).is_closed() ==> items@ == run_heads(
                    None::<K>,
                    items_in(polls@),
                    keys_of(items_in(polls@), key),
                ),
    {
        let ghost all = polls@;
        let ghost first = self.prev_key();
        let ghost shut = self.is_closed();
        let ghost key_fn = self.key_fn();
        let mut left = polls;
        let mut items: Vec<T> = Vec::new();
        while left.len() > 0
            invariant
                self.key_fn() == key_fn,
                forall|i: int|
                    0 <= i < left@.len() && (#[trigger] left@[i]) is Item ==> call_requires(
                        key_fn,
                        (&left@[i]->Item_0,),
                    ),
                forall|key: spec_fn(T) -> K|
                    K::obeys_eq_spec() && #[trigger] derives(key_fn, key) ==> emitted(
                        first,
                        shut,
                        keyed(all, key),
                    ) == items@ + emitted(self.prev_key(), self.is_closed(), keyed(left@, key)),
            decreases left.len(),
        {
            let ghost before = left@;
            let ghost kept = self.prev_key();
            let ghost closed = self.is_closed();
            let ghost so_far = items@;
            let polled = left.remove(0);
            assert(left@ =~= before.drop_first());
            assert(before[0] == polled);
            assert forall|i: int| 0 <= i < left@.len() && (#[trigger] left@[i]) is Item implies call_requires(
                key_fn,
                (&left@[i]->Item_0,),
            ) by {
                assert(left@[i] == before[i + 1]);
            }
            let step = self.poll_next(polled);
            match step {
                Step::Return(Pull::Item(item)) => {
                    items.push(item);
                },
                _ => {},
            }
            assert forall|key: spec_fn(T) -> K|
                K::obeys_eq_spec() && #[trigger] derives(key_fn, key) implies emitted(
                first,
                shut,
                keyed(all, key),
            ) == items@ + emitted(self.prev_key(), self.is_closed(), keyed(left@, key)) by {
                let rest = emitted(self.prev_key(), self.is_closed(), keyed(left@, key));
                assert(keyed(before, key).drop_first() =~= keyed(left@, key));
                assert(emitted(first, shut, keyed(all, key)) == so_far + emitted(
                    kept,
                    closed,
                    keyed(before, key),
                ));
                assert(items@ + rest =~= so_far + emitted(kept, closed, keyed(before, key)));
            }
        }
        proof {
            assert forall|key: spec_fn(T) -> K|
                K::obeys_eq_spec() && #[trigger] derives(key_fn, key) implies items@ == emitted(
                first,
                shut,
                keyed(all, key),
            ) by {
                assert(items@ + emitted(self.prev_key(), self.is_closed(), keyed(left@, key))
                    =~= items@);
            }
            assert forall|key: spec_fn(T) -> K|
                K::obeys_eq_spec() && #[trigger] derives(key_fn, key)
                    && obeys_eq_spec_properties::<K>() && first is None && !shut implies items@
                == run_heads(None::<K>, items_in(all), keys_of(items_in(all), key)) by {
                lemma_dedup_by_key_keeps_run_heads(all, key);
            }
        }
        items
    }
}

} // verus!
