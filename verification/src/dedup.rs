use vstd::prelude::*;
use vstd::std_specs::cmp::PartialEqSpec;
use crate::pull::{items_in, lemma_items_in_produced, produced, Pull, Step};
use vstd::laws_eq::obeys_eq_spec_properties;
use crate::runs::{
    compared, forwarded, lemma_forwarded_has_no_repeats, lemma_forwarded_is_run_heads,
    lemma_forwarded_keeps_all_without_repeats, run_heads, suppressed,
};

verus! {

/// Suppresses an item that equals the one forwarded just before it. Once the
/// wrapped stream has closed, so has the adapter, for good.
pub struct Dedup<T> {
    prev_item: Option<T>,
    closed: bool,
}

impl<T> View for Dedup<T> {
    type V = Option<T>;

    /// The copy that is kept of the item forwarded last, if any was.
    closed spec fn view(&self) -> Option<T> {
        self.prev_item
    }
}

/// Whether every clone of a `T` equals what it was cloned from.
pub open spec fn clones_are_equal<T: Clone>() -> bool {
    forall|a: T, b: T| #[trigger] cloned(a, b) ==> a == b
}

/// The copy that is kept, whether the adapter has closed, and the answer,
/// when `prev` is the copy kept so far, `closed` says whether the wrapped
/// stream has closed before, and `polled` is reported of it. The copy of a
/// forwarded item is taken to equal the item.
pub open spec fn after_poll<T: PartialEq>(prev: Option<T>, closed: bool, polled: Pull<T>) -> (
    Option<T>,
    bool,
    Step<T>,
) {
    if closed {
        (prev, true, Step::Return(Pull::Closed))
    } else {
        match polled {
            Pull::Item(item) => if suppressed(prev, item) {
                (prev, false, Step::Again)
            } else {
                (Some(item), false, Step::Return(Pull::Item(item)))
            },
            Pull::Pending => (prev, false, Step::Return(Pull::Pending)),
            Pull::Closed => (prev, true, Step::Return(Pull::Closed)),
        }
    }
}

/// The items that reach the consumer while `polls` is reported of the
/// wrapped stream, one report after the other, where `prev` is the copy kept
/// at the start and `closed` says whether the stream has closed before.
pub open spec fn emitted<T: PartialEq>(prev: Option<T>, closed: bool, polls: Seq<Pull<T>>) -> Seq<T>
    decreases polls.len(),
{
    if polls.len() == 0 {
        Seq::empty()
    } else {
        let (kept, shut, step) = after_poll(prev, closed, polls[0]);
        let rest = emitted(kept, shut, polls.drop_first());
        match step {
            Step::Return(Pull::Item(item)) => seq![item] + rest,
            _ => rest,
        }
    }
}

/// Once the wrapped stream has closed, nothing reaches the consumer any
/// more, whatever is reported of the stream afterwards.
pub proof fn lemma_nothing_after_closed<T: PartialEq>(prev: Option<T>, polls: Seq<Pull<T>>)
    ensures
        emitted(prev, true, polls) == Seq::<T>::empty(),
        forall|polled: Pull<T>|
            #[trigger] after_poll(prev, true, polled) == (
                prev,
                true,
                Step::Return(Pull::<T>::Closed),
            ),
    decreases polls.len(),
{
    if polls.len() > 0 {
        lemma_nothing_after_closed(prev, polls.drop_first());
    }
}

/// What reaches the consumer depends on the items that the wrapped stream
/// produces before it closes and not on when it produces them: it is what
/// passes the comparison with the item forwarded last.
pub proof fn lemma_emitted_of_items<T: PartialEq>(prev: Option<T>, polls: Seq<Pull<T>>)
    ensures
        emitted(prev, false, polls) == forwarded(prev, items_in(polls), items_in(polls)),
    decreases polls.len(),
{
    if polls.len() > 0 {
        let later = items_in(polls.drop_first());
        let (kept, shut, step) = after_poll(prev, false, polls[0]);
        if polls[0] is Closed {
            lemma_nothing_after_closed(prev, polls.drop_first());
        } else {
            lemma_emitted_of_items(kept, polls.drop_first());
            if polls[0] is Item {
                assert(items_in(polls).drop_first() =~= later);
            }
        }
    }
}

/// Whatever a stream reports, and however often it has nothing for now,
/// exactly the first item of each maximal run of consecutive equal items
/// that it produces before it closes reaches the consumer, whenever the
/// items' equality is symmetric and transitive.
pub proof fn lemma_dedup_keeps_run_heads<T: PartialEq>(polls: Seq<Pull<T>>)
    requires
        obeys_eq_spec_properties::<T>(),
    ensures
        emitted(None::<T>, false, polls) == run_heads(
            None::<T>,
            items_in(polls),
            items_in(polls),
        ),
{
    lemma_emitted_of_items(None::<T>, polls);
    lemma_forwarded_is_run_heads(items_in(polls), items_in(polls));
}

/// Deduplicating twice gives what deduplicating once gives: of a stream that
/// produces what reached the consumer of another, everything reaches the
/// consumer.
pub proof fn lemma_dedup_twice_is_dedup_once<T: PartialEq>(polls: Seq<Pull<T>>)
    ensures
        emitted(None::<T>, false, produced(emitted(None::<T>, false, polls))) == emitted(
            None::<T>,
            false,
            polls,
        ),
{
    let once = emitted(None::<T>, false, polls);
    lemma_emitted_of_items(None::<T>, polls);
    lemma_forwarded_has_no_repeats(None::<T>, items_in(polls));
    lemma_forwarded_keeps_all_without_repeats(None::<T>, once);
    lemma_items_in_produced(once);
    lemma_emitted_of_items(None::<T>, produced(once));
}

impl<T> Dedup<T> {
    /// An adapter that has forwarded nothing yet.
    pub fn new() -> (dedup: Self)
        ensures
            dedup@ == None::<T>,
            !dedup.is_closed(),
    {
        Dedup { prev_item: None, closed: false }
    }

    /// Whether the wrapped stream has reported that it has closed.
    pub closed spec fn is_closed(&self) -> bool {
        self.closed
    }

    /// What to do first when the consumer pulls the adapter: pull the
    /// wrapped stream, unless it has closed. A closed stream is not pulled
    /// again; the consumer is told that the adapter has closed.
    pub fn begin(&self) -> (step: Step<T>)
        ensures
            step == if self.is_closed() {
                Step::Return(Pull::<T>::Closed)
            } else {
                Step::<T>::Again
            },
    {
        if self.closed {
            Step::Return(Pull::Closed)
        } else {
            Step::Again
        }
    }
}

impl<T: Clone + PartialEq> Dedup<T> {
    /// Takes what a pull of the wrapped stream reported.
    ///
    /// Once the stream has reported `Closed`, the adapter is finished: the
    /// answer to that report and to every later one, whatever it is, is
    /// `Closed` for the consumer, and nothing else changes.
    ///
    /// Before that, `Pending` goes to the consumer as it is. An item that
    /// equals the one forwarded last is consumed, and the wrapped stream is
    /// to be pulled again; any other item is forwarded, and a clone of it
    /// is kept to compare the next one with. The first item is always
    /// forwarded. Which of the two an item meets is what `==` answers for
    /// the kept clone and the item.
    ///
    /// Where the item type's `==` is specified, the answer is that of
    /// `after_poll`; where every clone equals its source too, so is the
    /// copy that is kept.
    pub fn poll_next(&mut self, polled: Pull<T>) -> (step: Step<T>)
        ensures
            final(self).is_closed() == (old(self).is_closed() || polled is Closed),
            old(self).is_closed() ==> step == Step::Return(Pull::<T>::Closed) && final(self)@
                == old(self)@,
            !old(self).is_closed() && polled is Pending ==> step == Step::Return(
                Pull::<T>::Pending,
            ) && final(self)@ == old(self)@,
            !old(self).is_closed() && polled is Closed ==> step == Step::Return(
                Pull::<T>::Closed,
            ) && final(self)@ == old(self)@,
            !old(self).is_closed() ==> (polled matches Pull::Item(item) ==> {
                &&& step == Step::<T>::Again || step == Step::Return(Pull::Item(item))
                &&& step is Again ==> final(self)@ == old(self)@
                &&& step is Return ==> final(self)@ is Some && cloned(item, final(self)@->0)
                &&& old(self)@ is None ==> step is Return
                &&& old(self)@ matches Some(prev) ==> compared(prev, item, step is Again)
            }),
            T::obeys_eq_spec() ==> step == after_poll(old(self)@, old(self).is_closed(), polled).2,
            T::obeys_eq_spec() && clones_are_equal::<T>() ==> (
                final(self)@,
                final(self).is_closed(),
                step,
            ) == after_poll(old(self)@, old(self).is_closed(), polled),
    {
        if self.closed {
            return Step::Return(Pull::Closed);
        }
        match polled {
            Pull::Item(item) => {
                let repeated = match &self.prev_item {
                    Some(prev) => *prev == item,
                    None => false,
                };
                if repeated {
                    Step::Again
                } else {
                    let kept = item.clone();
                    assert(cloned(item, kept));
                    self.prev_item = Some(kept);
                    Step::Return(Pull::Item(item))
                }
            },
            Pull::Pending => Step::Return(Pull::Pending),
            Pull::Closed => {
                self.closed = true;
                Step::Return(Pull::Closed)
            },
        }
    }

    /// Takes a whole run of reports of the wrapped stream, one after the
    /// other, and returns the items that reach the consumer, in their
    /// order.
    ///
    /// Where the item type's `==` is specified and every clone equals its
    /// source, these are the items of `emitted`. For a fresh adapter and
    /// an `==` that is symmetric and transitive they are the first item of
    /// each maximal run of consecutive equal items that the stream produced
    /// before it closed.
    pub fn poll_all(&mut self, polls: Vec<Pull<T>>) -> (items: Vec<T>)
        ensures
            T::obeys_eq_spec() && clones_are_equal::<T>() ==> items@ == emitted(
                old(self)@,
                old(self).is_closed(),
                polls@,
            ),
            T::obeys_eq_spec() && clones_are_equal::<T>() && obeys_eq_spec_properties::<T>()
                && old(self)@ is None && !old(self).is_closed() ==> items@ == run_heads(
                None::<T>,
                items_in(polls@),
                items_in(polls@),
            ),
    {
        let ghost exact = T::obeys_eq_spec() && clones_are_equal::<T>();
        let ghost all = polls@;
        let ghost first = self@;
        let ghost shut = self.is_closed();
        let mut left = polls;
        let mut items: Vec<T> = Vec::new();
        while left.len() > 0
            invariant
                exact == (T::obeys_eq_spec() && clones_are_equal::<T>()),
                exact ==> emitted(first, shut, all) == items@ + emitted(
                    self@,
                    self.is_closed(),
                    left@,
                ),
            decreases left.len(),
        {
            let ghost before = left@;
            let polled = left.remove(0);
            assert(left@ =~= before.drop_first());
            let ghost so_far = items@;
            let step = self.poll_next(polled);
            match step {
                Step::Return(Pull::Item(item)) => {
                    items.push(item);
                    assert(exact ==> items@ + emitted(self@, self.is_closed(), left@) =~= so_far
                        + (seq![item] + emitted(self@, self.is_closed(), left@)));
                },
                _ => {},
            }
        }
        proof {
            assert(exact ==> items@ + emitted(self@, self.is_closed(), left@) =~= items@);
            if obeys_eq_spec_properties::<T>() {
                lemma_dedup_keeps_run_heads(all);
            }
        }
        items
    }
}

} // verus!
