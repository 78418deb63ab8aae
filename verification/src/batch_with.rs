use vstd::prelude::*;
use crate::pull::Pull;

verus! {

/// What a batching adapter asks of its driver.
#[derive(Debug, Clone, PartialEq, Eq)]
pub enum BatchStep<B> {
    /// Hand this outcome to whoever pulled the adapter.
    Return(Pull<B>),
    /// Pull the primary stream once more and report back.
    PullPrimary,
    /// The primary stream has nothing for now: pull the trigger stream once
    /// and report that.
    PullTrigger,
}

/// Something that a batching adapter is told.
pub enum BatchEvent<T> {
    /// What a pull of the primary stream reported.
    Primary(Pull<T>),
    /// What a pull of the trigger stream reported.
    Trigger(Pull<()>),
}

/// Collects the items of a primary stream and releases them as one batch when
/// a trigger stream fires or the primary stream closes. A batch is never
/// empty. Once the primary stream has closed and the last batch is out, the
/// adapter has closed, for good.
pub struct BatchWith<T> {
    batch: Vec<T>,
    primary_closed: bool,
}

impl<T> View for BatchWith<T> {
    type V = Seq<T>;

    /// The items taken from the primary stream since the last batch went
    /// out, in the order of their arrival.
    closed spec fn view(&self) -> Seq<T> {
        self.batch@
    }
}

/// What becomes of the buffer `held` and what the consumer is told once the
/// primary stream has closed: what is buffered goes out as the last batch;
/// with nothing buffered the adapter has closed.
pub open spec fn after_closed<T>(held: Seq<T>) -> (Seq<T>, Pull<Seq<T>>) {
    if held.len() > 0 {
        (Seq::empty(), Pull::Item(held))
    } else {
        (held, Pull::Closed)
    }
}

/// The buffer, whether the primary stream has closed, and the answer, when
/// `held` is buffered, `closed` says whether the primary stream has closed
/// before, and `polled` is reported of it.
pub open spec fn after_primary<T>(held: Seq<T>, closed: bool, polled: Pull<T>) -> (
    Seq<T>,
    bool,
    BatchStep<Seq<T>>,
) {
    if closed || polled is Closed {
        (after_closed(held).0, true, BatchStep::Return(after_closed(held).1))
    } else {
        match polled {
            Pull::Item(item) => (held.push(item), false, BatchStep::PullPrimary),
            _ => (held, false, BatchStep::PullTrigger),
        }
    }
}

/// The buffer and what the consumer is told, when `held` is buffered,
/// `closed` says whether the primary stream has closed, and `polled` is
/// reported of the trigger stream. A trigger that fires and one that has
/// closed count alike.
pub open spec fn after_trigger<T>(held: Seq<T>, closed: bool, polled: Pull<()>) -> (
    Seq<T>,
    Pull<Seq<T>>,
) {
    if closed {
        after_closed(held)
    } else if polled is Pending || held.len() == 0 {
        (held, Pull::Pending)
    } else {
        (Seq::empty(), Pull::Item(held))
    }
}

/// The buffer and the first thing to do when the consumer pulls the adapter:
/// pull the primary stream, unless it has closed.
pub open spec fn at_begin<T>(held: Seq<T>, closed: bool) -> (Seq<T>, BatchStep<Seq<T>>) {
    if closed {
        (after_closed(held).0, BatchStep::Return(after_closed(held).1))
    } else {
        (held, BatchStep::PullPrimary)
    }
}

/// An outcome that holds a `Vec`, read as one that holds the `Vec`'s
/// contents.
pub open spec fn batch_view<T>(pull: Pull<Vec<T>>) -> Pull<Seq<T>> {
    match pull {
        Pull::Item(batch) => Pull::Item(batch@),
        Pull::Pending => Pull::Pending,
        Pull::Closed => Pull::Closed,
    }
}

/// An answer that holds a `Vec`, read as one that holds the `Vec`'s contents.
pub open spec fn step_view<T>(step: BatchStep<Vec<T>>) -> BatchStep<Seq<T>> {
    match step {
        BatchStep::Return(pull) => BatchStep::Return(batch_view(pull)),
        BatchStep::PullPrimary => BatchStep::PullPrimary,
        BatchStep::PullTrigger => BatchStep::PullTrigger,
    }
}

/// The buffer after `event`, whether the primary stream has closed by then,
/// and the batch that goes out at the event, if one does.
pub open spec fn after_event<T>(held: Seq<T>, closed: bool, event: BatchEvent<T>) -> (
    Seq<T>,
    bool,
    Option<Seq<T>>,
) {
    match event {
        BatchEvent::Primary(polled) => {
            let (rest, shut, step) = after_primary(held, closed, polled);
            match step {
                BatchStep::Return(Pull::Item(batch)) => (rest, shut, Some(batch)),
                _ => (rest, shut, None),
            }
        },
        BatchEvent::Trigger(polled) => {
            let (rest, pull) = after_trigger(held, closed, polled);
            match pull {
                Pull::Item(batch) => (rest, closed, Some(batch)),
                _ => (rest, closed, None),
            }
        },
    }
}

/// Batches held in `Vec`s, read as their contents.
pub open spec fn batches_view<T>(batches: Seq<Vec<T>>) -> Seq<Seq<T>> {
    Seq::new(batches.len(), |i: int| batches[i]@)
}

/// Whether the primary stream has closed after `events`.
pub open spec fn closed_after<T>(held: Seq<T>, closed: bool, events: Seq<BatchEvent<T>>) -> bool
    decreases events.len(),
{
    if events.len() == 0 {
        closed
    } else {
        let (rest, shut, batch) = after_event(held, closed, events[0]);
        closed_after(rest, shut, events.drop_first())
    }
}

/// The buffer after `events`, one after the other.
pub open spec fn held_after<T>(held: Seq<T>, closed: bool, events: Seq<BatchEvent<T>>) -> Seq<T>
    decreases events.len(),
{
    if events.len() == 0 {
        held
    } else {
        let (rest, shut, batch) = after_event(held, closed, events[0]);
        held_after(rest, shut, events.drop_first())
    }
}

/// The batches that go out during `events`, in their order.
pub open spec fn batches<T>(held: Seq<T>, closed: bool, events: Seq<BatchEvent<T>>) -> Seq<Seq<T>>
    decreases events.len(),
{
    if events.len() == 0 {
        Seq::empty()
    } else {
        let (rest, shut, batch) = after_event(held, closed, events[0]);
        let later = batches(rest, shut, events.drop_first());
        match batch {
            Some(batch) => seq![batch] + later,
            None => later,
        }
    }
}

/// The items that the primary stream produces during `events` before it
/// closes, in their order.
pub open spec fn arrivals<T>(closed: bool, events: Seq<BatchEvent<T>>) -> Seq<T>
    decreases events.len(),
{
    if closed || events.len() == 0 {
        Seq::empty()
    } else {
        match events[0] {
            BatchEvent::Primary(Pull::Item(item)) => seq![item] + arrivals(
                false,
                events.drop_first(),
            ),
            BatchEvent::Primary(Pull::Closed) => Seq::empty(),
            _ => arrivals(false, events.drop_first()),
        }
    }
}

/// The items of `groups`, one group after the other.
pub open spec fn joined<T>(groups: Seq<Seq<T>>) -> Seq<T>
    decreases groups.len(),
{
    if groups.len() == 0 {
        Seq::empty()
    } else {
        groups[0] + joined(groups.drop_first())
    }
}

/// Pulls of the trigger stream that report `polls`, one after the other.
pub open spec fn trigger_events<T>(polls: Seq<Pull<()>>) -> Seq<BatchEvent<T>> {
    Seq::new(polls.len(), |i: int| BatchEvent::Trigger(polls[i]))
}

/// A batch goes out at an event only if something is buffered and either the
/// primary stream has closed or the trigger stream has something to report;
/// it is then the whole buffer, and the buffer is empty after it. At any
/// other event the buffer keeps what it held.
pub proof fn lemma_batch_goes_out_on_flush_only<T>(held: Seq<T>, closed: bool, event: BatchEvent<T>)
    ensures
        after_event(held, closed, event).2 is Some <==> held.len() > 0 && (closed || event
            == BatchEvent::Primary(Pull::<T>::Closed) || (event is Trigger
            && !(event->Trigger_0 is Pending))),
        after_event(held, closed, event).2 is Some ==> after_event(held, closed, event).0
            == Seq::<T>::empty() && after_event(held, closed, event).2 == Some(held),
        after_event(held, closed, event).2 is None ==> held.is_prefix_of(
            after_event(held, closed, event).0,
        ),
{
}

/// Nothing is lost, doubled or reordered: the batches that went out,
/// followed by what is still buffered, are what was buffered at the start
/// followed by what the primary stream produced since, before it closed.
pub proof fn lemma_batches_keep_arrival_order<T>(
    held: Seq<T>,
    closed: bool,
    events: Seq<BatchEvent<T>>,
)
    ensures
        joined(batches(held, closed, events)) + held_after(held, closed, events) == held
            + arrivals(closed, events),
    decreases events.len(),
{
    if events.len() == 0 {
        assert(joined(batches(held, closed, events)) + held_after(held, closed, events) =~= held
            + arrivals(closed, events));
    } else {
        let (rest, shut, batch) = after_event(held, closed, events[0]);
        let later = batches(rest, shut, events.drop_first());
        lemma_batches_keep_arrival_order(rest, shut, events.drop_first());
        if batch is Some {
            let all = seq![batch->0] + later;
            assert(all.drop_first() =~= later);
            assert(joined(all) == batch->0 + joined(later));
        }
        assert(joined(batches(held, closed, events)) + held_after(held, closed, events) =~= held
            + arrivals(closed, events));
    }
}

/// No batch is empty.
pub proof fn lemma_no_batch_is_empty<T>(
    held: Seq<T>,
    closed: bool,
    events: Seq<BatchEvent<T>>,
    i: int,
)
    requires
        0 <= i < batches(held, closed, events).len(),
    ensures
        batches(held, closed, events)[i].len() > 0,
    decreases events.len(),
{
    if events.len() > 0 {
        let (rest, shut, batch) = after_event(held, closed, events[0]);
        if batch is Some {
            if i > 0 {
                lemma_no_batch_is_empty(rest, shut, events.drop_first(), i - 1);
            }
        } else {
            lemma_no_batch_is_empty(rest, shut, events.drop_first(), i);
        }
    }
}

/// Pulls of the primary stream in which it produces `items`, one after the
/// other.
pub open spec fn arrival_events<T>(items: Seq<T>) -> Seq<BatchEvent<T>> {
    Seq::new(items.len(), |i: int| BatchEvent::Primary(Pull::Item(items[i])))
}

/// One pull of the adapter in which the primary stream, not closed before,
/// produces `items` and then reports `last`, which is that it has nothing
/// for now or that it has closed. While the items arrive no batch goes out,
/// and they are buffered behind what was buffered, in their order. If the
/// primary stream has closed, all of that goes out as the last batch, or
/// the adapter has closed if there is nothing; else the trigger stream is
/// to be pulled, and all of it goes out if the trigger has something to
/// report and anything is buffered.
pub proof fn lemma_one_pull<T>(held: Seq<T>, items: Seq<T>, last: Pull<T>, trigger: Pull<()>)
    requires
        !(last is Item),
    ensures
        batches(held, false, arrival_events(items)) == Seq::<Seq<T>>::empty(),
        held_after(held, false, arrival_events(items)) == held + items,
        !closed_after(held, false, arrival_events(items)),
        last is Closed ==> after_primary(held + items, false, last) == (
            Seq::<T>::empty(),
            true,
            BatchStep::Return(
                if (held + items).len() > 0 {
                    Pull::Item(held + items)
                } else {
                    Pull::Closed
                },
            ),
        ),
        last is Pending ==> after_primary(held + items, false, last) == (
            held + items,
            false,
            BatchStep::<Seq<T>>::PullTrigger,
        ),
        after_trigger(held + items, false, trigger) == if trigger is Pending || (held
            + items).len() == 0 {
            (held + items, Pull::<Seq<T>>::Pending)
        } else {
            (Seq::<T>::empty(), Pull::Item(held + items))
        },
    decreases items.len(),
{
    if items.len() > 0 {
        assert(arrival_events(items).drop_first() =~= arrival_events(items.drop_first()));
        lemma_one_pull(held.push(items[0]), items.drop_first(), last, trigger);
        assert(held.push(items[0]) + items.drop_first() =~= held + items);
    } else {
        assert(held + items =~= held);
    }
}

/// However often the trigger stream is pulled and whatever it reports, with
/// nothing buffered no batch goes out, the consumer is told each time that
/// there is nothing for now, and nothing is buffered afterwards. And when
/// the primary stream closes with nothing buffered, the adapter reports that
/// it has closed, without a batch.
pub proof fn lemma_triggers_on_empty_buffer<T>(polls: Seq<Pull<()>>)
    ensures
        forall|polled: Pull<()>|
            #[trigger] after_trigger(Seq::<T>::empty(), false, polled) == (
                Seq::<T>::empty(),
                Pull::<Seq<T>>::Pending,
            ),
        batches(Seq::<T>::empty(), false, trigger_events(polls)) == Seq::<Seq<T>>::empty(),
        held_after(Seq::<T>::empty(), false, trigger_events(polls)) == Seq::<T>::empty(),
        after_primary(Seq::<T>::empty(), false, Pull::<T>::Closed) == (
            Seq::<T>::empty(),
            true,
            BatchStep::Return(Pull::<Seq<T>>::Closed),
        ),
    decreases polls.len(),
{
    if polls.len() > 0 {
        assert(trigger_events::<T>(polls).drop_first() =~= trigger_events::<T>(
            polls.drop_first(),
        ));
        lemma_triggers_on_empty_buffer::<T>(polls.drop_first());
    }
}

/// Once the primary stream has closed and nothing is buffered, the adapter
/// has closed for good: whatever is reported of either stream, the consumer
/// is told that the adapter has closed, no batch goes out and nothing is
/// buffered.
pub proof fn lemma_closed_for_good<T>(events: Seq<BatchEvent<T>>)
    ensures
        forall|polled: Pull<T>|
            #[trigger] after_primary(Seq::<T>::empty(), true, polled) == (
                Seq::<T>::empty(),
                true,
                BatchStep::Return(Pull::<Seq<T>>::Closed),
            ),
        forall|polled: Pull<()>|
            #[trigger] after_trigger(Seq::<T>::empty(), true, polled) == (
                Seq::<T>::empty(),
                Pull::<Seq<T>>::Closed,
            ),
        at_begin(Seq::<T>::empty(), true) == (
            Seq::<T>::empty(),
            BatchStep::Return(Pull::<Seq<T>>::Closed),
        ),
        batches(Seq::<T>::empty(), true, events) == Seq::<Seq<T>>::empty(),
        held_after(Seq::<T>::empty(), true, events) == Seq::<T>::empty(),
    decreases events.len(),
{
    if events.len() > 0 {
        lemma_closed_for_good(events.drop_first());
    }
}

impl<T> BatchWith<T> {
    /// An adapter with nothing buffered.
    pub fn new() -> (adapter: Self)
        ensures
            adapter@ == Seq::<T>::empty(),
            !adapter.is_primary_closed(),
    {
        BatchWith { batch: Vec::new(), primary_closed: false }
    }

    /// Whether the primary stream has reported that it has closed.
    pub closed spec fn is_primary_closed(&self) -> bool {
        self.primary_closed
    }

    /// Moves the buffer out and leaves it empty.
    fn take_batch(&mut self) -> (batch: Vec<T>)
        ensures
            batch@ == old(self)@,
            final(self)@ == Seq::<T>::empty(),
            final(self).is_primary_closed() == old(self).is_primary_closed(),
    {
        let mut batch: Vec<T> = Vec::new();
        core::mem::swap(&mut self.batch, &mut batch);
        batch
    }

    /// What the consumer is told once the primary stream has closed.
    fn last_batch(&mut self) -> (pull: Pull<Vec<T>>)
        ensures
            (final(self)@, batch_view(pull)) == after_closed(old(self)@),
            final(self).is_primary_closed() == old(self).is_primary_closed(),
    {
        if self.batch.len() > 0 {
            Pull::Item(self.take_batch())
        } else {
            Pull::Closed
        }
    }

    /// What to do first when the consumer pulls the adapter: pull the
    /// primary stream, unless it has closed. A closed stream is not pulled
    /// again; the consumer is told that the adapter has closed.
    pub fn begin(&mut self) -> (step: BatchStep<Vec<T>>)
        ensures
            (final(self)@, step_view(step)) == at_begin(old(self)@, old(self).is_primary_closed()),
            final(self).is_primary_closed() == old(self).is_primary_closed(),
    {
        if self.primary_closed {
            BatchStep::Return(self.last_batch())
        } else {
            BatchStep::PullPrimary
        }
    }

    /// Takes what a pull of the primary stream reported. An item is
    /// appended to the buffer, and the primary stream is to be pulled again.
    /// When it has nothing for now, the trigger stream is to be pulled. When
    /// it has closed, what is buffered goes out as the last batch without
    /// waiting for the trigger; with nothing buffered the adapter reports
    /// that it has closed. Once the primary stream has closed, every later
    /// report is taken as that report again, whatever it is.
    pub fn poll_primary(&mut self, polled: Pull<T>) -> (step: BatchStep<Vec<T>>)
        ensures
            (final(self)@, final(self).is_primary_closed(), step_view(step)) == after_primary(
                old(self)@,
                old(self).is_primary_closed(),
                polled,
            ),
    {
        if self.primary_closed {
            return BatchStep::Return(self.last_batch());
        }
        match polled {
            Pull::Item(item) => {
                self.batch.push(item);
                BatchStep::PullPrimary
            },
            Pull::Pending => BatchStep::PullTrigger,
            Pull::Closed => {
                self.primary_closed = true;
                BatchStep::Return(self.last_batch())
            },
        }
    }

    /// Takes what a pull of the trigger stream reported, after the primary
    /// stream had nothing for now. While the trigger has nothing either, so
    /// has the adapter. Otherwise what is buffered goes out as a batch; with
    /// nothing buffered no batch goes out, and the adapter has nothing for
    /// now. Once the primary stream has closed, the trigger counts no more:
    /// the consumer is told what it is told at the closing.
    pub fn poll_trigger(&mut self, polled: Pull<()>) -> (pull: Pull<Vec<T>>)
        ensures
            (final(self)@, batch_view(pull)) == after_trigger(
                old(self)@,
                old(self).is_primary_closed(),
                polled,
            ),
            final(self).is_primary_closed() == old(self).is_primary_closed(),
    {
        if self.primary_closed {
            return self.last_batch();
        }
        match polled {
            Pull::Pending => Pull::Pending,
            _ => {
                if self.batch.len() > 0 {
                    Pull::Item(self.take_batch())
                } else {
                    Pull::Pending
                }
            },
        }
    }

    /// Takes a whole run of reports of the two streams, one after the
    /// other, and returns the batches that go out, in their order. No batch
    /// is empty, and the batches, followed by what is buffered afterwards,
    /// hold what was buffered before followed by what the primary stream
    /// produced before it closed.
    pub fn poll_all(&mut self, events: Vec<BatchEvent<T>>) -> (out: Vec<Vec<T>>)
        ensures
            batches_view(out@) == batches(old(self)@, old(self).is_primary_closed(), events@),
            final(self)@ == held_after(old(self)@, old(self).is_primary_closed(), events@),
            final(self).is_primary_closed() == closed_after(
                old(self)@,
                old(self).is_primary_closed(),
                events@,
            ),
            forall|i: int| 0 <= i < out@.len() ==> (#[trigger] out@[i])@.len() > 0,
            joined(batches_view(out@)) + final(self)@ == old(self)@ + arrivals(
                old(self).is_primary_closed(),
                events@,
            ),
    {
        let ghost all = events@;
        let ghost first = self@;
        let ghost shut = self.is_primary_closed();
        let mut left = events;
        let mut out: Vec<Vec<T>> = Vec::new();
        assert(batches_view(out@) + batches(first, shut, all) =~= batches(first, shut, all));
        while left.len() > 0
            invariant
                batches(first, shut, all) == batches_view(out@) + batches(
                    self@,
                    self.is_primary_closed(),
                    left@,
                ),
                held_after(first, shut, all) == held_after(
                    self@,
                    self.is_primary_closed(),
                    left@,
                ),
                closed_after(first, shut, all) == closed_after(
                    self@,
                    self.is_primary_closed(),
                    left@,
                ),
            decreases left.len(),
        {
            let ghost before = left@;
            let ghost done = batches_view(out@);
            let event = left.remove(0);
            assert(left@ =~= before.drop_first());
            let batch = match event {
                BatchEvent::Primary(polled) => match self.poll_primary(polled) {
                    BatchStep::Return(Pull::Item(batch)) => Some(batch),
                    _ => None,
                },
                BatchEvent::Trigger(polled) => match self.poll_trigger(polled) {
                    Pull::Item(batch) => Some(batch),
                    _ => None,
                },
            };
            let ghost later = batches(self@, self.is_primary_closed(), left@);
            match batch {
                Some(batch) => {
                    out.push(batch);
                    assert(batches_view(out@) =~= done.push(batch@));
                    assert(batches_view(out@) + later =~= done + (seq![batch@] + later));
                },
                None => {},
            }
        }
        proof {
            assert(batches_view(out@) + batches(self@, self.is_primary_closed(), left@)
                =~= batches_view(out@));
            lemma_batches_keep_arrival_order(first, shut, all);
            assert forall|i: int| 0 <= i < out@.len() implies (#[trigger] out@[i])@.len() > 0 by {
                lemma_no_batch_is_empty(first, shut, all, i);
                assert(batches_view(out@)[i] == out@[i]@);
            }
        }
        out
    }
}

} // verus!
