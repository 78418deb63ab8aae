use vstd::prelude::*;
use crate::pull::{produced, Pull};

verus! {

/// The slot for the inner stream that a switching adapter forwards from.
enum SwitchState<I> {
    /// The outer stream has produced no inner stream yet.
    Empty,
    /// The inner stream that the outer stream produced last.
    Active { inner_stream: I },
}

/// What a switching adapter asks of its driver after a pull of the outer
/// stream.
#[derive(PartialEq, Eq, Structural, Clone, Copy, Debug)]
pub enum OuterStep {
    /// Pull the outer stream once more and report back.
    PullOuter,
    /// Pull the current inner stream once and report that.
    PullInner,
    /// Tell the consumer that there is nothing for now.
    Pending,
    /// Tell the consumer that the adapter is finished.
    Closed,
}

/// Flattens a stream of streams: it forwards from the inner stream that the
/// outer stream produced last and drops the one before it.
pub struct Switch<I> {
    state: SwitchState<I>,
    outer_closed: bool,
}

/// The slot, whether the outer stream counts as closed, and the answer, when
/// the slot held `current` and the outer stream reports `polled`.
pub open spec fn after_outer<I>(current: Option<I>, polled: Pull<I>) -> (Option<I>, bool, OuterStep) {
    match polled {
        Pull::Item(inner) => (Some(inner), false, OuterStep::PullOuter),
        Pull::Pending => (
            current,
            false,
            if current is Some {
                OuterStep::PullInner
            } else {
                OuterStep::Pending
            },
        ),
        Pull::Closed => (
            current,
            true,
            if current is Some {
                OuterStep::PullInner
            } else {
                OuterStep::Closed
            },
        ),
    }
}

/// What the consumer is told when the current inner stream reports `polled`
/// and `outer_closed` says whether the outer stream has closed.
pub open spec fn after_inner<T>(outer_closed: bool, polled: Pull<T>) -> Pull<T> {
    match polled {
        Pull::Item(item) => Pull::Item(item),
        Pull::Pending => Pull::Pending,
        Pull::Closed => if outer_closed {
            Pull::Closed
        } else {
            Pull::Pending
        },
    }
}

/// The slot after the outer stream has reported `polls`, one after the
/// other.
pub open spec fn slot_after<I>(current: Option<I>, polls: Seq<Pull<I>>) -> Option<I>
    decreases polls.len(),
{
    if polls.len() == 0 {
        current
    } else {
        slot_after(after_outer(current, polls[0]).0, polls.drop_first())
    }
}

/// The slot, whether the outer stream counts as closed, and the answer after
/// the reports `polls` of the outer stream, taken one after the other for as
/// long as the adapter asks for the outer stream: up to the first report
/// that is no new inner stream. With no such report among them the outer
/// stream is still to be pulled.
pub open spec fn after_outer_run<I>(current: Option<I>, closed: bool, polls: Seq<Pull<I>>) -> (
    Option<I>,
    bool,
    OuterStep,
)
    decreases polls.len(),
{
    if polls.len() == 0 {
        (current, closed, OuterStep::PullOuter)
    } else {
        let (slot, shut, step) = after_outer(current, polls[0]);
        if step == OuterStep::PullOuter {
            after_outer_run(slot, shut, polls.drop_first())
        } else {
            (slot, shut, step)
        }
    }
}

/// In one pull of the adapter in which the outer stream produces the inner
/// streams `inners`, one right after the other, and then reports `last`,
/// which is that it has nothing for now or that it has closed: the slot
/// holds the last of `inners`, whatever it held before, and that stream is
/// the one to pull. None of the others is ever handed out for pulling.
pub proof fn lemma_latest_inner_wins<I>(
    current: Option<I>,
    closed: bool,
    inners: Seq<I>,
    last: Pull<I>,
)
    requires
        inners.len() > 0,
        !(last is Item),
    ensures
        after_outer_run(current, closed, produced(inners).push(last)) == (
            Some(inners.last()),
            last is Closed,
            OuterStep::PullInner,
        ),
    decreases inners.len(),
{
    let polls = produced(inners).push(last);
    let (slot, shut, step) = after_outer(current, polls[0]);
    assert(polls[0] == Pull::Item(inners[0]));
    if inners.len() > 1 {
        assert(polls.drop_first() =~= produced(inners.drop_first()).push(last));
        lemma_latest_inner_wins(slot, shut, inners.drop_first(), last);
        assert(inners.drop_first().last() == inners.last());
    } else {
        let rest = polls.drop_first();
        assert(rest.len() == 1 && rest[0] == last);
        assert(after_outer_run(slot, shut, rest) == (
            Some(inners[0]),
            last is Closed,
            OuterStep::PullInner,
        ));
    }
}

/// The first of the reports `polls` that is no new inner stream, if there is
/// one: the report at which one pull stops pulling the outer stream.
pub open spec fn first_other<I>(polls: Seq<Pull<I>>) -> Option<Pull<I>>
    decreases polls.len(),
{
    if polls.len() == 0 {
        None
    } else if polls[0] is Item {
        first_other(polls.drop_first())
    } else {
        Some(polls[0])
    }
}

/// In one pull of the adapter, where `polls` is reported of the outer stream
/// and `inner` of the inner stream, if it is pulled: the consumer is told
/// that the adapter has closed exactly when the outer stream has reported in
/// this pull that it has closed and there is either no inner stream or the
/// inner stream has closed too. An item of the inner stream is forwarded
/// also when the outer stream has closed.
pub proof fn lemma_closed_only_when_all_closed<I, T>(
    current: Option<I>,
    closed: bool,
    polls: Seq<Pull<I>>,
    inner: Pull<T>,
)
    ensures
        ({
            let (slot, shut, step) = after_outer_run(current, closed, polls);
            let told = if step == OuterStep::PullInner {
                after_inner(shut, inner)
            } else if step == OuterStep::Closed {
                Pull::Closed
            } else {
                Pull::Pending
            };
            &&& step == OuterStep::PullOuter <==> first_other(polls) is None
            &&& step != OuterStep::PullOuter ==> (shut <==> first_other(polls) == Some(
                Pull::<I>::Closed,
            ))
            &&& step == OuterStep::PullInner <==> first_other(polls) is Some && slot is Some
            &&& step != OuterStep::PullOuter ==> (told is Closed <==> first_other(polls) == Some(
                Pull::<I>::Closed,
            ) && (slot is None || inner is Closed))
            &&& step == OuterStep::PullInner && inner is Item ==> told == inner
        }),
    decreases polls.len(),
{
    if polls.len() > 0 {
        let (slot, shut, step) = after_outer(current, polls[0]);
        if step == OuterStep::PullOuter {
            lemma_closed_only_when_all_closed(slot, shut, polls.drop_first(), inner);
        }
    }
}

/// As long as the outer stream produces no new inner stream, the slot keeps
/// the inner stream it holds, that stream is the one to pull, and each item
/// it produces is forwarded.
pub proof fn lemma_inner_stays_until_replaced<I, T>(current: I, polls: Seq<Pull<I>>, item: T)
    requires
        forall|i: int| 0 <= i < polls.len() ==> !(#[trigger] polls[i] is Item),
    ensures
        slot_after(Some(current), polls) == Some(current),
        forall|polled: Pull<I>|
            !(polled is Item) ==> (#[trigger] after_outer(Some(current), polled)).2
                == OuterStep::PullInner,
        forall|outer_closed: bool|
            #[trigger] after_inner(outer_closed, Pull::Item(item)) == Pull::Item(item),
    decreases polls.len(),
{
    if polls.len() > 0 {
        assert(!(polls[0] is Item));
        lemma_inner_stays_until_replaced(current, polls.drop_first(), item);
    }
}

impl<I> Switch<I> {
    /// An adapter with no inner stream.
    pub fn new() -> (switch: Self)
        ensures
            switch.current() == None::<I>,
            !switch.outer_closed(),
    {
        Switch { state: SwitchState::Empty, outer_closed: false }
    }

    /// The inner stream in the slot, if there is one.
    pub closed spec fn current(&self) -> Option<I> {
        match self.state {
            SwitchState::Empty => None,
            SwitchState::Active { inner_stream } => Some(inner_stream),
        }
    }

    /// Whether the outer stream reported that it had closed when it was
    /// pulled last.
    pub closed spec fn outer_closed(&self) -> bool {
        self.outer_closed
    }

    /// Takes what a pull of the outer stream reported. A new inner stream
    /// replaces the current one, which is dropped with all that it had not
    /// delivered, and the outer stream is to be pulled again. Once the outer
    /// stream has nothing for now or has closed, the current inner stream is
    /// to be pulled; where there is none, the consumer is told what the
    /// outer stream reported.
    pub fn poll_outer(&mut self, polled: Pull<I>) -> (step: OuterStep)
        ensures
            (final(self).current(), final(self).outer_closed(), step) == after_outer(
                old(self).current(),
                polled,
            ),
    {
        match polled {
            Pull::Item(inner_stream) => {
                self.state = SwitchState::Active { inner_stream };
                self.outer_closed = false;
                OuterStep::PullOuter
            },
            Pull::Pending => {
                self.outer_closed = false;
                match &self.state {
                    SwitchState::Empty => OuterStep::Pending,
                    SwitchState::Active { .. } => OuterStep::PullInner,
                }
            },
            Pull::Closed => {
                self.outer_closed = true;
                match &self.state {
                    SwitchState::Empty => OuterStep::Closed,
                    SwitchState::Active { .. } => OuterStep::PullInner,
                }
            },
        }
    }

    /// Takes a run of reports of the outer stream, one after the other, for
    /// as long as the adapter asks for the outer stream: up to the first
    /// report that is no new inner stream. What follows that report is
    /// dropped unseen. The answer is that to the last report taken; with no
    /// report that ends the run, the outer stream is still to be pulled.
    pub fn poll_outer_all(&mut self, polls: Vec<Pull<I>>) -> (step: OuterStep)
        ensures
            (final(self).current(), final(self).outer_closed(), step) == after_outer_run(
                old(self).current(),
                old(self).outer_closed(),
                polls@,
            ),
    {
        let ghost all = polls@;
        let ghost first = self.current();
        let ghost shut = self.outer_closed();
        let mut left = polls;
        let mut step = OuterStep::PullOuter;
        let mut asking = true;
        while asking && left.len() > 0
            invariant
                asking ==> step == OuterStep::PullOuter && after_outer_run(first, shut, all)
                    == after_outer_run(self.current(), self.outer_closed(), left@),
                !asking ==> after_outer_run(first, shut, all) == (
                    self.current(),
                    self.outer_closed(),
                    step,
                ),
            decreases left.len(),
        {
            let ghost before = left@;
            let polled = left.remove(0);
            assert(left@ =~= before.drop_first());
            step = self.poll_outer(polled);
            asking = match step {
                OuterStep::PullOuter => true,
                _ => false,
            };
        }
        step
    }

    /// The current inner stream, for the driver to pull it where it stands.
    pub fn inner_mut(&mut self) -> (inner: Option<&mut I>)
        ensures
            final(self).outer_closed() == old(self).outer_closed(),
            match inner {
                Some(stream) => old(self).current() == Some(*stream) && final(self).current()
                    == Some(*final(stream)),
                None => old(self).current() is None && final(self).current() is None,
            },
    {
        match &mut self.state {
            SwitchState::Empty => None,
            SwitchState::Active { inner_stream } => Some(inner_stream),
        }
    }

    /// Takes what a pull of the current inner stream reported. An item is
    /// forwarded, also when the outer stream has closed. That the inner
    /// stream has closed finishes the adapter only if the outer stream has
    /// closed too; otherwise there is nothing for now, as when the inner
    /// stream has nothing for now.
    pub fn poll_inner<T>(&self, polled: Pull<T>) -> (pull: Pull<T>)
        ensures
            pull == after_inner(self.outer_closed(), polled),
    {
        match polled {
            Pull::Item(item) => Pull::Item(item),
            Pull::Closed => {
                if self.outer_closed {
                    Pull::Closed
                } else {
                    Pull::Pending
                }
            },
            Pull::Pending => Pull::Pending,
        }
    }
}

} // verus!
