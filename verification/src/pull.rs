use vstd::prelude::*;

verus! {

/// What one pull of a stream reported.
#[derive(Debug, Clone, PartialEq, Eq)]
pub enum Pull<T> {
    /// The stream produced its next item.
    Item(T),
    /// The stream has nothing for now and will notify its consumer later.
    Pending,
    /// The stream is permanently finished.
    Closed,
}

/// What an adapter asks of its driver after it was told the outcome of a pull
/// of the wrapped stream.
#[derive(Debug, Clone, PartialEq, Eq)]
pub enum Step<T> {
    /// Hand this outcome to whoever pulled the adapter.
    Return(Pull<T>),
    /// Pull the wrapped stream once and report back.
    Again,
}

/// The reports of a stream that produces `items`, each at the first pull.
pub open spec fn produced<T>(items: Seq<T>) -> Seq<Pull<T>> {
    Seq::new(items.len(), |i: int| Pull::Item(items[i]))
}

/// The items that a stream produces before it closes, where `polls` is what
/// it reports: the items among the reports up to the first `Closed`, in
/// their order.
pub open spec fn items_in<T>(polls: Seq<Pull<T>>) -> Seq<T>
    decreases polls.len(),
{
    if polls.len() == 0 {
        Seq::empty()
    } else {
        match polls[0] {
            Pull::Item(item) => seq![item] + items_in(polls.drop_first()),
            Pull::Pending => items_in(polls.drop_first()),
            Pull::Closed => Seq::empty(),
        }
    }
}

/// The items among the reports of a stream that produces `items` are
/// `items`.
pub proof fn lemma_items_in_produced<T>(items: Seq<T>)
    ensures
        items_in(produced(items)) == items,
    decreases items.len(),
{
    if items.len() > 0 {
        assert(produced(items).drop_first() =~= produced(items.drop_first()));
        lemma_items_in_produced(items.drop_first());
        assert(seq![items[0]] + items.drop_first() =~= items);
    } else {
        assert(items_in(produced(items)) =~= items);
    }
}

} // verus!
