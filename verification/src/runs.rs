use vstd::prelude::*;
use vstd::std_specs::cmp::PartialEqSpec;
use vstd::laws_eq::obeys_eq_spec_properties;

verus! {

/// Whether `==` can answer `same` when it compares `prev` with `key`. For a
/// type whose `==` is specified, this holds of one answer only.
pub open spec fn compared<K: PartialEq>(prev: K, key: K, same: bool) -> bool {
    call_ensures(<K as PartialEq>::eq, (&prev, &key), same)
}

/// Whether an item with key `key` is held back when `prev` is the key of the
/// item forwarded last: there is such an item, and its key equals `key`.
pub open spec fn suppressed<K: PartialEq>(prev: Option<K>, key: K) -> bool {
    prev matches Some(p) && p.eq_spec(&key)
}

/// The items that are forwarded out of `items`, where `keys[i]` is the key of
/// `items[i]` and `prev` the key of the item forwarded before them: an item
/// goes out unless its key equals that of the item that went out last.
pub open spec fn forwarded<T, K: PartialEq>(prev: Option<K>, items: Seq<T>, keys: Seq<K>) -> Seq<T>
    recommends
        items.len() == keys.len(),
    decreases items.len(),
{
    if items.len() == 0 || keys.len() == 0 {
        Seq::empty()
    } else if suppressed(prev, keys[0]) {
        forwarded(prev, items.drop_first(), keys.drop_first())
    } else {
        seq![items[0]] + forwarded(Some(keys[0]), items.drop_first(), keys.drop_first())
    }
}

/// The first item of each maximal run of consecutive items with equal keys,
/// where `before` is the key of the item that stands just before `items`: an
/// item stays unless its key equals that of its immediate predecessor.
pub open spec fn run_heads<T, K: PartialEq>(before: Option<K>, items: Seq<T>, keys: Seq<K>) -> Seq<T>
    recommends
        items.len() == keys.len(),
    decreases items.len(),
{
    if items.len() == 0 || keys.len() == 0 {
        Seq::empty()
    } else if suppressed(before, keys[0]) {
        run_heads(Some(keys[0]), items.drop_first(), keys.drop_first())
    } else {
        seq![items[0]] + run_heads(Some(keys[0]), items.drop_first(), keys.drop_first())
    }
}

/// Comparing with the item forwarded last gives the same as comparing with
/// the immediate predecessor, as long as the two have equal keys and key
/// equality is symmetric and transitive.
pub proof fn lemma_forwarded_from_equal_keys<T, K: PartialEq>(
    prev: Option<K>,
    before: Option<K>,
    items: Seq<T>,
    keys: Seq<K>,
)
    requires
        obeys_eq_spec_properties::<K>(),
        prev == before || (prev is Some && before is Some && prev->0.eq_spec(&before->0)),
    ensures
        forwarded(prev, items, keys) == run_heads(before, items, keys),
    decreases items.len(),
{
    reveal(obeys_eq_spec_properties);
    if items.len() == 0 || keys.len() == 0 {
    } else {
        let k = keys[0];
        if prev is Some && before is Some {
            let p = prev->0;
            let b = before->0;
            assert(p.eq_spec(&k) <==> b.eq_spec(&k)) by {
                if p != b {
                    assert(p.eq_spec(&b));
                    assert(b.eq_spec(&p));
                }
            }
        }
        if suppressed(prev, k) {
            lemma_forwarded_from_equal_keys(prev, Some(k), items.drop_first(), keys.drop_first());
        } else {
            lemma_forwarded_from_equal_keys(Some(k), Some(k), items.drop_first(), keys.drop_first());
        }
    }
}

/// Forwarding unless the key equals that of the item forwarded last keeps
/// exactly the first item of each maximal run of consecutive equal keys,
/// whenever key equality is symmetric and transitive.
pub proof fn lemma_forwarded_is_run_heads<T, K: PartialEq>(items: Seq<T>, keys: Seq<K>)
    requires
        obeys_eq_spec_properties::<K>(),
    ensures
        forwarded(None::<K>, items, keys) == run_heads(None::<K>, items, keys),
{
    lemma_forwarded_from_equal_keys(None::<K>, None::<K>, items, keys);
}

/// Whether no item of `items` equals the one just before it, where `prev`
/// stands before the first.
pub open spec fn no_repeats<T: PartialEq>(prev: Option<T>, items: Seq<T>) -> bool
    decreases items.len(),
{
    items.len() == 0 || (!suppressed(prev, items[0]) && no_repeats(
        Some(items[0]),
        items.drop_first(),
    ))
}

/// Among the items that are forwarded, none equals the one just before it.
pub proof fn lemma_forwarded_has_no_repeats<T: PartialEq>(prev: Option<T>, items: Seq<T>)
    ensures
        no_repeats(prev, forwarded(prev, items, items)),
    decreases items.len(),
{
    if items.len() > 0 {
        if suppressed(prev, items[0]) {
            lemma_forwarded_has_no_repeats(prev, items.drop_first());
        } else {
            let later = forwarded(Some(items[0]), items.drop_first(), items.drop_first());
            lemma_forwarded_has_no_repeats(Some(items[0]), items.drop_first());
            assert((seq![items[0]] + later).drop_first() =~= later);
        }
    }
}

/// Where no item equals the one just before it, every item is forwarded.
pub proof fn lemma_forwarded_keeps_all_without_repeats<T: PartialEq>(prev: Option<T>, items: Seq<T>)
    requires
        no_repeats(prev, items),
    ensures
        forwarded(prev, items, items) == items,
    decreases items.len(),
{
    if items.len() > 0 {
        lemma_forwarded_keeps_all_without_repeats(Some(items[0]), items.drop_first());
        assert(seq![items[0]] + items.drop_first() =~= items);
    } else {
        assert(forwarded(prev, items, items) =~= items);
    }
}

} // verus!
