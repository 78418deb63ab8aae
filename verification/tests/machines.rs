use async_rx::{
    BatchEvent, BatchStep, BatchWith, Dedup, DedupByKey, OuterStep, Pull, Step, Switch,
};

fn is_again<T>(step: &Step<T>) -> bool {
    matches!(step, Step::Again)
}

fn returned<T>(step: Step<T>) -> Pull<T> {
    match step {
        Step::Return(pull) => pull,
        Step::Again => panic!("the adapter asked for another pull"),
    }
}

fn item<T>(pull: Pull<T>) -> T {
    match pull {
        Pull::Item(item) => item,
        Pull::Pending => panic!("nothing for now"),
        Pull::Closed => panic!("closed"),
    }
}

fn is_pending<T>(pull: &Pull<T>) -> bool {
    matches!(pull, Pull::Pending)
}

fn is_closed<T>(pull: &Pull<T>) -> bool {
    matches!(pull, Pull::Closed)
}

fn run_dedup(items: &[i32]) -> Vec<i32> {
    let mut dedup = Dedup::new();
    let mut out = Vec::new();
    for &next in items {
        if let Step::Return(pull) = dedup.poll_next(Pull::Item(next)) {
            out.push(item(pull));
        }
    }
    assert!(is_closed(&returned(dedup.poll_next(Pull::Closed))));
    out
}

fn run_heads(items: &[i32]) -> Vec<i32> {
    let mut out = Vec::new();
    for (i, &next) in items.iter().enumerate() {
        if i == 0 || items[i - 1] != next {
            out.push(next);
        }
    }
    out
}

#[test]
fn dedup_first_item_is_forwarded() {
    let mut dedup = Dedup::new();
    assert_eq!(item(returned(dedup.poll_next(Pull::Item(0)))), 0);
}

#[test]
fn dedup_repeated_item_asks_for_another_pull() {
    let mut dedup = Dedup::new();
    assert_eq!(item(returned(dedup.poll_next(Pull::Item(7)))), 7);
    assert!(is_again(&dedup.poll_next(Pull::Item(7))));
    assert!(is_again(&dedup.poll_next(Pull::Item(7))));
    assert_eq!(item(returned(dedup.poll_next(Pull::Item(8)))), 8);
    assert_eq!(item(returned(dedup.poll_next(Pull::Item(7)))), 7);
}

#[test]
fn dedup_pending_leaves_the_kept_item() {
    let mut dedup = Dedup::new();
    assert_eq!(item(returned(dedup.poll_next(Pull::Item(5)))), 5);
    assert!(is_pending(&returned(dedup.poll_next(Pull::Pending))));
    assert!(is_again(&dedup.poll_next(Pull::Item(5))));
    assert!(is_closed(&returned(dedup.poll_next(Pull::Closed))));
    assert!(is_closed(&returned(dedup.poll_next(Pull::Closed))));
}

#[test]
fn dedup_keeps_the_head_of_each_run() {
    let inputs: [&[i32]; 6] = [
        &[],
        &[123],
        &[1, 2, 3, 3, 3, 2, 4, 4],
        &[9, 9, 9, 9],
        &[1, 2, 1, 2, 2, 1],
        &[0, 0, 1, 1, 0, 0],
    ];
    for items in inputs {
        assert_eq!(run_dedup(items), run_heads(items));
    }
    assert_eq!(run_dedup(&[1, 2, 3, 3, 3, 2, 4, 4]), vec![1, 2, 3, 2, 4]);
}

#[test]
fn dedup_twice_changes_nothing_more() {
    let once = run_dedup(&[4, 4, 5, 5, 5, 4, 6, 6]);
    assert_eq!(once, vec![4, 5, 4, 6]);
    assert_eq!(run_dedup(&once), once);
}

#[test]
fn dedup_by_key_compares_keys_only() {
    let mut dedup = DedupByKey::new(|num: &i32| num % 2);
    let mut out = Vec::new();
    for next in [1, 2, 3, 1, 2, 4, 8] {
        if let Step::Return(pull) = dedup.poll_next(Pull::Item(next)) {
            out.push(item(pull));
        }
    }
    assert_eq!(out, vec![1, 2, 3, 2]);
    assert!(is_pending(&returned(dedup.poll_next(Pull::<i32>::Pending))));
    assert!(is_closed(&returned(dedup.poll_next(Pull::<i32>::Closed))));
}

#[test]
fn dedup_by_key_works_on_items_without_equality() {
    struct Reading {
        sensor: u8,
        value: i64,
    }
    let mut dedup = DedupByKey::new(|reading: &Reading| reading.sensor);
    let first = dedup.poll_next(Pull::Item(Reading { sensor: 1, value: 10 }));
    assert_eq!(item(returned(first)).value, 10);
    assert!(is_again(&dedup.poll_next(Pull::Item(Reading { sensor: 1, value: 11 }))));
    let other = dedup.poll_next(Pull::Item(Reading { sensor: 2, value: 12 }));
    assert_eq!(item(returned(other)).value, 12);
}

fn batch_returned<T>(step: BatchStep<Vec<T>>) -> Pull<Vec<T>> {
    match step {
        BatchStep::Return(pull) => pull,
        BatchStep::PullPrimary => panic!("the adapter asked for the primary stream"),
        BatchStep::PullTrigger => panic!("the adapter asked for the trigger stream"),
    }
}

#[test]
fn batch_items_wait_for_the_trigger() {
    let mut batch = BatchWith::new();
    assert!(matches!(batch.poll_primary(Pull::Item(1)), BatchStep::PullPrimary));
    assert!(matches!(batch.poll_primary(Pull::Item(2)), BatchStep::PullPrimary));
    assert!(matches!(batch.poll_primary(Pull::Item(3)), BatchStep::PullPrimary));
    assert!(matches!(batch.poll_primary(Pull::Pending), BatchStep::PullTrigger));
    assert!(is_pending(&batch.poll_trigger(Pull::Pending)));
    assert!(matches!(batch.poll_primary(Pull::Pending), BatchStep::PullTrigger));
    assert_eq!(item(batch.poll_trigger(Pull::Item(()))), vec![1, 2, 3]);
    assert!(matches!(batch.poll_primary(Pull::Item(4)), BatchStep::PullPrimary));
    assert!(matches!(batch.poll_primary(Pull::Item(5)), BatchStep::PullPrimary));
    assert!(matches!(batch.poll_primary(Pull::Pending), BatchStep::PullTrigger));
    assert_eq!(item(batch.poll_trigger(Pull::Item(()))), vec![4, 5]);
    assert!(is_pending(&batch.poll_trigger(Pull::Item(()))));
}

#[test]
fn batch_closing_flushes_without_the_trigger() {
    let mut batch = BatchWith::new();
    assert!(matches!(batch.poll_primary(Pull::Item(6)), BatchStep::PullPrimary));
    assert!(matches!(batch.poll_primary(Pull::Item(7)), BatchStep::PullPrimary));
    assert!(matches!(batch.poll_primary(Pull::Item(8)), BatchStep::PullPrimary));
    assert_eq!(item(batch_returned(batch.poll_primary(Pull::Closed))), vec![6, 7, 8]);
    assert!(is_closed(&batch_returned(batch.poll_primary(Pull::Closed))));
}

#[test]
fn batch_closing_with_nothing_buffered_closes() {
    let mut batch = BatchWith::<u8>::new();
    assert!(is_closed(&batch_returned(batch.poll_primary(Pull::Closed))));
}

#[test]
fn batch_triggers_on_an_empty_buffer_emit_nothing() {
    let mut batch = BatchWith::<u8>::new();
    for _ in 0..100 {
        assert!(is_pending(&batch.poll_trigger(Pull::Item(()))));
    }
    assert!(is_pending(&batch.poll_trigger(Pull::Closed)));
    assert!(matches!(batch.poll_primary(Pull::Item(1)), BatchStep::PullPrimary));
    assert!(is_pending(&batch.poll_trigger(Pull::Pending)));
    assert_eq!(item(batch.poll_trigger(Pull::Item(()))), vec![1]);
}

#[test]
fn batch_closed_trigger_flushes() {
    let mut batch = BatchWith::new();
    assert!(matches!(batch.poll_primary(Pull::Item("a")), BatchStep::PullPrimary));
    assert_eq!(item(batch.poll_trigger(Pull::Closed)), vec!["a"]);
    assert!(is_pending(&batch.poll_trigger(Pull::Closed)));
}

#[test]
fn batches_hold_every_arrival_in_order() {
    let mut batch = BatchWith::new();
    let mut seen = Vec::new();
    for next in 0..20 {
        assert!(matches!(batch.poll_primary(Pull::Item(next)), BatchStep::PullPrimary));
        if next % 3 == 2 {
            let flushed = item(batch.poll_trigger(Pull::Item(())));
            assert_eq!(flushed.len(), 3);
            seen.extend(flushed);
        }
    }
    seen.extend(item(batch_returned(batch.poll_primary(Pull::Closed))));
    assert_eq!(seen, (0..20).collect::<Vec<i32>>());
}

#[test]
fn switch_without_inner_reports_what_the_outer_reports() {
    let mut switch = Switch::<Vec<u8>>::new();
    assert!(switch.inner_mut().is_none());
    assert_eq!(switch.poll_outer(Pull::Pending), OuterStep::Pending);
    assert_eq!(switch.poll_outer(Pull::Closed), OuterStep::Closed);
    assert!(switch.inner_mut().is_none());
}

#[test]
fn switch_keeps_the_latest_inner() {
    let mut switch = Switch::new();
    assert_eq!(switch.poll_outer(Pull::Item(vec![1, 2, 3])), OuterStep::PullOuter);
    assert_eq!(switch.poll_outer(Pull::Item(vec![4, 5, 6])), OuterStep::PullOuter);
    assert_eq!(switch.poll_outer(Pull::Item(vec![7, 8, 9])), OuterStep::PullOuter);
    assert_eq!(switch.poll_outer(Pull::Closed), OuterStep::PullInner);
    assert_eq!(switch.inner_mut(), Some(&mut vec![7, 8, 9]));
}

#[test]
fn switch_inner_is_pulled_where_it_stands() {
    let mut switch = Switch::new();
    assert_eq!(switch.poll_outer(Pull::Item(vec![1, 2])), OuterStep::PullOuter);
    assert_eq!(switch.poll_outer(Pull::Pending), OuterStep::PullInner);
    assert_eq!(switch.inner_mut().and_then(|inner| inner.pop()), Some(2));
    assert_eq!(switch.poll_outer(Pull::Pending), OuterStep::PullInner);
    assert_eq!(switch.inner_mut(), Some(&mut vec![1]));
}

#[test]
fn switch_closes_only_when_both_have_closed() {
    let mut switch = Switch::new();
    assert_eq!(switch.poll_outer(Pull::Item('s')), OuterStep::PullOuter);
    assert_eq!(switch.poll_outer(Pull::Pending), OuterStep::PullInner);
    assert_eq!(item(switch.poll_inner(Pull::Item(1))), 1);
    assert!(is_pending(&switch.poll_inner(Pull::<i32>::Pending)));
    assert!(is_pending(&switch.poll_inner(Pull::<i32>::Closed)));

    assert_eq!(switch.poll_outer(Pull::Closed), OuterStep::PullInner);
    assert_eq!(item(switch.poll_inner(Pull::Item(2))), 2);
    assert!(is_pending(&switch.poll_inner(Pull::<i32>::Pending)));
    assert!(is_closed(&switch.poll_inner(Pull::<i32>::Closed)));
}

#[test]
fn switch_forgets_that_the_outer_closed_when_it_reports_otherwise() {
    let mut switch = Switch::new();
    assert_eq!(switch.poll_outer(Pull::Item('s')), OuterStep::PullOuter);
    assert_eq!(switch.poll_outer(Pull::Closed), OuterStep::PullInner);
    assert_eq!(switch.poll_outer(Pull::Pending), OuterStep::PullInner);
    assert!(is_pending(&switch.poll_inner(Pull::<i32>::Closed)));
}

#[test]
fn batch_stays_closed_once_the_primary_closed() {
    let mut batch = BatchWith::new();
    assert_eq!(batch.begin(), BatchStep::PullPrimary);
    assert_eq!(batch.poll_primary(Pull::Item(1)), BatchStep::PullPrimary);
    assert_eq!(batch.poll_primary(Pull::Pending), BatchStep::PullTrigger);
    assert_eq!(batch.poll_trigger(Pull::Item(())), Pull::Item(vec![1]));
    assert_eq!(batch.begin(), BatchStep::PullPrimary);
    assert_eq!(batch.poll_primary(Pull::Item(2)), BatchStep::PullPrimary);
    assert_eq!(batch.poll_primary(Pull::Closed), BatchStep::Return(Pull::Item(vec![2])));
    assert_eq!(batch.begin(), BatchStep::Return(Pull::Closed));
    assert_eq!(batch.poll_primary(Pull::Item(3)), BatchStep::Return(Pull::Closed));
    assert_eq!(batch.poll_primary(Pull::Pending), BatchStep::Return(Pull::Closed));
    assert_eq!(batch.poll_trigger(Pull::Item(())), Pull::Closed);
    assert_eq!(batch.poll_trigger(Pull::Pending), Pull::Closed);
    assert_eq!(batch.begin(), BatchStep::Return(Pull::Closed));
}

#[test]
fn dedup_stays_closed_once_the_stream_closed() {
    let mut dedup = Dedup::new();
    assert_eq!(dedup.begin(), Step::Again);
    assert_eq!(dedup.poll_next(Pull::Item(1)), Step::Return(Pull::Item(1)));
    assert_eq!(dedup.begin(), Step::Again);
    assert_eq!(dedup.poll_next(Pull::Closed), Step::Return(Pull::Closed));
    assert_eq!(dedup.begin(), Step::Return(Pull::Closed));
    assert_eq!(dedup.poll_next(Pull::Pending), Step::Return(Pull::Closed));
    assert_eq!(dedup.poll_next(Pull::Item(2)), Step::Return(Pull::Closed));
    assert_eq!(dedup.poll_next(Pull::Item(1)), Step::Return(Pull::Closed));
    assert_eq!(dedup.poll_next(Pull::Closed), Step::Return(Pull::Closed));
    assert_eq!(dedup.begin(), Step::Return(Pull::Closed));
}

#[test]
fn dedup_by_key_stays_closed_and_derives_no_key() {
    let mut calls = 0;
    {
        let mut dedup = DedupByKey::new(|num: &i32| {
            calls += 1;
            num % 2
        });
        assert_eq!(dedup.begin::<i32>(), Step::Again);
        assert_eq!(dedup.poll_next(Pull::Item(1)), Step::Return(Pull::Item(1)));
        assert_eq!(dedup.poll_next(Pull::<i32>::Closed), Step::Return(Pull::Closed));
        assert_eq!(dedup.begin::<i32>(), Step::Return(Pull::Closed));
        assert_eq!(dedup.poll_next(Pull::<i32>::Pending), Step::Return(Pull::Closed));
        assert_eq!(dedup.poll_next(Pull::Item(2)), Step::Return(Pull::Closed));
        assert_eq!(dedup.poll_next(Pull::<i32>::Closed), Step::Return(Pull::Closed));
    }
    assert_eq!(calls, 1);
}

#[test]
fn steps_compare_by_what_they_hold() {
    let mut dedup = Dedup::new();
    assert_eq!(dedup.poll_next(Pull::Item(3)), Step::Return(Pull::Item(3)));
    assert_eq!(dedup.poll_next(Pull::Item(3)), Step::Again);
    assert_eq!(dedup.poll_next(Pull::Pending), Step::Return(Pull::Pending));
    assert_eq!(dedup.poll_next(Pull::Item(4)), Step::Return(Pull::Item(4)));
    assert_eq!(dedup.poll_next(Pull::Closed), Step::Return(Pull::Closed));
}

#[test]
fn dedup_takes_a_whole_run_of_reports() {
    let polls = vec![
        Pull::Item(1),
        Pull::Pending,
        Pull::Item(2),
        Pull::Item(3),
        Pull::Item(3),
        Pull::Pending,
        Pull::Item(3),
        Pull::Item(2),
        Pull::Item(4),
        Pull::Item(4),
        Pull::Closed,
        Pull::Item(5),
    ];
    let mut dedup = Dedup::new();
    assert_eq!(dedup.poll_all(polls), vec![1, 2, 3, 2, 4]);
    assert_eq!(dedup.begin(), Step::Return(Pull::Closed));
    assert_eq!(dedup.poll_all(vec![Pull::Item(6)]), Vec::<i32>::new());
    assert_eq!(Dedup::<i32>::new().poll_all(Vec::new()), Vec::<i32>::new());
    assert_eq!(Dedup::new().poll_all(vec![Pull::Item(123), Pull::Closed]), vec![123]);
}

#[test]
fn dedup_of_a_deduplicated_run_keeps_it() {
    let items = [4, 4, 5, 5, 5, 4, 6, 6];
    let once = Dedup::new().poll_all(items.iter().map(|&next| Pull::Item(next)).collect());
    assert_eq!(once, vec![4, 5, 4, 6]);
    let twice = Dedup::new().poll_all(once.iter().map(|&next| Pull::Item(next)).collect());
    assert_eq!(twice, once);
    assert_eq!(once, run_heads(&items));
}

#[test]
fn dedup_by_key_takes_a_whole_run_of_reports() {
    let mut polls: Vec<Pull<i32>> =
        [1, 2, 3, 1, 2, 4, 8].iter().map(|&next| Pull::Item(next)).collect();
    polls.insert(3, Pull::Pending);
    polls.push(Pull::Closed);
    polls.push(Pull::Item(9));
    let mut dedup = DedupByKey::new(|num: &i32| num % 2);
    assert_eq!(dedup.poll_all(polls), vec![1, 2, 3, 2]);
    assert_eq!(dedup.begin::<i32>(), Step::Return(Pull::Closed));
}

#[test]
fn batch_takes_a_whole_run_of_reports() {
    let mut events = Vec::new();
    events.push(BatchEvent::Primary(Pull::Pending));
    events.push(BatchEvent::Trigger(Pull::Pending));
    for next in [1, 2, 3] {
        events.push(BatchEvent::Primary(Pull::Item(next)));
    }
    events.push(BatchEvent::Primary(Pull::Pending));
    events.push(BatchEvent::Trigger(Pull::Item(())));
    events.push(BatchEvent::Trigger(Pull::Item(())));
    for next in [4, 5] {
        events.push(BatchEvent::Primary(Pull::Item(next)));
    }
    events.push(BatchEvent::Primary(Pull::Pending));
    events.push(BatchEvent::Trigger(Pull::Item(())));
    for next in [6, 7, 8] {
        events.push(BatchEvent::Primary(Pull::Item(next)));
    }
    events.push(BatchEvent::Primary(Pull::Closed));
    events.push(BatchEvent::Primary(Pull::Item(9)));
    events.push(BatchEvent::Trigger(Pull::Item(())));
    let mut batch = BatchWith::new();
    assert_eq!(batch.poll_all(events), vec![vec![1, 2, 3], vec![4, 5], vec![6, 7, 8]]);
    assert_eq!(batch.begin(), BatchStep::Return(Pull::Closed));
}

#[test]
fn switch_takes_the_outer_reports_of_one_pull() {
    let mut switch = Switch::new();
    assert_eq!(switch.poll_outer_all(Vec::new()), OuterStep::PullOuter);
    assert_eq!(switch.poll_outer_all(vec![Pull::Pending]), OuterStep::Pending);
    let run = vec![
        Pull::Item(vec![1, 2, 3]),
        Pull::Item(vec![4, 5, 6]),
        Pull::Item(vec![7, 8, 9]),
        Pull::Closed,
        Pull::Item(vec![0]),
    ];
    assert_eq!(switch.poll_outer_all(run), OuterStep::PullInner);
    assert_eq!(switch.inner_mut(), Some(&mut vec![7, 8, 9]));
    assert_eq!(switch.poll_inner(Pull::Item(7)), Pull::Item(7));
    assert_eq!(switch.poll_inner(Pull::<i32>::Closed), Pull::Closed);

    let mut switch = Switch::new();
    let run = vec![Pull::Item(vec![1]), Pull::Pending, Pull::Item(vec![2])];
    assert_eq!(switch.poll_outer_all(run), OuterStep::PullInner);
    assert_eq!(switch.inner_mut(), Some(&mut vec![1]));
    assert_eq!(switch.poll_inner(Pull::<i32>::Closed), Pull::Pending);
    assert_eq!(switch.poll_outer_all(vec![Pull::Item(vec![2])]), OuterStep::PullOuter);
    assert_eq!(switch.inner_mut(), Some(&mut vec![2]));
    assert_eq!(Switch::<Vec<i32>>::new().poll_outer_all(vec![Pull::Closed]), OuterStep::Closed);
}
