use std::pin::Pin;
use std::task::{Context, Poll};

use async_rx::{Dedup, DedupByKey, Pull, Step};
use futures_core::Stream;
use futures_util::task::noop_waker_ref;
use futures_util::{stream, FutureExt, StreamExt};

fn reported<T>(polled: Poll<Option<T>>) -> Pull<T> {
    match polled {
        Poll::Ready(Some(item)) => Pull::Item(item),
        Poll::Ready(None) => Pull::Closed,
        Poll::Pending => Pull::Pending,
    }
}

fn answer<T>(pull: Pull<T>) -> Poll<Option<T>> {
    match pull {
        Pull::Item(item) => Poll::Ready(Some(item)),
        Pull::Closed => Poll::Ready(None),
        Pull::Pending => Poll::Pending,
    }
}

fn poll_once<S: Stream + Unpin>(stream: &mut S) -> Poll<Option<S::Item>> {
    let mut cx = Context::from_waker(noop_waker_ref());
    Pin::new(stream).poll_next(&mut cx)
}

struct DedupStream<S: Stream> {
    inner: S,
    state: Dedup<S::Item>,
}

fn dedup<S: Stream>(inner: S) -> DedupStream<S> {
    DedupStream { inner, state: Dedup::new() }
}

impl<S> Stream for DedupStream<S>
where
    S: Stream + Unpin,
    S::Item: Clone + PartialEq + Unpin,
{
    type Item = S::Item;

    fn poll_next(self: Pin<&mut Self>, cx: &mut Context<'_>) -> Poll<Option<S::Item>> {
        let this = self.get_mut();
        let mut step = this.state.begin();
        loop {
            match step {
                Step::Return(pull) => return answer(pull),
                Step::Again => {
                    let polled = Pin::new(&mut this.inner).poll_next(cx);
                    step = this.state.poll_next(reported(polled));
                }
            }
        }
    }
}

struct DedupByKeyStream<S, K, F> {
    inner: S,
    state: DedupByKey<K, F>,
}

fn dedup_by_key_stream<S, K, F>(inner: S, key_fn: F) -> DedupByKeyStream<S, K, F>
where
    S: Stream,
    F: FnMut(&S::Item) -> K,
{
    DedupByKeyStream { inner, state: DedupByKey::new(key_fn) }
}

impl<S, K, F> Stream for DedupByKeyStream<S, K, F>
where
    S: Stream + Unpin,
    K: PartialEq + Unpin,
    F: FnMut(&S::Item) -> K + Unpin,
{
    type Item = S::Item;

    fn poll_next(self: Pin<&mut Self>, cx: &mut Context<'_>) -> Poll<Option<S::Item>> {
        let this = self.get_mut();
        let mut step = this.state.begin();
        loop {
            match step {
                Step::Return(pull) => return answer(pull),
                Step::Again => {
                    let polled = Pin::new(&mut this.inner).poll_next(cx);
                    step = this.state.poll_next(reported(polled));
                }
            }
        }
    }
}

#[test]
fn dedup_empty() {
    let mut stream = dedup(stream::empty::<u8>());
    assert_eq!(poll_once(&mut stream), Poll::Ready(None));
}

#[test]
fn dedup_one() {
    let mut stream = dedup(stream::iter([123]));
    assert_eq!(poll_once(&mut stream), Poll::Ready(Some(123)));
    assert_eq!(poll_once(&mut stream), Poll::Ready(None));
}

#[test]
fn actually_dedup() {
    let stream = dedup(stream::iter([1, 2, 3, 3, 3, 2, 4, 4]));
    assert_eq!(stream.collect::<Vec<_>>().now_or_never().unwrap(), vec![1, 2, 3, 2, 4]);
}

#[test]
fn pending() {
    let mut stream = dedup(stream::iter([1, 1, 2, 2]).chain(stream::pending()));
    assert_eq!(poll_once(&mut stream), Poll::Ready(Some(1)));
    assert_eq!(poll_once(&mut stream), Poll::Ready(Some(2)));
    assert_eq!(poll_once(&mut stream), Poll::Pending);
}

#[test]
fn dedup_by_key() {
    let stream = dedup_by_key_stream(stream::iter([1, 2, 3, 1, 2, 4, 8]), |num| num % 2);
    assert_eq!(stream.collect::<Vec<_>>().now_or_never().unwrap(), vec![1, 2, 3, 2]);
}

#[test]
fn dedup_by_key_derives_each_key_once() {
    let mut calls = 0;
    let stream = dedup_by_key_stream(stream::iter(["a", "b", "cd", "ef", "g"]), |word| {
        calls += 1;
        word.len()
    });
    assert_eq!(stream.collect::<Vec<_>>().now_or_never().unwrap(), vec!["a", "cd", "g"]);
    assert_eq!(calls, 5);
}

#[test]
fn dedup_keeps_items_that_return_after_another() {
    let stream = dedup(stream::iter(["x", "y", "x", "x", "y"]));
    assert_eq!(stream.collect::<Vec<_>>().now_or_never().unwrap(), vec!["x", "y", "x", "y"]);
}

struct Once {
    polls: u32,
}

impl Stream for Once {
    type Item = u32;

    fn poll_next(self: Pin<&mut Self>, _cx: &mut Context<'_>) -> Poll<Option<u32>> {
        let this = self.get_mut();
        this.polls += 1;
        match this.polls {
            1 => Poll::Ready(Some(41)),
            2 => Poll::Ready(None),
            _ => panic!("pulled after it had closed"),
        }
    }
}

#[test]
fn dedup_stays_closed_and_pulls_no_closed_stream() {
    let mut stream = dedup(Once { polls: 0 });
    assert_eq!(poll_once(&mut stream), Poll::Ready(Some(41)));
    assert_eq!(poll_once(&mut stream), Poll::Ready(None));
    assert_eq!(poll_once(&mut stream), Poll::Ready(None));
    assert_eq!(poll_once(&mut stream), Poll::Ready(None));
    assert_eq!(stream.inner.polls, 2);
}

#[test]
fn dedup_by_key_stays_closed_and_pulls_no_closed_stream() {
    let mut calls = 0;
    {
        let mut stream = dedup_by_key_stream(Once { polls: 0 }, |num: &u32| {
            calls += 1;
            num % 2
        });
        assert_eq!(poll_once(&mut stream), Poll::Ready(Some(41)));
        assert_eq!(poll_once(&mut stream), Poll::Ready(None));
        assert_eq!(poll_once(&mut stream), Poll::Ready(None));
        assert_eq!(poll_once(&mut stream), Poll::Ready(None));
        assert_eq!(stream.inner.polls, 2);
    }
    assert_eq!(calls, 1);
}
