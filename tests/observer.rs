use std::fmt::Debug;
use std::marker::PhantomData;
use std::sync::atomic::{AtomicBool, AtomicUsize, Ordering};
use std::sync::{Arc, Mutex};

use reactive::observer;
use reactive::observer::{Observable, Observer, Subscribable};

struct TestObserver<T> {
    count: i32,
    target: i32,
    completed: Arc<AtomicBool>,
    _t: PhantomData<T>,
}

struct CompletionGuard {
    completed: Arc<AtomicBool>,
    expected_completion: bool,
}

impl Drop for CompletionGuard {
    fn drop(&mut self) {
        let actual_completion = self.completed.load(Ordering::Relaxed);
        if self.expected_completion {
            assert!(actual_completion);
        } else {
            assert!(!actual_completion);
        }
    }
}

impl<T> TestObserver<T> {
    fn ensure_completion(&self) -> CompletionGuard {
        CompletionGuard { completed: self.completed.clone(), expected_completion: true }
    }
    fn ensure_no_completion(&self) -> CompletionGuard {
        CompletionGuard { completed: self.completed.clone(), expected_completion: false }
    }
}

fn new_observer<T>(target: i32) -> TestObserver<T> {
    TestObserver { count: 0, target, completed: Arc::new(AtomicBool::new(false)), _t: PhantomData }
}

impl<T: Debug> Observer for TestObserver<T> {
    type Item = T;
    fn on_next(mut self, val: T) -> Option<Self> {
        self.count += 1;
        println!("{:?}", val);
        Some(self)
    }
    fn on_completed(self) {
        assert!(self.count == self.target);
        self.completed.store(true, Ordering::Relaxed);
    }
}

/// What a `Recorder` saw: the values in order and how often it completed.
struct Log<T> {
    values: Vec<T>,
    completions: usize,
}

/// A sink that writes what it receives into a shared log, and stops after
/// `limit` values when one is set.
struct Recorder<T> {
    log: Arc<Mutex<Log<T>>>,
    limit: Option<usize>,
}

fn recorder<T>() -> (Recorder<T>, Arc<Mutex<Log<T>>>) {
    let log = Arc::new(Mutex::new(Log { values: Vec::new(), completions: 0 }));
    (Recorder { log: log.clone(), limit: None }, log)
}

impl<T> Observer for Recorder<T> {
    type Item = T;
    fn on_next(self, val: T) -> Option<Self> {
        let n = {
            let mut log = self.log.lock().unwrap();
            log.values.push(val);
            log.values.len()
        };
        match self.limit {
            Some(limit) if n >= limit => None,
            _ => Some(self),
        }
    }
    fn on_completed(self) {
        self.log.lock().unwrap().completions += 1;
    }
}

/// A source that counts how many values it has produced.
fn counted(values: Vec<i32>, produced: Arc<AtomicUsize>) -> impl Subscribable<Item = i32> {
    observer::from_iter(values).map(move |x: i32| {
        produced.fetch_add(1, Ordering::Relaxed);
        x
    })
}

fn snapshot<T: Clone>(log: &Arc<Mutex<Log<T>>>) -> (Vec<T>, usize) {
    let log = log.lock().unwrap();
    (log.values.clone(), log.completions)
}

#[test]
fn it_works() {
    let s = observer::from_iter((1..5).collect::<Vec<i32>>()).filter(|&x: &i32| x > 2);

    let observer = new_observer(2);
    let _completion = observer.ensure_completion();
    let _subscription = s.subscribe(observer);
}

#[test]
fn take_works() {
    let s = observer::take::new(observer::from_iter((1..5).collect::<Vec<i32>>()), 3);
    let observer = new_observer(3);
    let _completion = observer.ensure_completion();
    let _subscription = s.subscribe(observer);
}

#[test]
fn never_works() {
    let s = observer::never::<i32>();
    let observer = new_observer(3);
    let _completion = observer.ensure_no_completion();
    let _subscription = s.subscribe(observer);
}

#[test]
fn filter_keeps_accepted_values_in_order() {
    let (sink, log) = recorder();
    let _sub = observer::from_iter(vec![5, 1, 8, 2, 9, 3]).filter(|&x: &i32| x % 2 == 1).subscribe(sink);
    assert_eq!(snapshot(&log), (vec![5, 1, 9, 3], 1));
}

#[test]
fn filter_free_function_delivers_three_and_four() {
    let (sink, log) = recorder();
    let _sub = observer::filter(observer::from_iter(vec![1, 2, 3, 4]), |&x: &i32| x > 2).subscribe(sink);
    assert_eq!(snapshot(&log), (vec![3, 4], 1));
}

#[test]
fn filter_rejecting_everything_still_completes() {
    let (sink, log) = recorder();
    let _sub = observer::from_iter(vec![1, 2, 3]).filter(|_: &i32| false).subscribe(sink);
    assert_eq!(snapshot(&log), (vec![], 1));
}

#[test]
fn map_transforms_each_value() {
    let (sink, log) = recorder();
    let _sub = observer::from_iter(vec![1, 2, 3]).map(|x: i32| x * 10 + 1).subscribe(sink);
    assert_eq!(snapshot(&log), (vec![11, 21, 31], 1));
}

#[test]
fn map_changes_the_item_type() {
    let (sink, log) = recorder();
    let _sub = observer::map::new(observer::from_iter(vec![3, 0]), |x: i32| x > 1).subscribe(sink);
    assert_eq!(snapshot(&log), (vec![true, false], 1));
}

#[test]
fn take_three_of_four_stops_the_source() {
    let produced = Arc::new(AtomicUsize::new(0));
    let (sink, log) = recorder();
    let _sub = observer::take::new(counted(vec![1, 2, 3, 4], produced.clone()), 3).subscribe(sink);
    assert_eq!(snapshot(&log), (vec![1, 2, 3], 1));
    assert_eq!(produced.load(Ordering::Relaxed), 3);
}

#[test]
fn take_more_than_available_completes_once() {
    let (sink, log) = recorder();
    let _sub = observer::from_iter(vec![1, 2]).take(5).subscribe(sink);
    assert_eq!(snapshot(&log), (vec![1, 2], 1));
}

#[test]
fn take_exactly_all_completes_once() {
    let (sink, log) = recorder();
    let _sub = observer::from_iter(vec![1, 2, 3]).take(3).subscribe(sink);
    assert_eq!(snapshot(&log), (vec![1, 2, 3], 1));
}

#[test]
fn take_zero_completes_at_once() {
    let produced = Arc::new(AtomicUsize::new(0));
    let (sink, log) = recorder();
    let _sub = counted(vec![1, 2, 3], produced.clone()).take(0).subscribe(sink);
    assert_eq!(snapshot(&log), (vec![], 1));
    assert_eq!(produced.load(Ordering::Relaxed), 1);
}

#[test]
fn take_zero_of_never_completes() {
    let (sink, log) = recorder::<i32>();
    let _sub = observer::never::<i32>().take(0).subscribe(sink);
    assert_eq!(snapshot(&log), (vec![], 1));
}

#[test]
fn take_stops_when_downstream_stops() {
    let (mut sink, log) = recorder();
    sink.limit = Some(2);
    let _sub = observer::from_iter(vec![1, 2, 3, 4]).take(3).subscribe(sink);
    assert_eq!(snapshot(&log), (vec![1, 2], 0));
}

#[test]
fn take_while_drops_the_failing_value() {
    let (sink, log) = recorder();
    let _sub = observer::from_iter(vec![1, 2, 7, 3]).take_while(|&x: &i32| x < 5).subscribe(sink);
    assert_eq!(snapshot(&log), (vec![1, 2], 1));
}

#[test]
fn take_while_all_pass() {
    let (sink, log) = recorder();
    let _sub = observer::from_iter(vec![1, 2]).take_while(|&x: &i32| x < 5).subscribe(sink);
    assert_eq!(snapshot(&log), (vec![1, 2], 1));
}

#[test]
fn take_until_keeps_the_boundary_value() {
    let (sink, log) = recorder();
    let _sub = observer::from_iter(vec![1, 2, 7, 3]).take_until(|&x: &i32| x > 5).subscribe(sink);
    assert_eq!(snapshot(&log), (vec![1, 2, 7], 1));
}

#[test]
fn take_until_never_true() {
    let (sink, log) = recorder();
    let _sub = observer::take_until::new(observer::from_iter(vec![1, 2]), |&x: &i32| x > 5).subscribe(sink);
    assert_eq!(snapshot(&log), (vec![1, 2], 1));
}

#[test]
fn skip_drops_the_first_values() {
    let (sink, log) = recorder();
    let _sub = observer::from_iter(vec![1, 2, 3, 4, 5]).skip(2).subscribe(sink);
    assert_eq!(snapshot(&log), (vec![3, 4, 5], 1));
}

#[test]
fn skip_more_than_available() {
    let (sink, log) = recorder();
    let _sub = observer::skip::new(observer::from_iter(vec![1, 2]), 4).subscribe(sink);
    assert_eq!(snapshot(&log), (vec![], 1));
}

#[test]
fn skip_while_stops_testing_after_first_pass() {
    let (sink, log) = recorder();
    let _sub = observer::from_iter(vec![1, 2, 6, 1, 7]).skip_while(|&x: &i32| x < 5).subscribe(sink);
    assert_eq!(snapshot(&log), (vec![6, 1, 7], 1));
}

#[test]
fn skip_while_skips_everything() {
    let (sink, log) = recorder();
    let _sub = observer::skip_while::new(observer::from_iter(vec![1, 2]), |_: &i32| true).subscribe(sink);
    assert_eq!(snapshot(&log), (vec![], 1));
}

#[test]
fn never_signals_nothing() {
    let (sink, log) = recorder::<i32>();
    let sub = observer::never::<i32>().subscribe(sink);
    drop(sub);
    assert_eq!(snapshot(&log), (vec![], 0));
}

#[test]
fn empty_completes_without_values() {
    let (sink, log) = recorder::<i32>();
    let _sub = observer::empty::new::<i32>().subscribe(sink);
    assert_eq!(snapshot(&log), (vec![], 1));
}

#[test]
fn concat_delivers_both_in_order() {
    let (sink, log) = recorder();
    let _sub = observer::from_iter(vec![1, 2]).concat(observer::from_iter(vec![3, 4, 5])).subscribe(sink);
    assert_eq!(snapshot(&log), (vec![1, 2, 3, 4, 5], 1));
}

#[test]
fn concat_of_empty_sources() {
    let (sink, log) = recorder::<i32>();
    let _sub = observer::concat::new(observer::empty::new::<i32>(), observer::from_iter(vec![])).subscribe(sink);
    assert_eq!(snapshot(&log), (vec![], 1));
}

#[test]
fn concat_after_never_does_not_start_second() {
    let (sink, log) = recorder();
    let _sub = observer::never::<i32>().concat(observer::from_iter(vec![1])).subscribe(sink);
    assert_eq!(snapshot(&log), (vec![], 0));
}

#[test]
fn concat_stops_when_downstream_stops() {
    let (mut sink, log) = recorder();
    sink.limit = Some(3);
    let _sub = observer::from_iter(vec![1, 2]).concat(observer::from_iter(vec![3, 4, 5])).subscribe(sink);
    assert_eq!(snapshot(&log), (vec![1, 2, 3], 0));
}

#[test]
fn concat_dispose_twice_is_harmless() {
    let (sink, log) = recorder();
    let sub = observer::from_iter(vec![1]).concat(observer::from_iter(vec![2])).subscribe(sink);
    sub.dispose();
    sub.dispose();
    drop(sub);
    assert_eq!(snapshot(&log), (vec![1, 2], 1));
}

#[test]
fn pipeline_of_several_stages() {
    let (sink, log) = recorder();
    let _sub = observer::from_iter((1..=10).collect::<Vec<i32>>())
        .skip(1)
        .filter(|&x: &i32| x % 3 != 0)
        .map(|x: i32| x * x)
        .take(4)
        .subscribe(sink);
    assert_eq!(snapshot(&log), (vec![4, 16, 25, 49], 1));
}
