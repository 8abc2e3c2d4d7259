use std::sync::atomic::{AtomicUsize, Ordering};
use std::sync::{Condvar, Mutex};

use multithread::{JobCount, Pool, Round};

/// Runs `f` once per worker of `pool`, the way the pool's workers would, with
/// the round's bookkeeping under a lock: every task is handed out first, then
/// the workers run in the order `turn` gives. Returns once the round is
/// complete, after checking that it was not complete any earlier.
fn broadcast_in_order<F: Fn()>(pool: &Pool, turn: &dyn Fn(usize, usize) -> usize, f: F) {
    if pool.is_current_thread() {
        f();
        return;
    }
    assert!(!pool.is_closed());
    let n = pool.workers();
    let state = (Mutex::new(pool.start_round()), Condvar::new());
    for w in 0..n {
        let mut g = state.0.lock().unwrap();
        assert!(g.can_send(w));
        g.send(w);
    }
    let mut order: Vec<usize> = (0..n).collect();
    order.sort_by_key(|&w| (turn(w, n), w));
    for (i, &w) in order.iter().enumerate() {
        assert!(!state.0.lock().unwrap().is_complete());
        f();
        let mut g = state.0.lock().unwrap();
        assert!(g.can_finish(w));
        let woke = g.finish(w);
        assert_eq!(woke, i + 1 == n);
        if woke {
            state.1.notify_all();
        }
    }
    let g = state.0.lock().unwrap();
    assert!(g.is_complete());
    assert_eq!(g.finished(), n);
}

fn broadcast<F: Fn()>(pool: &Pool, f: F) {
    broadcast_in_order(pool, &|w, n| n - 1 - w, f)
}

#[test]
fn job_count_wakes_at_zero() {
    let mut c = JobCount::new();
    assert!(c.is_zero());
    c.inc();
    c.inc();
    assert!(!c.is_zero());
    assert!(!c.dec());
    assert!(c.dec());
    assert!(c.is_zero());
}

#[test]
fn round_joins_only_when_every_worker_finished() {
    let mut r = Round::begin(4);
    assert_eq!(r.workers(), 4);
    assert!(r.is_joined());
    assert!(!r.is_complete());
    for w in 0..4 {
        assert!(r.can_send(w));
        r.send(w);
        assert!(!r.can_send(w));
    }
    assert!(!r.is_joined());
    assert!(!r.finish(2));
    assert!(!r.finish(0));
    assert!(!r.finish(3));
    assert_eq!(r.finished(), 3);
    assert!(!r.is_complete());
    assert!(!r.can_finish(0));
    assert!(r.can_finish(1));
    assert!(r.finish(1));
    assert!(r.is_joined());
    assert!(r.is_complete());
    assert_eq!(r.finished(), 4);
}

#[test]
fn round_not_complete_before_every_task_is_sent() {
    let mut r = Round::begin(3);
    r.send(0);
    assert!(r.finish(0));
    assert!(r.is_joined());
    assert!(!r.is_complete());
    assert!(!r.can_finish(1));
    assert!(!r.can_send(3));
    assert_eq!(r.finished(), 1);
}

#[test]
fn round_over_no_workers_is_complete() {
    let r = Round::begin(0);
    assert!(r.is_complete());
    assert_eq!(r.finished(), 0);
}

#[test]
fn callback_runs_once_per_worker() {
    for n in [1usize, 2, 5, 8] {
        let pool = Pool::new(n);
        assert_eq!(pool.invocations_per_broadcast(), n);
        let calls = AtomicUsize::new(0);
        broadcast(&pool, || {
            calls.fetch_add(1, Ordering::SeqCst);
        });
        assert_eq!(calls.load(Ordering::SeqCst), n);
    }
    let inline = Pool::new_current_thread();
    assert_eq!(inline.invocations_per_broadcast(), 1);
    let calls = AtomicUsize::new(0);
    broadcast(&inline, || {
        calls.fetch_add(1, Ordering::SeqCst);
    });
    assert_eq!(calls.load(Ordering::SeqCst), 1);
}

#[test]
fn broadcast_returns_after_every_invocation_ended() {
    let pool = Pool::new(4);
    for i in 0..200usize {
        let ended = AtomicUsize::new(0);
        let dispenser = AtomicUsize::new(0);
        let jitter = move |w: usize, n: usize| (w * 7 + i * 13) % n;
        broadcast_in_order(&pool, &jitter, || {
            dispenser.fetch_add(1, Ordering::SeqCst);
            ended.fetch_add(1, Ordering::SeqCst);
        });
        assert_eq!(dispenser.load(Ordering::SeqCst), 4);
        assert_eq!(ended.load(Ordering::SeqCst), 4);
    }
}

#[test]
fn borrowed_stack_value_is_free_after_broadcast() {
    let pool = Pool::new(3);
    for round in 0..1000usize {
        let local = Mutex::new(vec![0usize; 3]);
        let next = AtomicUsize::new(0);
        broadcast(&pool, || {
            let k = next.fetch_add(1, Ordering::SeqCst);
            local.lock().unwrap()[k] += round;
        });
        let v = local.into_inner().unwrap();
        assert_eq!(v, vec![round; 3]);
    }
}

#[test]
fn pool_is_reused_for_sequential_broadcasts() {
    let pool = Pool::new(3);
    let total = AtomicUsize::new(0);
    for _ in 0..50 {
        let r = pool.start_round();
        assert!(r.is_joined());
        assert_eq!(r.finished(), 0);
        assert!((0..3).all(|w| r.can_send(w)));
        broadcast(&pool, || {
            total.fetch_add(1, Ordering::SeqCst);
        });
    }
    assert_eq!(total.load(Ordering::SeqCst), 150);
}

#[test]
fn idempotent_callback_same_inline_and_threaded() {
    let run = |pool: &Pool| {
        let flags = Mutex::new([false; 4]);
        broadcast(pool, || {
            let mut g = flags.lock().unwrap();
            g[0] = true;
            g[2] = true;
        });
        flags.into_inner().unwrap()
    };
    let inline = run(&Pool::new_current_thread());
    let threaded = run(&Pool::new(4));
    assert_eq!(inline, threaded);
    assert_eq!(inline, [true, false, true, false]);
}

#[test]
fn teardown_closes_before_joining_every_worker() {
    let mut pool = Pool::new(3);
    assert!(!pool.is_torn_down());
    assert_eq!(pool.next_to_join(), None);
    pool.close();
    assert!(pool.is_closed());
    for w in 0..3 {
        assert!(!pool.is_torn_down());
        assert_eq!(pool.next_to_join(), Some(w));
        pool.joined_one();
    }
    assert_eq!(pool.next_to_join(), None);
    assert!(pool.is_torn_down());
}

#[test]
fn inline_pool_tears_down_at_once() {
    let mut pool = Pool::new_current_thread();
    assert!(pool.is_current_thread());
    assert_eq!(pool.workers(), 0);
    pool.close();
    assert_eq!(pool.next_to_join(), None);
    assert!(pool.is_torn_down());
}

#[test]
fn four_workers_fill_each_slot_once() {
    let pool = Pool::new(4);
    let slots = Mutex::new([0usize, 0, 0, 0]);
    let dispenser = AtomicUsize::new(0);
    broadcast(&pool, || {
        let index = dispenser.fetch_add(1, Ordering::SeqCst);
        slots.lock().unwrap()[index] += index;
    });
    let mut seen = slots.into_inner().unwrap();
    assert_eq!(seen.iter().sum::<usize>(), 6);
    seen.sort();
    assert_eq!(seen, [0, 1, 2, 3]);
}
