use core::ops::ControlFlow;

use effective::impls::EffectiveExt;
use effective::SimpleTry;
use effective::wrappers::{fallible, from_fn_once, from_try, future, iterator, once, unfold};
use effective::{Blocking, EffectResult, Effective, Failure, Multiple, Single};

#[test]
fn get_returns_the_single_item() {
    let e = once(42u64);
    assert_eq!(e.get(), 42);
}

#[test]
fn single_poll_produces_the_item() {
    let mut e = once(7i32);
    match e.poll_effect() {
        EffectResult::Item(x) => assert_eq!(x, 7),
        _ => unreachable!("a single-valued computation must produce its item"),
    }
}

#[test]
fn iterator_produces_in_order() {
    let mut e = iterator(vec![5, 1, 4]);
    let mut seen = Vec::new();
    loop {
        match e.poll_effect() {
            EffectResult::Item(x) => seen.push(x),
            EffectResult::Done(Multiple) => break,
            _ => unreachable!(),
        }
    }
    assert_eq!(seen, vec![5, 1, 4]);
}

#[test]
fn iterator_size_hint_is_exact() {
    let e = iterator(vec![1, 2, 3]);
    assert_eq!(e.size_hint(), (3, Some(3)));
}

#[test]
fn once_size_hint_is_single() {
    let e = once(9u8);
    assert_eq!(e.size_hint(), (1, Some(1)));
}

#[test]
fn fallible_success_continues() {
    let v: Option<i32> = fallible(Some(42)).map(|x| x + 1).try_get();
    assert_eq!(v, Some(43));
}

#[test]
fn fallible_failure_breaks() {
    let v: Result<i32, String> = fallible(Err::<i32, String>("boom".to_string())).try_get();
    assert_eq!(v, Err("boom".to_string()));
}

#[test]
fn from_fn_once_runs_the_function() {
    let e = from_fn_once(|| 11u32);
    assert_eq!(e.get(), 11);
}

#[test]
fn from_try_keeps_the_failure_channel() {
    let ok: Result<i32, Failure<&str>> = Ok(3);
    let mut e = from_try(ok);
    match e.poll_effect() {
        EffectResult::Item(x) => assert_eq!(x, 3),
        _ => unreachable!(),
    }
    let bad: Result<i32, Failure<&str>> = Err(Failure("no"));
    let mut e2 = from_try(bad);
    match e2.poll_effect() {
        EffectResult::Failure(Failure(msg)) => assert_eq!(msg, "no"),
        _ => unreachable!(),
    }
}

#[test]
fn future_suspends_then_resolves() {
    let mut e = future(7u64, 1);
    assert!(matches!(
        e.poll_effect(),
        EffectResult::Pending(effective::Async)
    ));
    match e.poll_effect() {
        EffectResult::Item(x) => assert_eq!(x, 7),
        _ => unreachable!("after the suspension the same item must arrive"),
    }
}

#[test]
fn unfold_generates_from_seed() {
    let e = unfold(0u32, |t| once(if t < 3 { Some((t * 10, t + 1)) } else { None }));
    let v: Vec<u32> = e.collect().get();
    assert_eq!(v, vec![0, 10, 20]);
}

#[test]
fn unfold_empty_generation() {
    let e = unfold(0u32, |_t| once(None::<(u32, u32)>));
    let v: Vec<u32> = e.collect().get();
    assert_eq!(v, Vec::<u32>::new());
}

#[test]
fn markers_expose_their_flags() {
    assert!(<Multiple as effective::Iterable>::multiple_flag());
    assert!(!<Single as effective::Iterable>::multiple_flag());
    assert!(<effective::Async as effective::Asynchrony>::async_flag());
    assert!(!<Blocking as effective::Asynchrony>::async_flag());
    assert!(<Failure<u8> as effective::Fallible>::fallible_flag());
    assert!(!<core::convert::Infallible as effective::Fallible>::fallible_flag());
}

#[test]
fn failure_inner_returns_payload() {
    assert_eq!(effective::Fallible::inner(Failure(5u8)), 5);
}

#[test]
fn simple_try_round_trips() {
    let r: Result<i32, &str> = Ok(1);
    assert!(matches!(r.branch(), ControlFlow::Continue(1)));
    let r2: Result<i32, &str> = Err("e");
    assert!(matches!(r2.branch(), ControlFlow::Break("e")));
    assert_eq!(<Result<i32, &str> as SimpleTry>::from_continue(9), Ok(9));
    assert_eq!(<Result<i32, &str> as SimpleTry>::from_break("x"), Err("x"));
    let o: Option<u8> = Some(2);
    assert!(matches!(o.branch(), ControlFlow::Continue(2)));
    assert_eq!(<Option<u8> as SimpleTry>::from_break(()), None);
}
