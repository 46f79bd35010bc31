use std::cell::Cell;

use effective::impls::block::Executor;
use effective::impls::EffectiveExt;
use effective::wrappers::{fallible, from_fn_once, future, iterator, once};
use effective::{Blocking, EffectResult, Effective};

/// A driver that re-polls on the current thread until the computation is
/// ready.
struct Spin;

impl Executor for Spin {
    fn block_on<E: Effective>(
        &mut self,
        e: &mut E,
    ) -> EffectResult<E::Item, E::Failure, E::Produces, Blocking> {
        loop {
            match e.poll_effect() {
                EffectResult::Item(x) => return EffectResult::Item(x),
                EffectResult::Failure(f) => return EffectResult::Failure(f),
                EffectResult::Done(p) => return EffectResult::Done(p),
                EffectResult::Pending(_) => continue,
            }
        }
    }
}

#[test]
fn map_is_applied_elementwise() {
    let v: Vec<i32> = iterator(vec![1, 2, 3, 4]).map(|x| x + 1).collect().get();
    assert_eq!(v, vec![2, 3, 4, 5]);
}

#[test]
fn collect_preserves_order_and_is_exhaustive() {
    let v: Vec<i32> = iterator(vec![5, 1, 4, 1, 5]).collect().get();
    assert_eq!(v, vec![5, 1, 4, 1, 5]);
    let empty: Vec<i32> = iterator(Vec::new()).collect().get();
    assert_eq!(empty.len(), 0);
}

#[test]
fn flatten_of_single_item_computations_extracts() {
    let v: Vec<usize> = iterator(vec![1usize, 2, 3])
        .map(|x| iterator(vec![x; x]))
        .flatten()
        .collect()
        .get();
    assert_eq!(v, vec![1, 2, 2, 3, 3, 3]);
}

#[test]
fn flat_map_merges_inner_computations() {
    let v: Vec<i32> = iterator(vec![10, 20])
        .flat_map(|x| iterator(vec![x, x + 1]))
        .collect()
        .get();
    assert_eq!(v, vec![10, 11, 20, 21]);
}

#[test]
fn fold_multiplies_to_120() {
    let v: i32 = iterator(vec![2, 3, 4, 5]).fold(1, |acc, x| once(acc * x)).get();
    assert_eq!(v, 120);
}

#[test]
fn fold_of_empty_returns_the_initial_accumulator() {
    let v: i32 = iterator(Vec::new()).fold(1, |acc, x: i32| once(acc * x)).get();
    assert_eq!(v, 1);
}

#[test]
fn failure_short_circuits_and_later_work_never_runs() {
    let calls = Cell::new(0u32);
    let r: Result<Vec<i32>, &str> = iterator(vec![1, 2, 3, 4])
        .map(|x| {
            calls.set(calls.get() + 1);
            fallible(if x == 3 { Err("third failed") } else { Ok(x) })
        })
        .flatten()
        .collect()
        .try_get();
    assert_eq!(r, Err("third failed"));
    assert_eq!(calls.get(), 3);
}

#[test]
fn collect_resumes_after_suspension() {
    let mut c = iterator(vec![1u8, 2])
        .map(|x| future(x * 2, 1))
        .flatten()
        .collect();
    let mut pendings = 0u32;
    let v = loop {
        match c.poll_effect() {
            EffectResult::Item(v) => break v,
            EffectResult::Pending(_) => pendings += 1,
            _ => unreachable!(),
        }
    };
    assert_eq!(v, vec![2, 4]);
    assert_eq!(pendings, 2);
}

#[test]
fn block_on_drives_suspended_computations() {
    let v: Vec<u8> = iterator(vec![1u8, 2, 3, 4])
        .map(|x| future(x + 1, 2))
        .flatten()
        .block_on(Spin)
        .collect()
        .get();
    assert_eq!(v, vec![2, 3, 4, 5]);
}

#[test]
fn block_on_single_future() {
    let v = future(7u64, 3).block_on(Spin).get();
    assert_eq!(v, 7);
}

#[test]
fn unwrap_is_a_no_op_on_failure_free_computations() {
    let v: Vec<i32> = iterator(vec![1, 2]).unwrap().collect().get();
    assert_eq!(v, vec![1, 2]);
    assert_eq!(once(9i32).unwrap().get(), 9);
}

#[test]
fn unwrap_discharges_a_fallible_channel() {
    let v = from_fn_once(|| 1i32)
        .map(|x| fallible(x.checked_add(1)))
        .flatten()
        .unwrap()
        .get();
    assert_eq!(v, 2);
}

#[test]
fn for_each_visits_every_item() {
    let sum = Cell::new(0i32);
    iterator(vec![1, 2, 3])
        .for_each(|x| {
            sum.set(sum.get() + x);
            once(())
        })
        .get();
    assert_eq!(sum.get(), 6);
}

#[test]
fn fold_propagates_a_child_failure() {
    let r: Result<i32, &str> = iterator(vec![2, 0, 5])
        .fold(10, |acc, x| fallible(if x == 0 { Err("division by zero") } else { Ok(acc / x) }))
        .try_get();
    assert_eq!(r, Err("division by zero"));
}

#[test]
fn suspension_is_invisible_in_the_output() {
    let eager: Vec<u8> = iterator(vec![3u8, 4]).map(|x| future(x, 0)).flatten().block_on(Spin).collect().get();
    let lazy: Vec<u8> = iterator(vec![3u8, 4]).map(|x| future(x, 5)).flatten().block_on(Spin).collect().get();
    assert_eq!(eager, lazy);
}

#[test]
fn flatten_size_hint_bounds_the_outer_side() {
    let f = iterator(vec![once(1u8), once(2)]).flatten();
    assert_eq!(f.size_hint(), (2, Some(2)));
    let m = iterator(vec![1u8, 2, 3]).map(|x| once(x)).flatten();
    let (lower, upper) = m.size_hint();
    assert_eq!(lower, 3);
    assert_eq!(upper, Some(3));
}

#[test]
fn collect_try_get_success() {
    let r: Result<Vec<i32>, &str> = iterator(vec![1, 2])
        .map(|x| fallible(Ok::<i32, &str>(x * 3)))
        .flatten()
        .collect()
        .try_get();
    assert_eq!(r, Ok(vec![3, 6]));
}

#[test]
fn unwrap_size_hint_forwards_the_upper_bound() {
    let u = iterator(vec![1, 2, 3]).unwrap();
    assert_eq!(u.size_hint(), (3, Some(3)));
}

#[test]
fn flatten_of_exhausted_outer_is_done() {
    let mut f = iterator(Vec::<effective::wrappers::Once<u8>>::new()).flatten();
    assert!(matches!(f.poll_effect(), EffectResult::Done(_)));
}

#[test]
fn outer_failure_widens_through_flatten() {
    let r: Result<i32, &str> = fallible(Err::<i32, &str>("outer gone"))
        .map(|x| once(x))
        .flatten()
        .try_get();
    assert_eq!(r, Err("outer gone"));
}
