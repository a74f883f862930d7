use defunctionalize::demo::{add, scale, Calc};
use defunctionalize::DeFn;

#[test]
fn dispatch_add_round_trips() {
    assert_eq!(Calc::Add(5).call(3), add(5, 3));
    assert_eq!(Calc::Add(5).call(3), 8);
}

#[test]
fn dispatch_scale_round_trips() {
    assert_eq!(Calc::Scale(5).call(3), scale(5, 3));
    assert_eq!(Calc::Scale(5).call(3), 15);
}

#[test]
fn uniform_calling_convention_forwards_to_dispatch() {
    assert_eq!(<Calc as DeFn<i32>>::call(Calc::Add(40), 2), 42);
    assert_eq!(<Calc as DeFn<i32>>::call(Calc::Scale(-7), 6), -42);
}

#[test]
fn dispatch_handles_extreme_captured_values() {
    assert_eq!(Calc::Add(i32::MAX).call(i32::MAX), i32::MAX as i64 * 2);
    assert_eq!(Calc::Scale(i32::MIN).call(i32::MIN), i32::MIN as i64 * i32::MIN as i64);
}
