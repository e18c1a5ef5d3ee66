use bringup::harness::{test_runner, Test, TestResult};
use std::cell::Cell;

struct Counting<'a> {
    order: &'a Cell<u32>,
    expect: u32,
}

impl Test for Counting<'_> {
    fn run(&self) {
        assert_eq!(self.order.get(), self.expect);
        self.order.set(self.expect + 1);
    }
}

#[test]
fn trivial_assertion() {
    assert_eq!(1, 1);
}

#[test]
fn runner_runs_every_test_once_in_order() {
    let order = Cell::new(0);
    let first = Counting { order: &order, expect: 0 };
    let second = Counting { order: &order, expect: 1 };
    let third = Counting { order: &order, expect: 2 };
    let tests: [&dyn Test; 3] = [&first, &second, &third];
    assert_eq!(test_runner(&tests), TestResult::Success);
    assert_eq!(order.get(), 3);
}

#[test]
fn runner_with_no_tests_passes() {
    assert_eq!(test_runner(&[]), TestResult::Success);
}

#[test]
fn exit_codes() {
    assert_eq!(TestResult::Success.code(), 0x10);
    assert_eq!(TestResult::Failure.code(), 0x11);
    assert_eq!(TestResult::Success.exit_status(), 33);
    assert_eq!(TestResult::Failure.exit_status(), 35);
    assert_eq!(TestResult::EXIT_PORT, 0xf4);
}
