use axi_net::boot::{delay_pending, elapsed_us, harts_to_start};
use axi_net::trap::{trap_handler, TrapAction};

#[test]
fn secondary_harts() {
    assert_eq!(harts_to_start(0, 4), vec![1, 2, 3]);
    assert_eq!(harts_to_start(2, 4), vec![0, 1, 3]);
    assert_eq!(harts_to_start(0, 1), Vec::<usize>::new());
    assert_eq!(harts_to_start(7, 3), vec![0, 1, 2]);
}

#[test]
fn elapsed_microseconds() {
    assert_eq!(elapsed_us(100, 100), 0);
    assert_eq!(elapsed_us(0, 10_000_000), 1_000_000);
    assert_eq!(elapsed_us(5, 15), 1);
    assert_eq!(elapsed_us(5, 14), 0);
}

#[test]
fn delay_window() {
    assert!(delay_pending(1000, 1000, 1));
    assert!(delay_pending(1000, 10_999, 1));
    assert!(!delay_pending(1000, 11_000, 1));
    assert!(!delay_pending(1000, 1000, 0));
}

#[test]
fn trap_decisions() {
    assert_eq!(trap_handler(true, 9), TrapAction::ExternalInterrupt);
    assert_eq!(trap_handler(false, 3), TrapAction::Breakpoint);
    assert_eq!(trap_handler(true, 5), TrapAction::Unsupported);
    assert_eq!(trap_handler(false, 9), TrapAction::Unsupported);
    assert_eq!(trap_handler(true, 3), TrapAction::Unsupported);
    assert_eq!(trap_handler(false, 13), TrapAction::Unsupported);
    assert_eq!(trap_handler(true, 1000), TrapAction::Unsupported);
}
