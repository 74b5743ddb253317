use std::sync::atomic::AtomicUsize;

use bitplane::interrupt::Interrupt;

#[test]
fn an_interrupt_starts_unraised_and_counts_up() {
    let counter: &'static AtomicUsize = Box::leak(Box::new(AtomicUsize::new(0)));
    let interrupt = Interrupt::on(counter);

    assert!(!interrupt.is_raised());

    interrupt.raise();
    assert!(interrupt.is_raised());
    assert_eq!(interrupt.count(), 1);

    interrupt.raise();
    assert_eq!(interrupt.count(), 2, "a second Ctrl-C is a different thing");
}

#[test]
fn never_is_never_raised() {
    let never = Interrupt::never();
    never.raise();

    assert!(!never.is_raised());
    assert_eq!(never.count(), 0);
}
