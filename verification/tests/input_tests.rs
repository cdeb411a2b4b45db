use mino_core::common::{HARD_DROP, InputIterator, MOVE_RIGHT, ROTATE_CW, SOFT_DROP};
use mino_core::helper::tspin_num_to_en_str_long;
use mino_core::common::create_basic_input_manager;
use mino_core::input_counter::InputCounter;

#[test]
fn one_shot() {
    let mut c = InputCounter::new(0, 0);
    assert!(!c.can_handle());
    c.update(true);
    assert!(c.can_handle());
    c.update(true); // ignored
    assert!(c.can_handle());
    assert!(c.handle());
    assert!(!c.can_handle());
    c.update(true);
    assert!(!c.can_handle());
    c.update(false);
    assert!(!c.can_handle());
    c.update(true);
    assert!(c.can_handle());
}

#[test]
fn repeatable() {
    let mut c = InputCounter::new(1, 0);
    assert!(!c.can_handle());
    c.update(true);
    assert!(c.can_handle());
    c.update(true);
    assert!(c.can_handle());
    assert!(c.handle());
    assert!(!c.can_handle());
    c.update(true);
    assert!(c.can_handle());
    c.update(true); // ignored
    assert!(c.can_handle());
    assert!(c.handle());
    assert!(!c.can_handle());
}

#[test]
fn repeatable2() {
    let mut c = InputCounter::new(2, 3);
    assert!(!c.handle());
    c.update(true);
    assert!(c.handle());
    c.update(true);
    assert!(!c.handle());
    c.update(true);
    assert!(!c.handle());
    c.update(true);
    assert!(c.handle());
    c.update(true);
    assert!(!c.handle());
    c.update(true);
    assert!(c.handle());
}

#[test]
fn handle_at_most_once() {
    // a pending trigger is consumed exactly once between updates
    let mut c = InputCounter::new(0, 0);
    c.update(true);
    assert!(c.handle());
    assert!(!c.handle());
}

#[test]
fn das_arr_schedule() {
    // with a first delay of 3 and a repeat of 2, a held key triggers at
    // frames 1, 4, 6, 8, 10, ...
    let mut mgr = create_basic_input_manager(3, 2);
    let mut handled = Vec::new();
    for frame in 1..=10u32 {
        mgr.update(MOVE_RIGHT);
        if mgr.handle(MOVE_RIGHT) {
            handled.push(frame);
        }
    }
    assert_eq!(handled, vec![1, 4, 6, 8, 10]);
}

#[test]
fn released_key_resets() {
    // letting go of the key rearms the one-shot trigger
    let mut mgr = create_basic_input_manager(11, 2);
    mgr.update(HARD_DROP);
    assert!(mgr.handle(HARD_DROP));
    mgr.update(HARD_DROP);
    assert!(!mgr.handle(HARD_DROP));
    mgr.update(0);
    mgr.update(HARD_DROP);
    assert!(mgr.handle(HARD_DROP));
}

#[test]
fn input_iterator_yields_set_flags() {
    let mut it = InputIterator::new(SOFT_DROP | ROTATE_CW);
    assert_eq!(it.next(), Some(SOFT_DROP));
    assert_eq!(it.next(), Some(ROTATE_CW));
    assert_eq!(it.next(), None);
    let mut it = InputIterator::new(0);
    assert_eq!(it.next(), None);
}

#[test]
fn tspin_clear_names() {
    assert_eq!(tspin_num_to_en_str_long(0), "Zero");
    assert_eq!(tspin_num_to_en_str_long(1), "Single");
    assert_eq!(tspin_num_to_en_str_long(2), "Double");
    assert_eq!(tspin_num_to_en_str_long(3), "Triple");
    assert_eq!(tspin_num_to_en_str_long(9), "");
}
