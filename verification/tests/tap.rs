use maomi_lib::event::{TapDispatch, TapEvent, TouchEnd, TouchTracker, CANCEL_TAP_DIST};

#[test]
fn small_moves_keep_the_tap() {
    let mut t = TouchTracker::new();
    t.add(1, 10, 100, 100, true, Some(7));
    assert!(t.touch_mode());
    assert_eq!(t.update(1, 100 + CANCEL_TAP_DIST, 100 - CANCEL_TAP_DIST), None);
    let end = t.remove(1);
    assert_eq!(end, Some(TouchEnd { clear_timer: Some(7), event: TapDispatch { target: 10, client_x: 100, client_y: 100 } }));
    assert!(!t.touch_mode());
}

#[test]
fn moving_away_cancels() {
    let mut t = TouchTracker::new();
    t.add(1, 10, 100, 100, true, Some(7));
    t.add(2, 11, 0, 0, true, None);
    let end = t.update(1, 106, 100);
    assert_eq!(end, Some(TouchEnd { clear_timer: Some(7), event: TapDispatch { target: 10, client_x: 100, client_y: 100 } }));
    assert_eq!(t.remove(1), None);
    assert!(t.touch_mode());
    assert_eq!(t.interrupt(2), None);
    assert!(!t.touch_mode());
}

#[test]
fn long_tap_then_prevented() {
    let mut t = TouchTracker::new();
    t.add(0, 3, 5, 6, false, Some(9));
    assert!(!t.touch_mode());
    assert_eq!(t.trigger_long_tap(0), Some(TapDispatch { target: 3, client_x: 5, client_y: 6 }));
    t.end_long_tap(0, false);
    let end = t.remove(0);
    assert_eq!(end, Some(TouchEnd { clear_timer: None, event: TapDispatch { target: 3, client_x: 5, client_y: 6 } }));

    t.add(0, 3, 5, 6, false, Some(9));
    t.trigger_long_tap(0);
    t.end_long_tap(0, true);
    assert_eq!(t.remove(0), None);
    assert_eq!(t.trigger_long_tap(4), None);
}

#[test]
fn element_removal_interrupts_its_touch() {
    let mut t = TouchTracker::new();
    t.add(1, 10, 0, 0, true, Some(1));
    t.add(2, 20, 0, 0, true, Some(2));
    assert_eq!(t.interrupt_by_elem(10), Some(1));
    assert!(t.touch_mode());
    assert_eq!(t.interrupt_by_elem(10), None);
    assert_eq!(t.interrupt_by_elem(20), Some(2));
    assert!(!t.touch_mode());
}

#[test]
fn tap_event_flags() {
    let mut e = TapEvent::new(3, 4);
    assert_eq!((e.client_x(), e.client_y()), (3, 4));
    assert!(!e.propagation_stopped() && !e.default_prevented());
    e.stop_propagation();
    e.prevent_default();
    assert!(e.propagation_stopped() && e.default_prevented());
}
