use lib_thread::signal::{get_condvar, get_condvar_bool, notify_thread, remove_liste, return_condvar_false, Signal};

#[test]
fn signal_create_numbers_from_the_count() {
    let s = Signal::signal_create(0);
    assert_eq!(s.id, 1);
    assert!(!s.condition_variable);
    let t = Signal::signal_create(41);
    assert_eq!(t.id, 42);
}

#[test]
fn notify_thread_makes_the_signal_present() {
    let mut s = Signal::signal_create(3);
    notify_thread(get_condvar(&mut s));
    assert!(get_condvar_bool(&s));
    assert_eq!(s.id, 4);
}

#[test]
fn return_condvar_false_makes_the_signal_absent() {
    let mut s = Signal::signal_create(3);
    notify_thread(get_condvar(&mut s));
    return_condvar_false(get_condvar(&mut s));
    assert!(!get_condvar_bool(&s));
}

#[test]
fn remove_liste_removes_one_signal() {
    let mut l = vec![Signal::signal_create(0), Signal::signal_create(1), Signal::signal_create(2)];
    remove_liste(&mut l, 1);
    assert_eq!(l.len(), 2);
    assert_eq!(l[0].id, 1);
    assert_eq!(l[1].id, 3);
}

