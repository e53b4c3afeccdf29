use lib_thread::colour::{cell_colour, colors_marge, Colour};
use lib_thread::reactif::{Operation, Reactif_Thread1, Reactif_Thread2};

#[test]
fn planet_colours() {
    assert_eq!(colors_marge(1), Colour::Green);
    assert_eq!(colors_marge(2), Colour::Black);
    assert_eq!(colors_marge(3), Colour::Red);
    assert_eq!(colors_marge(4), Colour::Blue);
    assert_eq!(colors_marge(5), Colour::Orange);
    assert_eq!(colors_marge(6), Colour::Magenta);
    assert_eq!(colors_marge(7), Colour::Yellow);
    assert_eq!(colors_marge(0), Colour::Black);
    assert_eq!(colors_marge(9), Colour::Black);
}

#[test]
fn grid_colours() {
    assert_eq!(cell_colour(0), Colour::Yellow);
    assert_eq!(cell_colour(1), Colour::Green);
    assert_eq!(cell_colour(2), Colour::Red);
    assert_eq!(cell_colour(5), Colour::Yellow);
}

#[test]
fn reactive_threads_programs() {
    let t1 = Reactif_Thread1::new(0, 4, 5);
    let t2 = Reactif_Thread2::new(1, 4, 5);
    assert_eq!(t1.id_thread, 1);
    assert_eq!(t2.id_thread, 2);
    assert_eq!(t1.thread_execute(), vec![Operation::Emit(4), Operation::Await(5)]);
    assert_eq!(t2.thread_execute(), vec![Operation::Await(4), Operation::Emit(5)]);
    Reactif_Thread1::is_here();
    Reactif_Thread1::is_not_here();
    Reactif_Thread2::is_here();
    Reactif_Thread2::is_not_here();
}
