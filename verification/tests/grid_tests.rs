use lib_thread::cell::Cell;
use lib_thread::neighbours::neighbours_on_grid;
use lib_thread::proie::{Birth, ProiePredateur};

fn torus(x: i32, y: i32, w: i32, h: i32) -> [(i32, i32); 8] {
    let up = (x - 1).rem_euclid(w);
    let down = (x + 1).rem_euclid(w);
    let right = (y + 1).rem_euclid(h);
    let left = (y - 1).rem_euclid(h);
    [(up, y), (down, y), (x, right), (x, left), (up, right), (up, left), (down, right), (down, left)]
}

#[test]
fn neighbours_on_grid_are_the_torus_neighbours() {
    for (w, h) in [(20, 20), (2, 2), (3, 5), (5, 3)] {
        for x in 0..w {
            for y in 0..h {
                assert_eq!(neighbours_on_grid(x, y, w, h), torus(x, y, w, h), "({}, {}) on {}x{}", x, y, w, h);
            }
        }
    }
}

#[test]
fn neighbours_on_grid_corner() {
    assert_eq!(
        neighbours_on_grid(0, 0, 20, 20),
        [(19, 0), (1, 0), (0, 1), (0, 19), (19, 1), (19, 19), (1, 1), (1, 19)]
    );
    assert_eq!(
        neighbours_on_grid(19, 19, 20, 20),
        [(18, 19), (0, 19), (19, 0), (19, 18), (18, 0), (18, 18), (0, 0), (0, 18)]
    );
}

#[test]
fn neighbours_on_grid_outside_the_grid() {
    assert_eq!(neighbours_on_grid(30, 5, 20, 20), [(0, 0); 8]);
    assert_eq!(
        neighbours_on_grid(-1, 0, 20, 20),
        [(-2, 0), (0, 0), (-1, 1), (-1, 19), (-2, 1), (-2, 19), (0, 1), (0, 19)]
    );
}

fn grid(cells: &[((usize, usize), (i32, i32, i32))]) -> Vec<Vec<(i32, i32, i32)>> {
    let mut g = vec![vec![(0, 0, 0); 20]; 20];
    for ((x, y), c) in cells {
        g[*x][*y] = *c;
    }
    g
}

fn creature(kind: i32, x: i32, y: i32, reprod: i32, faim: i32) -> ProiePredateur {
    let mut p = ProiePredateur::new_1(7, 0, 1, x, y, kind, reprod, faim);
    p.get_neighbours(20, 20);
    p
}

#[test]
fn new_1_makes_a_living_creature() {
    let p = ProiePredateur::new_1(7, 3, 4, 2, 5, 2, 6, 1);
    assert_eq!(p.id_thread, 8);
    assert_eq!((p.signal_1, p.signal_2), (3, 4));
    assert!(p.is_alive);
    assert_eq!((p.proie_pred, p.reprod, p.faim), (2, 6, 1));
    assert_eq!(p.coords, [2, 5]);
    assert_eq!(p.neighbours, [(0, 0); 8]);
}

#[test]
fn new_draws_a_kind_and_an_age() {
    for i in 0..200 {
        let p = ProiePredateur::new(i, 0, 1, 3, 4);
        assert_eq!(p.id_thread, i + 1);
        assert!((0..3).contains(&p.proie_pred));
        match p.proie_pred {
            0 => assert_eq!(p.reprod, 0),
            1 => assert!((0..5).contains(&p.reprod)),
            _ => assert!((0..7).contains(&p.reprod)),
        }
        assert_eq!(p.faim, 0);
        assert_eq!(p.is_alive, p.proie_pred != 0);
    }
}

#[test]
fn cell_lists_follow_the_neighbours() {
    let p = creature(1, 5, 5, 0, 0);
    let after = grid(&[((4, 5), (1, 0, 0)), ((6, 6), (2, 0, 0)), ((5, 4), (1, 3, 0))]);
    assert_eq!(p.cell_neighbours_proies(&after), vec![(4, 5), (5, 4)]);
    assert_eq!(p.cell_neighbours_vide(&after), vec![(6, 5), (5, 6), (4, 6), (4, 4), (6, 4)]);
}

#[test]
fn dead_and_born_creatures_show_on_the_grid() {
    let mut p = creature(1, 5, 5, 3, 0);
    let mut before = grid(&[((5, 5), (1, 3, 0))]);
    p.proie_dead(&mut before);
    assert_eq!(before[5][5], (0, 0, 0));
    assert!(!p.is_alive && p.proie_pred == 0 && p.reprod == 0 && p.faim == 0);
    let b = p.proie_vie(&mut before, 4, 5, 1, 0);
    assert_eq!(b, Birth { x: 4, y: 5, proie_pred: 1, reprod: 1, faim: 0 });
    assert_eq!(before[4][5], (1, 1, 0));
    let b = p.predateur_vie(&mut before, 6, 5, 1, 3);
    assert_eq!(b.proie_pred, 2);
    assert_eq!(before[6][5], (2, 1, 3));
    assert_eq!((p.proie_pred, p.reprod, p.faim), (2, 1, 3));
    p.predateur_dead(&mut before);
    assert_eq!(before[5][5], (0, 0, 0));
    p.update_status_proie(&mut before, 1, 1, 2, 0);
    assert_eq!(before[1][1], (1, 2, 0));
    p.update_status_predateur(&mut before, 1, 2, 2, 5);
    assert_eq!(before[1][2], (2, 2, 5));
    assert_eq!((p.proie_pred, p.reprod, p.faim), (2, 2, 5));
}

#[test]
fn check_status_ends_a_creature_no_longer_shown() {
    let mut p = creature(2, 5, 5, 0, 0);
    let after = grid(&[((5, 5), (2, 0, 0))]);
    p.check_status(&after);
    assert!(p.is_alive);
    let after = grid(&[((5, 5), (1, 0, 0))]);
    p.check_status(&after);
    assert!(!p.is_alive);
}

#[test]
fn write_state_shows_the_creature() {
    let p = creature(2, 3, 4, 5, 6);
    let mut before = grid(&[]);
    p.write_state(&mut before);
    assert_eq!(before[3][4], (2, 5, 6));
}

#[test]
fn young_prey_moves_to_the_chosen_empty_cell() {
    let mut p = creature(1, 5, 5, 2, 0);
    let mut before = grid(&[((5, 5), (1, 2, 0))]);
    let after = grid(&[((5, 5), (1, 2, 0)), ((4, 5), (1, 0, 0))]);
    let births = p.update_status_with(&mut before, &after, 0, 1);
    assert_eq!(births, vec![Birth { x: 5, y: 6, proie_pred: 1, reprod: 3, faim: 0 }]);
    assert_eq!(before[5][5], (0, 0, 0));
    assert_eq!(before[5][6], (1, 3, 0));
    assert!(!p.is_alive);
    assert_eq!(p.coords, [5, 6]);
    assert_eq!((p.reprod, p.faim), (3, 0));
}

#[test]
fn old_prey_gives_birth() {
    let mut p = creature(1, 5, 5, 4, 0);
    let mut before = grid(&[((5, 5), (1, 4, 0))]);
    let after = before.clone();
    let births = p.update_status_with(&mut before, &after, 0, 0);
    assert_eq!(births, vec![Birth { x: 4, y: 5, proie_pred: 1, reprod: 1, faim: 0 }]);
    assert_eq!(before[4][5], (1, 1, 0));
    assert_eq!(before[5][5], (1, 1, 0));
    assert!(p.is_alive);
    assert_eq!((p.reprod, p.faim), (1, 0));
}

#[test]
fn surrounded_prey_stays() {
    let mut p = creature(1, 5, 5, 4, 0);
    let mut cells = vec![((5usize, 5usize), (1, 4, 0))];
    for (x, y) in p.neighbours {
        cells.push(((x as usize, y as usize), (2, 0, 0)));
    }
    let mut before = grid(&cells);
    let after = before.clone();
    let births = p.update_status_with(&mut before, &after, 0, 0);
    assert!(births.is_empty());
    assert_eq!(before, after);
    assert!(p.is_alive);
}

#[test]
fn hungry_predator_starves() {
    let mut p = creature(2, 5, 5, 3, 10);
    let mut before = grid(&[((5, 5), (2, 3, 10))]);
    let after = before.clone();
    let births = p.update_status_with(&mut before, &after, 0, 0);
    assert!(births.is_empty());
    assert_eq!(before[5][5], (0, 0, 0));
    assert!(!p.is_alive);
}

#[test]
fn predator_eats_a_neighbouring_prey() {
    let mut p = creature(2, 5, 5, 3, 4);
    let mut before = grid(&[((5, 5), (2, 3, 4)), ((5, 6), (1, 0, 0))]);
    let after = before.clone();
    let births = p.update_status_with(&mut before, &after, 20, 0);
    assert_eq!(births, vec![Birth { x: 5, y: 6, proie_pred: 2, reprod: 0, faim: 0 }]);
    assert_eq!(before[5][5], (0, 0, 0));
    assert_eq!(before[5][6], (2, 0, 0));
    assert_eq!((p.reprod, p.faim), (0, 0));
    assert!(!p.is_alive);
}

#[test]
fn predator_that_misses_moves_hungrier() {
    let mut p = creature(2, 5, 5, 3, 4);
    let mut before = grid(&[((5, 5), (2, 3, 4)), ((5, 6), (1, 0, 0))]);
    let after = before.clone();
    let births = p.update_status_with(&mut before, &after, 21, 0);
    assert_eq!(births, vec![Birth { x: 4, y: 5, proie_pred: 2, reprod: 4, faim: 5 }]);
    assert_eq!(before[4][5], (2, 4, 5));
    assert_eq!((p.reprod, p.faim), (4, 5));
    assert_eq!(before[5][5], (0, 0, 0));
}

#[test]
fn old_predator_gives_birth_and_gets_hungrier() {
    let mut p = creature(2, 5, 5, 7, 4);
    let mut before = grid(&[((5, 5), (2, 7, 4))]);
    let after = before.clone();
    let births = p.update_status_with(&mut before, &after, 0, 2);
    assert_eq!(births, vec![Birth { x: 5, y: 6, proie_pred: 2, reprod: 1, faim: 5 }]);
    assert_eq!(before[5][6], (2, 1, 5));
    assert_eq!(before[5][5], (2, 1, 6));
    assert_eq!((p.reprod, p.faim), (1, 6));
    assert!(p.is_alive);
}

#[test]
fn empty_cell_thread_ends() {
    let mut p = creature(0, 5, 5, 0, 0);
    let mut before = grid(&[]);
    let after = before.clone();
    assert!(p.update_status_with(&mut before, &after, 0, 0).is_empty());
    assert!(!p.is_alive);
}

#[test]
fn random_update_moves_a_young_prey_to_an_empty_neighbour() {
    for _ in 0..50 {
        let mut p = creature(1, 5, 5, 0, 0);
        let mut before = grid(&[((5, 5), (1, 0, 0))]);
        let after = grid(&[((5, 5), (1, 0, 0)), ((4, 5), (2, 0, 0)), ((6, 5), (1, 0, 0))]);
        let births = p.update_status(&mut before, &after);
        assert_eq!(births.len(), 1);
        let b = births[0];
        assert!(p.neighbours.contains(&(b.x, b.y)));
        assert_eq!(after[b.x as usize][b.y as usize].0, 0);
        assert_eq!(before[b.x as usize][b.y as usize], (1, 1, 0));
        assert_eq!(before[5][5], (0, 0, 0));
    }
}

#[test]
fn random_update_predator_always_catches_a_neighbouring_prey() {
    for _ in 0..50 {
        let mut p = creature(2, 0, 0, 5, 6);
        let mut before = grid(&[((0, 0), (2, 5, 6)), ((19, 19), (1, 0, 0))]);
        let after = before.clone();
        let births = p.update_status(&mut before, &after);
        assert_eq!(births, vec![Birth { x: 19, y: 19, proie_pred: 2, reprod: 0, faim: 0 }]);
    }
}

#[test]
fn life_rule_of_if_alive() {
    let mut c = Cell::new(0, 0, 1, 0, 0);
    assert!(!c.alive);
    c.if_alive(2);
    assert!(!c.alive);
    c.if_alive(3);
    assert!(c.alive);
    c.if_alive(2);
    assert!(c.alive);
    c.if_alive(4);
    assert!(!c.alive);
    c.alive = true;
    c.if_alive(1);
    assert!(!c.alive);
}

#[test]
fn cell_new_starts_the_pattern() {
    assert!(Cell::new(0, 0, 1, 9, 6).alive);
    assert!(Cell::new(0, 0, 1, 9, 11).alive);
    assert!(!Cell::new(0, 0, 1, 6, 9 + 1).alive);
    let c = Cell::new(5, 2, 3, 7, 14);
    assert!(c.alive);
    assert_eq!(c.id_thread, 6);
    assert_eq!(c.coords, [7, 14]);
}

#[test]
fn update_etat_counts_living_neighbours() {
    let mut c = Cell::new(0, 0, 1, 0, 0);
    c.get_neighbours(20, 20);
    assert_eq!(c.neighbours[5], (19, 19));
    let mut after = vec![vec![false; 20]; 20];
    after[19][19] = true;
    after[1][0] = true;
    after[0][1] = true;
    c.update_etat(&after);
    assert!(c.alive);
    let mut before = vec![vec![false; 20]; 20];
    c.write_state(&mut before);
    assert!(before[0][0]);
    after[1][1] = true;
    c.update_etat(&after);
    assert!(!c.alive);
}

#[test]
fn new_draws_every_kind() {
    let mut seen = [false; 3];
    for i in 0..300 {
        let p = ProiePredateur::new(i, 0, 1, 0, 0);
        seen[p.proie_pred as usize] = true;
    }
    assert_eq!(seen, [true, true, true]);
}

#[test]
fn random_update_spreads_over_the_empty_neighbours() {
    let mut targets = std::collections::HashSet::new();
    for _ in 0..200 {
        let mut p = creature(1, 5, 5, 0, 0);
        let mut before = grid(&[((5, 5), (1, 0, 0))]);
        let after = before.clone();
        let births = p.update_status(&mut before, &after);
        targets.insert((births[0].x, births[0].y));
    }
    assert!(targets.len() > 1);
}

#[test]
fn new_drawn_takes_the_draws() {
    let p = ProiePredateur::new_drawn(3, 0, 1, 2, 7, 2, 5);
    assert_eq!(p.id_thread, 4);
    assert!(p.is_alive);
    assert_eq!((p.proie_pred, p.reprod, p.faim), (2, 5, 0));
    assert_eq!(p.coords, [2, 7]);
    let e = ProiePredateur::new_drawn(3, 0, 1, 2, 7, 0, 5);
    assert!(!e.is_alive);
    assert_eq!((e.proie_pred, e.reprod), (0, 0));
}
