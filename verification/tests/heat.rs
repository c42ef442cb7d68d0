use sand::material::Cell;
use sand::universe::Universe;

#[test]
fn heat_spreads_from_lava_into_stone() {
    let mut u = Universe::new(3, 3);
    u.paint(1, 1, Cell::Stone.code(), 2);
    u.paint(1, 1, Cell::Lava.code(), 0);
    u.tick();
    let cells: [u8; 9] = [3, 3, 3, 3, 9, 3, 3, 3, 3];
    // Lava: (1024 * 30000 + 4 * 20) / 1028. Edge: (1024 * 20 + 30000 + 2 * 20) / 1027.
    let temps: [i16; 9] = [20, 49, 20, 49, 29883, 49, 20, 49, 20];
    assert_eq!(u.cells().as_slice(), &cells[..]);
    assert_eq!(u.temps().as_slice(), &temps[..]);
}

#[test]
fn the_average_rounds_towards_zero_below_zero() {
    let mut u = Universe::new(3, 3);
    u.paint(1, 1, Cell::Ice.code(), 0);
    u.paint(1, 1, Cell::Empty.code(), 0);
    u.tick();
    // Centre: (1024 * -20 + 4 * 20) / 1028 is -19.8, which rounds to -19.
    let temps: [i16; 9] = [20, 19, 20, 19, -19, 19, 20, 19, 20];
    assert_eq!(u.temps().as_slice(), &temps[..]);
    assert!(u.cells().iter().all(|c| *c == 0));
}

#[test]
fn an_empty_cell_drifts_towards_ambient_on_its_turn() {
    let mut u = Universe::new(10, 1);
    u.paint(0, 9, Cell::Lava.code(), 0);
    u.paint(0, 9, Cell::Empty.code(), 0);
    u.tick();
    // Position 9 in generation 1 is due: (1024 * 30000 + 20) / 1025 = 29970, less one.
    // Position 8 is not: (1024 * 20 + 20 + 30000) / 1026 = 49.
    let temps: [i16; 10] = [20, 20, 20, 20, 20, 20, 20, 20, 49, 29969];
    assert_eq!(u.temps().as_slice(), &temps[..]);
}

#[test]
fn ambient_cells_stay_at_ambient() {
    let mut u = Universe::new(8, 8);
    u.paint(4, 4, Cell::Stone.code(), 2);
    for _ in 0..50 {
        u.tick();
    }
    assert!(u.temps().iter().all(|t| *t == 20));
}

#[test]
fn ice_is_pinned_below_zero_and_fire_at_its_heat() {
    let mut u = Universe::new(5, 1);
    u.paint(0, 0, Cell::Ice.code(), 0);
    u.paint(0, 2, Cell::Stone.code(), 0);
    u.paint(0, 4, Cell::Lava.code(), 0);
    for _ in 0..10 {
        u.tick();
        assert_eq!(u.cells()[0], Cell::Ice.code());
        assert_eq!(u.temps()[0], -20);
    }
    let mut v = Universe::new(1, 1);
    v.paint(0, 0, Cell::Fire.code(), 0);
    v.tick();
    assert_eq!(v.temps()[0], 800);
}

#[test]
fn temperatures_stay_between_the_coldest_and_the_hottest_cell() {
    let mut u = Universe::new(9, 9);
    u.paint(4, 4, Cell::Stone.code(), 6);
    u.paint(2, 2, Cell::Lava.code(), 0);
    u.paint(6, 6, Cell::Ice.code(), 0);
    for _ in 0..100 {
        u.tick();
        assert!(u.temps().iter().all(|t| -20 <= *t && *t <= 30000));
    }
}
