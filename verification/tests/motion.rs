use sand::material::Cell;
use sand::universe::Universe;

fn tally(u: &Universe) -> [usize; 16] {
    let mut n = [0usize; 16];
    for c in u.cells().iter() {
        n[*c as usize] += 1;
    }
    n
}

fn cells_after(u: &mut Universe, ticks: usize) -> Vec<u8> {
    for _ in 0..ticks {
        u.tick();
    }
    u.cells().clone()
}

#[test]
fn a_lone_grain_of_sand_falls_one_row_a_tick() {
    let mut u = Universe::new(5, 6);
    u.paint(0, 2, Cell::Sand.code(), 0);
    for tick in 1..=5usize {
        u.tick();
        for i in 0..30 {
            let want = if i == tick * 5 + 2 { 1 } else { 0 };
            assert_eq!(u.cells()[i], want);
        }
    }
    u.tick();
    assert_eq!(u.cells()[5 * 5 + 2], 1);
    assert_eq!(tally(&u)[1], 1);
}

#[test]
fn sand_reaches_the_bottom_of_any_column_in_time() {
    for height in 1..12u32 {
        for col in 0..3u32 {
            let mut u = Universe::new(3, height);
            u.paint(0, col, Cell::Sand.code(), 0);
            for _ in 0..height - 1 {
                u.tick();
            }
            assert_eq!(u.cells()[((height - 1) * 3 + col) as usize], 1);
            assert_eq!(tally(&u)[1], 1);
        }
    }
}

#[test]
fn sand_slides_off_a_peak() {
    let mut u = Universe::new(3, 3);
    u.paint(2, 1, Cell::Sand.code(), 0);
    u.paint(1, 1, Cell::Sand.code(), 0);
    assert_eq!(cells_after(&mut u, 1), vec![0, 0, 0, 0, 0, 0, 1, 1, 0]);
    assert_eq!(cells_after(&mut u, 1), vec![0, 0, 0, 0, 0, 0, 1, 1, 0]);
}

#[test]
fn sand_sinks_through_water() {
    let mut u = Universe::new(1, 3);
    u.paint(0, 0, Cell::Sand.code(), 0);
    u.paint(1, 0, Cell::Water.code(), 0);
    u.paint(2, 0, Cell::Water.code(), 0);
    assert_eq!(cells_after(&mut u, 1), vec![2, 1, 2]);
    assert_eq!(cells_after(&mut u, 1), vec![2, 2, 1]);
    assert_eq!(cells_after(&mut u, 1), vec![2, 2, 1]);
}

#[test]
fn water_sinks_below_oil() {
    let mut u = Universe::new(1, 2);
    u.paint(0, 0, Cell::Water.code(), 0);
    u.paint(1, 0, Cell::Oil.code(), 0);
    assert_eq!(cells_after(&mut u, 1), vec![7, 2]);
    assert_eq!(cells_after(&mut u, 5), vec![7, 2]);
}

#[test]
fn steam_bubbles_up_through_water_and_carries_its_heat() {
    let mut u = Universe::new(1, 3);
    u.paint(2, 0, Cell::Steam.code(), 0);
    u.paint(1, 0, Cell::Water.code(), 0);
    u.tick();
    assert_eq!(u.cells().as_slice(), &[0u8, 6, 2][..]);
    assert_eq!(u.temps().as_slice(), &[20i16, 299, 20][..]);
    u.tick();
    assert_eq!(u.cells().as_slice(), &[6u8, 0, 2][..]);
    assert_eq!(u.temps().as_slice(), &[298i16, 20, 20][..]);
}

#[test]
fn water_spreads_over_a_floor() {
    let mut u = Universe::new(5, 3);
    for c in 0..5 {
        u.paint(2, c, Cell::Stone.code(), 0);
    }
    u.paint(1, 2, Cell::Water.code(), 0);
    u.paint(0, 2, Cell::Water.code(), 0);
    assert_eq!(cells_after(&mut u, 1), vec![0, 0, 0, 0, 0, 0, 0, 2, 2, 0, 3, 3, 3, 3, 3]);
    assert_eq!(cells_after(&mut u, 1), vec![0, 0, 0, 0, 0, 0, 2, 2, 0, 0, 3, 3, 3, 3, 3]);
    assert_eq!(cells_after(&mut u, 1), vec![0, 0, 0, 0, 0, 0, 0, 2, 2, 0, 3, 3, 3, 3, 3]);
    assert_eq!(cells_after(&mut u, 1), vec![0, 0, 0, 0, 0, 0, 2, 0, 0, 2, 3, 3, 3, 3, 3]);
}

#[test]
fn water_in_a_run_moves_along_a_floor() {
    let mut u = Universe::new(5, 2);
    for c in 0..5 {
        u.paint(1, c, Cell::Stone.code(), 0);
    }
    u.paint(0, 0, Cell::Water.code(), 0);
    u.paint(0, 1, Cell::Water.code(), 0);
    assert_eq!(cells_after(&mut u, 1), vec![0, 2, 2, 0, 0, 3, 3, 3, 3, 3]);
    assert_eq!(cells_after(&mut u, 1), vec![2, 2, 0, 0, 0, 3, 3, 3, 3, 3]);
    assert_eq!(cells_after(&mut u, 1), vec![0, 2, 2, 0, 0, 3, 3, 3, 3, 3]);
}

#[test]
fn nothing_moves_in_the_bottom_row() {
    let mut u = Universe::new(5, 1);
    u.paint(0, 2, Cell::Water.code(), 0);
    assert_eq!(cells_after(&mut u, 10), vec![0, 0, 2, 0, 0]);
}

#[test]
fn static_cells_stay_where_they_are() {
    let mut u = Universe::new(3, 3);
    u.paint(0, 1, Cell::Stone.code(), 0);
    assert_eq!(cells_after(&mut u, 10), vec![0, 3, 0, 0, 0, 0, 0, 0, 0]);
    let mut v = Universe::new(3, 3);
    v.paint(0, 0, Cell::Glass.code(), 0);
    v.paint(0, 1, Cell::Obsidian.code(), 0);
    v.paint(1, 1, Cell::Wood.code(), 0);
    v.paint(1, 2, Cell::Plant.code(), 0);
    assert_eq!(cells_after(&mut v, 10), vec![13, 14, 0, 0, 4, 10, 0, 0, 0]);
}

#[test]
fn smoke_rises_one_row_a_tick_and_stops_at_the_top() {
    let mut u = Universe::with_seed(3, 4, 7);
    u.paint(3, 1, Cell::Smoke.code(), 0);
    u.tick();
    assert_eq!(u.cells().as_slice(), &[0u8, 0, 0, 0, 0, 0, 0, 12, 0, 0, 0, 0][..]);
    assert_eq!(u.temps()[7], 299);
    u.tick();
    assert_eq!(u.cells().as_slice(), &[0u8, 0, 0, 0, 12, 0, 0, 0, 0, 0, 0, 0][..]);
    assert_eq!(u.temps()[4], 297);
    u.tick();
    assert_eq!(u.cells().as_slice(), &[0u8, 12, 0, 0, 0, 0, 0, 0, 0, 0, 0, 0][..]);
    assert_eq!(u.temps()[1], 295);
    u.tick();
    assert_eq!(u.cells().as_slice(), &[0u8, 12, 0, 0, 0, 0, 0, 0, 0, 0, 0, 0][..]);
    assert_eq!(u.temps()[1], 294);
}

#[test]
fn a_gas_in_the_top_row_stays() {
    let mut u = Universe::with_seed(3, 1, 7);
    u.paint(0, 1, Cell::Steam.code(), 0);
    for want in [299i16, 298, 297] {
        u.tick();
        assert_eq!(u.cells().as_slice(), &[0u8, 6, 0][..]);
        assert_eq!(u.temps()[1], want);
    }
}

#[test]
fn a_column_of_sand_falls_together() {
    let mut u = Universe::new(1, 4);
    u.paint(0, 0, Cell::Sand.code(), 0);
    u.paint(1, 0, Cell::Sand.code(), 0);
    assert_eq!(cells_after(&mut u, 1), vec![0, 1, 1, 0]);
    assert_eq!(cells_after(&mut u, 1), vec![0, 0, 1, 1]);
    assert_eq!(cells_after(&mut u, 3), vec![0, 0, 1, 1]);
}

#[test]
fn movement_loses_and_adds_no_material() {
    let mut u = Universe::new(8, 8);
    for c in 0..8 {
        u.paint(7, c, Cell::Stone.code(), 0);
    }
    u.paint(1, 2, Cell::Sand.code(), 1);
    u.paint(1, 5, Cell::Water.code(), 1);
    let before = tally(&u);
    assert_eq!(before[0], 46);
    assert_eq!(before[1], 5);
    assert_eq!(before[2], 5);
    assert_eq!(before[3], 8);
    for _ in 0..30 {
        u.tick();
        assert_eq!(tally(&u), before);
        assert!(u.temps().iter().all(|t| *t == 20));
    }
    let settled: Vec<u8> = vec![
        0, 0, 0, 0, 0, 0, 0, 0, //
        0, 0, 0, 0, 0, 0, 0, 0, //
        0, 0, 0, 0, 0, 0, 0, 0, //
        0, 0, 0, 0, 0, 0, 0, 0, //
        0, 0, 0, 0, 0, 0, 0, 0, //
        0, 0, 1, 0, 2, 0, 0, 0, //
        1, 1, 1, 1, 2, 2, 2, 2, //
        3, 3, 3, 3, 3, 3, 3, 3,
    ];
    assert_eq!(u.cells(), &settled);
}
