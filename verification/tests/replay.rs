use sand::random::{next_random, SEED};
use sand::material::Cell;
use sand::universe::Universe;

fn mixed_world() -> Universe {
    let mut u = Universe::new(12, 10);
    for c in 0..12 {
        u.paint(9, c, Cell::Stone.code(), 0);
    }
    u.paint(2, 3, Cell::Sand.code(), 1);
    u.paint(2, 8, Cell::Water.code(), 1);
    u.paint(5, 5, Cell::Lava.code(), 0);
    u.paint(8, 2, Cell::Gunpowder.code(), 0);
    u.paint(7, 2, Cell::Fire.code(), 0);
    u.paint(7, 10, Cell::Wood.code(), 1);
    u.paint(0, 6, Cell::Acid.code(), 0);
    u.paint(4, 0, Cell::Oil.code(), 0);
    u.paint(6, 7, Cell::Ice.code(), 0);
    u.paint(8, 6, Cell::Plant.code(), 0);
    u.paint(0, 11, Cell::Smoke.code(), 0);
    u.paint(3, 11, Cell::Steam.code(), 0);
    u.paint(8, 0, Cell::Glass.code(), 0);
    u.paint(8, 11, Cell::Obsidian.code(), 0);
    u
}

#[test]
fn the_random_stream_is_xorshift_13_17_5() {
    assert_eq!(SEED, 0xB45BE);
    let a = next_random(SEED);
    let b = next_random(a);
    let c = next_random(b);
    assert_eq!(a, 0x7f2a8de0);
    assert_eq!(b, 0xfc45cfcb);
    assert_eq!(c, 0xf22d2fb5);
    assert_eq!(next_random(1), 270369);
    assert_eq!(next_random(0), 0);
}

#[test]
fn a_mixed_world_as_painted() {
    let u = mixed_world();
    let start: [u8; 120] = [
        0, 0, 0, 0, 0, 0, 8, 0, 0, 0, 0, 12, //
        0, 0, 0, 1, 0, 0, 0, 0, 2, 0, 0, 0, //
        0, 0, 1, 1, 1, 0, 0, 2, 2, 2, 0, 0, //
        0, 0, 0, 1, 0, 0, 0, 0, 2, 0, 0, 6, //
        7, 0, 0, 0, 0, 0, 0, 0, 0, 0, 0, 0, //
        0, 0, 0, 0, 0, 9, 0, 0, 0, 0, 0, 0, //
        0, 0, 0, 0, 0, 0, 0, 11, 0, 0, 4, 0, //
        0, 0, 5, 0, 0, 0, 0, 0, 0, 4, 4, 4, //
        13, 0, 15, 0, 0, 0, 10, 0, 0, 0, 4, 14, //
        3, 3, 3, 3, 3, 3, 3, 3, 3, 3, 3, 3, //
    ];
    assert_eq!(u.cells().as_slice(), &start[..]);
}

#[test]
fn a_mixed_world_after_one_tick() {
    let mut u = mixed_world();
    for _ in 0..1 {
        u.tick();
    }
    let cells: [u8; 120] = [
        0, 0, 0, 0, 0, 0, 0, 0, 0, 0, 0, 12, //
        0, 0, 0, 0, 0, 0, 8, 0, 0, 0, 0, 0, //
        0, 0, 0, 1, 5, 0, 0, 0, 2, 0, 0, 6, //
        0, 0, 1, 1, 1, 12, 0, 2, 2, 2, 0, 0, //
        5, 0, 5, 1, 0, 0, 0, 0, 2, 0, 0, 0, //
        7, 5, 0, 5, 5, 12, 0, 0, 0, 0, 0, 0, //
        0, 5, 0, 0, 0, 9, 0, 11, 0, 0, 4, 0, //
        0, 5, 5, 5, 5, 0, 0, 0, 0, 4, 4, 4, //
        5, 5, 5, 5, 5, 5, 10, 0, 0, 0, 4, 14, //
        5, 5, 5, 5, 5, 3, 3, 3, 3, 3, 3, 3, //
    ];
    let temps: [i16; 120] = [
        20, 20, 20, 20, 20, 20, 20, 20, 20, 20, 20, 299, //
        20, 20, 20, 20, 20, 20, 20, 20, 20, 20, 20, 20, //
        20, 20, 20, 20, 800, 20, 20, 20, 20, 20, 20, 299, //
        20, 20, 20, 20, 20, 300, 20, 20, 20, 20, 20, 20, //
        800, 20, 800, 20, 20, 20, 20, 20, 20, 20, 20, 20, //
        20, 800, 20, 800, 800, 300, 49, 19, 20, 20, 20, 20, //
        20, 800, 20, 20, 49, 29883, 19, -20, 19, 20, 20, 20, //
        49, 800, 800, 800, 800, 20, 20, 19, 20, 20, 20, 20, //
        800, 800, 800, 800, 800, 800, 20, 20, 20, 20, 20, 20, //
        800, 800, 800, 800, 800, 20, 20, 20, 20, 20, 20, 20, //
    ];
    assert_eq!(u.cells().as_slice(), &cells[..]);
    assert_eq!(u.temps().as_slice(), &temps[..]);
}

#[test]
fn a_mixed_world_after_five_ticks() {
    let mut u = mixed_world();
    for _ in 0..5 {
        u.tick();
    }
    let cells: [u8; 120] = [
        5, 5, 0, 0, 5, 5, 0, 0, 0, 0, 6, 12, //
        0, 0, 5, 0, 0, 0, 0, 0, 0, 0, 0, 0, //
        0, 0, 0, 5, 5, 12, 5, 0, 0, 0, 0, 0, //
        12, 0, 5, 0, 0, 0, 0, 0, 0, 0, 0, 0, //
        0, 5, 5, 0, 0, 0, 5, 0, 0, 0, 0, 0, //
        0, 5, 0, 0, 0, 5, 8, 0, 0, 0, 0, 0, //
        0, 5, 5, 1, 5, 0, 0, 11, 2, 2, 4, 0, //
        5, 0, 1, 1, 1, 0, 0, 2, 2, 4, 4, 4, //
        0, 0, 0, 1, 0, 0, 10, 0, 2, 0, 4, 14, //
        0, 7, 0, 9, 0, 3, 3, 3, 3, 3, 3, 3, //
    ];
    let temps: [i16; 120] = [
        800, 800, 20, 20, 800, 800, 20, 19, 20, 20, 295, 295, //
        20, 20, 800, 20, 20, 21, 20, 19, 19, 20, 20, 20, //
        20, 20, 21, 800, 800, 300, 800, 19, 19, 19, 20, 20, //
        299, 20, 800, 21, 21, 294, 325, 18, 17, 20, 19, 20, //
        20, 800, 800, 21, 23, 22, 800, 19, 18, 19, 19, 19, //
        23, 800, 23, 137, 20, 800, 21, 18, 17, 18, 18, 19, //
        798, 800, 800, 22, 800, 20, 50, -20, 18, 19, 19, 19, //
        800, 26, 21, 20, 23, 48, 22, 18, 19, 18, 19, 19, //
        23, 21, 25, 21, 107, 47, 20, 19, 18, 20, 19, 20, //
        51, 25, 54, 29452, 852, 21, 20, 19, 19, 19, 20, 20, //
    ];
    assert_eq!(u.cells().as_slice(), &cells[..]);
    assert_eq!(u.temps().as_slice(), &temps[..]);
}

#[test]
fn a_mixed_world_after_forty_ticks() {
    let mut u = mixed_world();
    for _ in 0..40 {
        u.tick();
    }
    let cells: [u8; 120] = [
        0, 0, 12, 5, 0, 5, 0, 6, 12, 0, 6, 0, //
        0, 0, 0, 0, 0, 0, 0, 0, 0, 0, 0, 0, //
        0, 0, 0, 0, 0, 0, 0, 0, 0, 0, 0, 0, //
        0, 0, 0, 0, 0, 0, 0, 0, 0, 0, 0, 0, //
        0, 0, 0, 0, 0, 0, 0, 0, 0, 0, 0, 0, //
        0, 0, 0, 0, 0, 0, 0, 0, 0, 0, 0, 0, //
        0, 0, 0, 0, 0, 0, 0, 11, 0, 0, 4, 0, //
        0, 0, 0, 0, 0, 0, 0, 0, 0, 4, 4, 4, //
        0, 0, 0, 1, 2, 2, 10, 2, 2, 2, 4, 14, //
        7, 1, 1, 1, 1, 3, 3, 3, 3, 3, 3, 3, //
    ];
    let temps: [i16; 120] = [
        798, 299, 301, 800, 303, 800, 300, 287, 285, 24, 260, 258, //
        294, 299, 753, 332, 301, 287, 282, 276, 20, 20, 20, 20, //
        36, 41, 746, 740, 278, 23, 21, 20, 19, 18, 18, 18, //
        706, 21, 22, 24, 21, 20, 22, 19, 17, 16, 16, 16, //
        20, 20, 20, 20, 20, 257, 289, 20, 16, 14, 14, 14, //
        20, 20, 20, 20, 20, 21, 697, 19, 13, 12, 13, 12, //
        22, 21, 128, 106, 20, 20, 47, -20, 6, 10, 11, 11, //
        697, 24, 50, 766, 20, 39, 126, 20, 15, 12, 11, 11, //
        20, 20, 20, 108, 16, 13, 16, 15, 14, 12, 11, 11, //
        20, 20, 20, 47, 27, 18, 16, 15, 14, 13, 11, 11, //
    ];
    assert_eq!(u.cells().as_slice(), &cells[..]);
    assert_eq!(u.temps().as_slice(), &temps[..]);
}

#[test]
fn two_runs_of_the_same_calls_agree_byte_for_byte() {
    let mut a = mixed_world();
    let mut b = mixed_world();
    for tick in 0..200u32 {
        if tick % 17 == 3 {
            a.paint(tick % 10, tick % 12, (tick % 16) as u8, (tick % 3) as i32);
            b.paint(tick % 10, tick % 12, (tick % 16) as u8, (tick % 3) as i32);
        }
        if tick == 150 {
            a.clear();
            b.clear();
        }
        a.tick();
        b.tick();
        assert_eq!(a.cells(), b.cells());
        assert_eq!(a.temps(), b.temps());
    }
}

#[test]
fn a_fresh_universe_has_the_fixed_seed() {
    let mut a = Universe::new(9, 9);
    let mut b = Universe::with_seed(9, 9, SEED);
    let mut c = Universe::with_seed(9, 9, SEED + 1);
    for u in [&mut a, &mut b, &mut c] {
        u.paint(4, 4, Cell::Water.code(), 2);
        u.paint(1, 4, Cell::Smoke.code(), 1);
        for _ in 0..20 {
            u.tick();
        }
    }
    assert_eq!(a.cells(), b.cells());
    assert_eq!(a.temps(), b.temps());
    assert_ne!(a.cells(), c.cells());
}

#[test]
fn clearing_does_not_rewind_the_random_stream() {
    let mut a = Universe::new(5, 5);
    a.paint(0, 2, Cell::Water.code(), 1);
    for _ in 0..7 {
        a.tick();
    }
    a.clear();
    let mut b = Universe::new(5, 5);
    a.paint(4, 2, Cell::Smoke.code(), 1);
    b.paint(4, 2, Cell::Smoke.code(), 1);
    let mut differ = false;
    for _ in 0..10 {
        a.tick();
        b.tick();
        differ = differ || a.cells() != b.cells();
    }
    assert!(differ);
}

#[test]
fn every_cell_byte_names_a_material_at_every_tick() {
    let mut u = mixed_world();
    for _ in 0..300 {
        u.tick();
        assert_eq!(u.cells().len(), 120);
        assert_eq!(u.temps().len(), 120);
        assert!(u.cells().iter().all(|c| *c < 16));
        for c in u.cells().iter() {
            assert_eq!(Cell::from_code(*c).code(), *c);
        }
    }
}

#[test]
fn the_generation_wraps_without_harm() {
    let mut a = Universe::new(4, 4);
    a.paint(0, 1, Cell::Sand.code(), 0);
    for _ in 0..600 {
        a.tick();
    }
    assert_eq!(a.cells()[3 * 4 + 1], 1);
    assert_eq!(a.cells().iter().filter(|c| **c == 1).count(), 1);
}
