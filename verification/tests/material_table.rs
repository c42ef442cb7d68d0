use sand::material::{Cell, Phase, AMBIENT, KINDS};

const ALL: [Cell; 16] = [
    Cell::Empty,
    Cell::Sand,
    Cell::Water,
    Cell::Stone,
    Cell::Wood,
    Cell::Fire,
    Cell::Steam,
    Cell::Oil,
    Cell::Acid,
    Cell::Lava,
    Cell::Plant,
    Cell::Ice,
    Cell::Smoke,
    Cell::Glass,
    Cell::Obsidian,
    Cell::Gunpowder,
];

#[test]
fn codes_follow_the_order_of_the_kinds() {
    for (i, cell) in ALL.iter().enumerate() {
        assert_eq!(cell.code() as usize, i);
        assert_eq!(Cell::from_code(i as u8), *cell);
    }
    assert_eq!(KINDS, 16);
    assert_eq!(AMBIENT, 20);
}

#[test]
fn bytes_that_name_no_material_decode_to_empty() {
    for code in 16..=255u8 {
        assert_eq!(Cell::from_code(code), Cell::Empty);
    }
}

#[test]
fn every_material_has_exactly_one_phase() {
    for cell in ALL {
        let tags = [cell.is_solid(), cell.is_liquid(), cell.is_gas(), cell.is_static()];
        let set = tags.iter().filter(|t| **t).count();
        if cell == Cell::Empty {
            assert_eq!(set, 0);
            assert_eq!(cell.phase(), Phase::Empty);
        } else {
            assert_eq!(set, 1);
        }
    }
}

#[test]
fn phases_of_the_table() {
    assert_eq!(Cell::Sand.phase(), Phase::Solid);
    assert_eq!(Cell::Gunpowder.phase(), Phase::Solid);
    for cell in [Cell::Water, Cell::Oil, Cell::Acid, Cell::Lava] {
        assert_eq!(cell.phase(), Phase::Liquid);
    }
    for cell in [Cell::Fire, Cell::Steam, Cell::Smoke] {
        assert_eq!(cell.phase(), Phase::Gas);
    }
    for cell in [Cell::Stone, Cell::Wood, Cell::Plant, Cell::Ice, Cell::Glass, Cell::Obsidian] {
        assert_eq!(cell.phase(), Phase::Static);
        assert!(cell.is_static());
    }
}

#[test]
fn densities_of_the_table() {
    let want: [i8; 16] = [0, 50, 30, 100, 20, -10, -10, 10, 30, 40, 20, 25, -10, 60, 100, 45];
    for (cell, d) in ALL.iter().zip(want) {
        assert_eq!(cell.density(), d);
    }
}

#[test]
fn base_temperatures_of_the_table() {
    let want: [i16; 16] = [20, 20, 20, 20, 20, 800, 300, 20, 20, 30000, 20, -20, 300, 20, 20, 20];
    for (cell, t) in ALL.iter().zip(want) {
        assert_eq!(cell.base_temp(), t);
    }
}

#[test]
fn flammabilities_of_the_table() {
    let want: [u32; 16] = [0, 0, 0, 0, 60, 0, 0, 90, 0, 0, 60, 0, 0, 0, 0, 100];
    for (cell, p) in ALL.iter().zip(want) {
        assert_eq!(cell.flammability(), p);
    }
}

#[test]
fn heavier_movers_displace_lighter_cells() {
    assert!(Cell::Sand.can_displace(Cell::Empty));
    assert!(Cell::Sand.can_displace(Cell::Water));
    assert!(Cell::Sand.can_displace(Cell::Smoke));
    assert!(Cell::Lava.can_displace(Cell::Water));
    assert!(Cell::Water.can_displace(Cell::Oil));
    assert!(!Cell::Water.can_displace(Cell::Acid));
    assert!(!Cell::Water.can_displace(Cell::Water));
    assert!(!Cell::Oil.can_displace(Cell::Water));
    assert!(!Cell::Water.can_displace(Cell::Sand));
}

#[test]
fn static_and_gas_cells_displace_nothing_and_static_cells_never_yield() {
    for target in ALL {
        assert!(!Cell::Stone.can_displace(target));
        assert!(!Cell::Ice.can_displace(target));
        assert!(!Cell::Fire.can_displace(target));
        assert!(!Cell::Empty.can_displace(target));
    }
    for mover in ALL {
        for target in [Cell::Stone, Cell::Wood, Cell::Plant, Cell::Ice, Cell::Glass, Cell::Obsidian]
        {
            assert!(!mover.can_displace(target));
        }
    }
}

#[test]
fn gases_pass_through_emptiness_and_liquids_only() {
    for cell in ALL {
        let want = cell == Cell::Empty || cell.is_liquid();
        assert_eq!(cell.gives_way_to_gas(), want);
    }
}

#[test]
fn stone_obsidian_and_glass_are_structural() {
    for cell in ALL {
        let want = matches!(cell, Cell::Stone | Cell::Obsidian | Cell::Glass);
        assert_eq!(cell.is_structural(), want);
    }
}
