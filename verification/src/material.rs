//! The material table: the sixteen kinds of cell and their physical constants.

use vstd::prelude::*;

verus! {

/// Temperature of an untouched cell, and the value empty cells drift towards.
pub const AMBIENT: i16 = 20;

/// Number of material kinds; every valid cell byte is below this.
pub const KINDS: u8 = 16;

/// The material held by one cell of the grid.
#[derive(Clone, Copy, Debug, PartialEq, Eq, Structural)]
pub enum Cell {
    Empty,
    Sand,
    Water,
    Stone,
    Wood,
    Fire,
    Steam,
    Oil,
    Acid,
    Lava,
    Plant,
    Ice,
    Smoke,
    Glass,
    Obsidian,
    Gunpowder,
}

/// How a material takes part in movement.
#[derive(Clone, Copy, Debug, PartialEq, Eq, Structural)]
pub enum Phase {
    Empty,
    Solid,
    Liquid,
    Gas,
    Static,
}

impl Cell {
    /// The byte that stands for this material in the cell buffer.
    pub open spec fn tag(self) -> u8 {
        match self {
            Cell::Empty => 0,
            Cell::Sand => 1,
            Cell::Water => 2,
            Cell::Stone => 3,
            Cell::Wood => 4,
            Cell::Fire => 5,
            Cell::Steam => 6,
            Cell::Oil => 7,
            Cell::Acid => 8,
            Cell::Lava => 9,
            Cell::Plant => 10,
            Cell::Ice => 11,
            Cell::Smoke => 12,
            Cell::Glass => 13,
            Cell::Obsidian => 14,
            Cell::Gunpowder => 15,
        }
    }

    /// The material a byte decodes to. Bytes that name no material decode to
    /// `Empty`.
    pub open spec fn decode(code: u8) -> Cell {
        if code == 1 {
            Cell::Sand
        } else if code == 2 {
            Cell::Water
        } else if code == 3 {
            Cell::Stone
        } else if code == 4 {
            Cell::Wood
        } else if code == 5 {
            Cell::Fire
        } else if code == 6 {
            Cell::Steam
        } else if code == 7 {
            Cell::Oil
        } else if code == 8 {
            Cell::Acid
        } else if code == 9 {
            Cell::Lava
        } else if code == 10 {
            Cell::Plant
        } else if code == 11 {
            Cell::Ice
        } else if code == 12 {
            Cell::Smoke
        } else if code == 13 {
            Cell::Glass
        } else if code == 14 {
            Cell::Obsidian
        } else if code == 15 {
            Cell::Gunpowder
        } else {
            Cell::Empty
        }
    }

    /// The phase tag of each material.
    pub open spec fn phase_of(self) -> Phase {
        match self {
            Cell::Empty => Phase::Empty,
            Cell::Sand | Cell::Gunpowder => Phase::Solid,
            Cell::Water | Cell::Oil | Cell::Acid | Cell::Lava => Phase::Liquid,
            Cell::Fire | Cell::Steam | Cell::Smoke => Phase::Gas,
            Cell::Stone | Cell::Wood | Cell::Plant | Cell::Ice | Cell::Glass | Cell::Obsidian => {
                Phase::Static
            },
        }
    }

    /// Density of each material.
    pub open spec fn density_of(self) -> int {
        match self {
            Cell::Stone | Cell::Obsidian => 100,
            Cell::Glass => 60,
            Cell::Sand => 50,
            Cell::Gunpowder => 45,
            Cell::Lava => 40,
            Cell::Water | Cell::Acid => 30,
            Cell::Ice => 25,
            Cell::Wood | Cell::Plant => 20,
            Cell::Oil => 10,
            Cell::Fire | Cell::Steam | Cell::Smoke => -10,
            Cell::Empty => 0,
        }
    }

    /// Temperature a cell takes when a rule or the brush makes it this material.
    pub open spec fn base_temp_of(self) -> i16 {
        match self {
            Cell::Lava => 30000,
            Cell::Fire => 800,
            Cell::Steam | Cell::Smoke => 300,
            Cell::Ice => (-20) as i16,
            _ => 20,
        }
    }

    /// Chance in a hundred that the material catches fire from a burning
    /// neighbour.
    pub open spec fn flammability_of(self) -> u32 {
        match self {
            Cell::Gunpowder => 100,
            Cell::Oil => 90,
            Cell::Wood | Cell::Plant => 60,
            _ => 0,
        }
    }

    /// Whether a mover of this material may take the place of `target`:
    /// neither is static, the mover is a solid or a liquid, and the target is
    /// empty or strictly less dense.
    pub open spec fn displaces(self, target: Cell) -> bool {
        &&& self.phase_of() != Phase::Static
        &&& target.phase_of() != Phase::Static
        &&& (self.phase_of() == Phase::Solid || self.phase_of() == Phase::Liquid)
        &&& (target == Cell::Empty || self.density_of() > target.density_of())
    }

    /// Whether a rising gas may take the place of `target`: it is empty or a
    /// liquid.
    pub open spec fn yields_to_gas(self) -> bool {
        self == Cell::Empty || self.phase_of() == Phase::Liquid
    }

    /// Whether an explosion leaves the material standing.
    pub open spec fn structural(self) -> bool {
        self == Cell::Stone || self == Cell::Obsidian || self == Cell::Glass
    }

    /// Decodes a cell byte.
    pub fn from_code(code: u8) -> (cell: Cell)
        ensures
            cell == Cell::decode(code),
            code < KINDS ==> cell.tag() == code,
            code >= KINDS ==> cell == Cell::Empty,
    {
        match code {
            1 => Cell::Sand,
            2 => Cell::Water,
            3 => Cell::Stone,
            4 => Cell::Wood,
            5 => Cell::Fire,
            6 => Cell::Steam,
            7 => Cell::Oil,
            8 => Cell::Acid,
            9 => Cell::Lava,
            10 => Cell::Plant,
            11 => Cell::Ice,
            12 => Cell::Smoke,
            13 => Cell::Glass,
            14 => Cell::Obsidian,
            15 => Cell::Gunpowder,
            _ => Cell::Empty,
        }
    }

    /// Encodes the material as its cell byte.
    pub fn code(self) -> (code: u8)
        ensures
            code == self.tag(),
            code < KINDS,
            Cell::decode(code) == self,
    {
        match self {
            Cell::Empty => 0,
            Cell::Sand => 1,
            Cell::Water => 2,
            Cell::Stone => 3,
            Cell::Wood => 4,
            Cell::Fire => 5,
            Cell::Steam => 6,
            Cell::Oil => 7,
            Cell::Acid => 8,
            Cell::Lava => 9,
            Cell::Plant => 10,
            Cell::Ice => 11,
            Cell::Smoke => 12,
            Cell::Glass => 13,
            Cell::Obsidian => 14,
            Cell::Gunpowder => 15,
        }
    }

    /// The phase tag of the material.
    pub fn phase(self) -> (phase: Phase)
        ensures
            phase == self.phase_of(),
    {
        match self {
            Cell::Empty => Phase::Empty,
            Cell::Sand | Cell::Gunpowder => Phase::Solid,
            Cell::Water | Cell::Oil | Cell::Acid | Cell::Lava => Phase::Liquid,
            Cell::Fire | Cell::Steam | Cell::Smoke => Phase::Gas,
            Cell::Stone | Cell::Wood | Cell::Plant | Cell::Ice | Cell::Glass | Cell::Obsidian => {
                Phase::Static
            },
        }
    }

    /// Whether the material is a solid that falls.
    pub fn is_solid(self) -> (b: bool)
        ensures
            b == (self.phase_of() == Phase::Solid),
    {
        match self {
            Cell::Sand | Cell::Gunpowder => true,
            _ => false,
        }
    }

    /// Whether the material is a liquid.
    pub fn is_liquid(self) -> (b: bool)
        ensures
            b == (self.phase_of() == Phase::Liquid),
    {
        match self {
            Cell::Water | Cell::Oil | Cell::Acid | Cell::Lava => true,
            _ => false,
        }
    }

    /// Whether the material is a gas.
    pub fn is_gas(self) -> (b: bool)
        ensures
            b == (self.phase_of() == Phase::Gas),
    {
        match self {
            Cell::Fire | Cell::Steam | Cell::Smoke => true,
            _ => false,
        }
    }

    /// Whether the material is a solid that never moves.
    pub fn is_static(self) -> (b: bool)
        ensures
            b == (self.phase_of() == Phase::Static),
    {
        match self {
            Cell::Stone | Cell::Wood | Cell::Plant | Cell::Ice | Cell::Glass | Cell::Obsidian => {
                true
            },
            _ => false,
        }
    }

    /// The density of the material.
    pub fn density(self) -> (d: i8)
        ensures
            d == self.density_of(),
    {
        match self {
            Cell::Stone | Cell::Obsidian => 100,
            Cell::Glass => 60,
            Cell::Sand => 50,
            Cell::Gunpowder => 45,
            Cell::Lava => 40,
            Cell::Water | Cell::Acid => 30,
            Cell::Ice => 25,
            Cell::Wood | Cell::Plant => 20,
            Cell::Oil => 10,
            Cell::Fire | Cell::Steam | Cell::Smoke => -10,
            Cell::Empty => 0,
        }
    }

    /// The temperature a cell takes when it becomes this material.
    pub fn base_temp(self) -> (t: i16)
        ensures
            t == self.base_temp_of(),
    {
        match self {
            Cell::Lava => 30000,
            Cell::Fire => 800,
            Cell::Steam | Cell::Smoke => 300,
            Cell::Ice => -20,
            _ => 20,
        }
    }

    /// The chance in a hundred that the material catches fire from a
    /// burning neighbour.
    pub fn flammability(self) -> (p: u32)
        ensures
            p == self.flammability_of(),
            p <= 100,
    {
        match self {
            Cell::Gunpowder => 100,
            Cell::Oil => 90,
            Cell::Wood | Cell::Plant => 60,
            _ => 0,
        }
    }

    /// Decides whether this material, as a falling solid or liquid, takes the
    /// place of `target`.
    pub fn can_displace(self, target: Cell) -> (b: bool)
        ensures
            b == self.displaces(target),
    {
        if self.is_static() || target.is_static() {
            return false;
        }
        if self.is_solid() || self.is_liquid() {
            if target == Cell::Empty {
                return true;
            }
            return self.density() > target.density();
        }
        false
    }

    /// Decides whether a rising gas passes through this material.
    pub fn gives_way_to_gas(self) -> (b: bool)
        ensures
            b == self.yields_to_gas(),
    {
        self == Cell::Empty || self.is_liquid()
    }

    /// Decides whether an explosion spares this material.
    pub fn is_structural(self) -> (b: bool)
        ensures
            b == self.structural(),
    {
        self == Cell::Stone || self == Cell::Obsidian || self == Cell::Glass
    }
}

} // verus!
