use crate::vec2::Vec2;
use vstd::prelude::*;

verus! {

/// A pose coordinate at least `m` cells away from the `i64` limits, so that
/// the engine's bounded offsets (mino lookups, kick shifts, slides) can be
/// applied without overflow. Each operation asks only for the margin the
/// machine forces on it.
pub open spec fn coords_within(v: Vec2, m: int) -> bool {
    &&& -(i64::MAX - m) <= v.0 <= i64::MAX - m
    &&& -(i64::MAX - m) <= v.1 <= i64::MAX - m
}

/// A pose coordinate with enough slack for every engine operation at once.
pub open spec fn vec_in_range(v: Vec2) -> bool {
    coords_within(v, 64)
}

/// The color/shape identity of a piece. `B` is the blank/black tag, `G` the
/// gray garbage tag; the seven others are the tetromino shapes.
#[derive(Clone, Copy, PartialEq, Eq, Structural, Debug)]
pub enum PieceColor {
    B,
    I,
    L,
    O,
    Z,
    T,
    J,
    S,
    G,
}

/// The small integer stored for each color in a 4-bit tag.
pub open spec fn spec_color_to_int(c: PieceColor) -> int {
    match c {
        PieceColor::B => 0,
        PieceColor::I => 1,
        PieceColor::L => 2,
        PieceColor::O => 3,
        PieceColor::Z => 4,
        PieceColor::T => 5,
        PieceColor::J => 6,
        PieceColor::S => 7,
        PieceColor::G => 8,
    }
}

/// The color a 4-bit tag decodes to; tags with no color decode to blank.
pub open spec fn spec_color_from_int(v: int) -> PieceColor {
    if v == 1 {
        PieceColor::I
    } else if v == 2 {
        PieceColor::L
    } else if v == 3 {
        PieceColor::O
    } else if v == 4 {
        PieceColor::Z
    } else if v == 5 {
        PieceColor::T
    } else if v == 6 {
        PieceColor::J
    } else if v == 7 {
        PieceColor::S
    } else if v == 8 {
        PieceColor::G
    } else {
        PieceColor::B
    }
}

/// Decodes a color tag; values outside the known range decode to blank.
pub fn piece_color_from_int(v: u8) -> (c: PieceColor)
    ensures
        c == spec_color_from_int(v as int),
{
    if v == 1 {
        PieceColor::I
    } else if v == 2 {
        PieceColor::L
    } else if v == 3 {
        PieceColor::O
    } else if v == 4 {
        PieceColor::Z
    } else if v == 5 {
        PieceColor::T
    } else if v == 6 {
        PieceColor::J
    } else if v == 7 {
        PieceColor::S
    } else if v == 8 {
        PieceColor::G
    } else {
        PieceColor::B
    }
}

/// Encodes a color as its 4-bit tag value.
pub fn piece_color_to_int(c: PieceColor) -> (v: u8)
    ensures
        v as int == spec_color_to_int(c),
        v <= 8,
{
    match c {
        PieceColor::B => 0,
        PieceColor::I => 1,
        PieceColor::L => 2,
        PieceColor::O => 3,
        PieceColor::Z => 4,
        PieceColor::T => 5,
        PieceColor::J => 6,
        PieceColor::S => 7,
        PieceColor::G => 8,
    }
}

/// One of the four cardinal orientations of a piece, doubling as a slide
/// direction for auto-shift.
#[derive(Clone, Copy, PartialEq, Eq, Structural, Debug)]
pub enum Direction {
    North,
    East,
    South,
    West,
}

/// The orientation index: North is 0 and each clockwise quarter turn adds 1.
pub open spec fn dir_index(d: Direction) -> int {
    match d {
        Direction::North => 0,
        Direction::East => 1,
        Direction::South => 2,
        Direction::West => 3,
    }
}

/// The orientation an index taken modulo 4 selects.
pub open spec fn spec_dir_from_int(v: int) -> Direction {
    if v % 4 == 0 {
        Direction::North
    } else if v % 4 == 1 {
        Direction::East
    } else if v % 4 == 2 {
        Direction::South
    } else {
        Direction::West
    }
}

impl Direction {
    /// The orientation selected by a non-negative index, modulo 4.
    pub fn from_int(v: i64) -> (d: Direction)
        requires
            v >= 0,
        ensures
            d == spec_dir_from_int(v as int),
    {
        let m = v % 4;
        if m == 0 {
            Direction::North
        } else if m == 1 {
            Direction::East
        } else if m == 2 {
            Direction::South
        } else {
            Direction::West
        }
    }

    /// The orientation index, 0 through 3.
    pub fn to_int(self) -> (v: u8)
        ensures
            v as int == dir_index(self),
            v < 4,
    {
        match self {
            Direction::North => 0,
            Direction::East => 1,
            Direction::South => 2,
            Direction::West => 3,
        }
    }
}

/// Mino offsets of a piece in its spawn (North) orientation, relative to the
/// pose position, with y growing upward.
pub open spec fn spec_base_off(c: PieceColor, i: int) -> (int, int) {
    match c {
        PieceColor::I => if i == 0 {
            (-1, 0)
        } else if i == 1 {
            (0, 0)
        } else if i == 2 {
            (1, 0)
        } else {
            (2, 0)
        },
        PieceColor::L => if i == 0 {
            (1, 1)
        } else if i == 1 {
            (-1, 0)
        } else if i == 2 {
            (0, 0)
        } else {
            (1, 0)
        },
        PieceColor::O => if i == 0 {
            (0, 0)
        } else if i == 1 {
            (1, 0)
        } else if i == 2 {
            (0, 1)
        } else {
            (1, 1)
        },
        PieceColor::Z => if i == 0 {
            (-1, 1)
        } else if i == 1 {
            (0, 1)
        } else if i == 2 {
            (0, 0)
        } else {
            (1, 0)
        },
        PieceColor::T => if i == 0 {
            (-1, 0)
        } else if i == 1 {
            (0, 0)
        } else if i == 2 {
            (1, 0)
        } else {
            (0, 1)
        },
        PieceColor::J => if i == 0 {
            (-1, 1)
        } else if i == 1 {
            (-1, 0)
        } else if i == 2 {
            (0, 0)
        } else {
            (1, 0)
        },
        PieceColor::S => if i == 0 {
            (-1, 0)
        } else if i == 1 {
            (0, 0)
        } else if i == 2 {
            (0, 1)
        } else {
            (1, 1)
        },
        _ => (0, 0),
    }
}

/// A clockwise quarter turn of an offset: every piece rotates about the
/// mino cell its pose position names.
pub open spec fn spec_cw(o: (int, int)) -> (int, int) {
    (o.1, -o.0)
}

/// Board-space offset of mino `i` of a piece of color `c` in orientation `r`,
/// relative to the pose position. The O piece does not move when rotated.
pub open spec fn spec_mino_off(c: PieceColor, r: int, i: int) -> (int, int) {
    let b = spec_base_off(c, i);
    match c {
        PieceColor::O => b,
        _ => if r == 1 {
            spec_cw(b)
        } else if r == 2 {
            spec_cw(spec_cw(b))
        } else if r == 3 {
            spec_cw(spec_cw(spec_cw(b)))
        } else {
            b
        },
    }
}

/// Every mino offset stays within 2 cells of the pose position.
pub proof fn lemma_mino_off_bounds(c: PieceColor, r: int, i: int)
    ensures
        -2 <= spec_mino_off(c, r, i).0 <= 2,
        -2 <= spec_mino_off(c, r, i).1 <= 2,
{
}

/// Spawn-orientation offset of mino `i`, as machine integers.
fn base_off(c: PieceColor, i: u8) -> (o: (i64, i64))
    requires
        i < 4,
    ensures
        o.0 as int == spec_base_off(c, i as int).0,
        o.1 as int == spec_base_off(c, i as int).1,
{
    match c {
        PieceColor::I => if i == 0 {
            (-1, 0)
        } else if i == 1 {
            (0, 0)
        } else if i == 2 {
            (1, 0)
        } else {
            (2, 0)
        },
        PieceColor::L => if i == 0 {
            (1, 1)
        } else if i == 1 {
            (-1, 0)
        } else if i == 2 {
            (0, 0)
        } else {
            (1, 0)
        },
        PieceColor::O => if i == 0 {
            (0, 0)
        } else if i == 1 {
            (1, 0)
        } else if i == 2 {
            (0, 1)
        } else {
            (1, 1)
        },
        PieceColor::Z => if i == 0 {
            (-1, 1)
        } else if i == 1 {
            (0, 1)
        } else if i == 2 {
            (0, 0)
        } else {
            (1, 0)
        },
        PieceColor::T => if i == 0 {
            (-1, 0)
        } else if i == 1 {
            (0, 0)
        } else if i == 2 {
            (1, 0)
        } else {
            (0, 1)
        },
        PieceColor::J => if i == 0 {
            (-1, 1)
        } else if i == 1 {
            (-1, 0)
        } else if i == 2 {
            (0, 0)
        } else {
            (1, 0)
        },
        PieceColor::S => if i == 0 {
            (-1, 0)
        } else if i == 1 {
            (0, 0)
        } else if i == 2 {
            (0, 1)
        } else {
            (1, 1)
        },
        _ => (0, 0),
    }
}

/// Board-space offset of mino `i` for orientation index `r`.
pub fn mino_off(c: PieceColor, r: u8, i: u8) -> (o: (i64, i64))
    requires
        r < 4,
        i < 4,
    ensures
        o.0 as int == spec_mino_off(c, r as int, i as int).0,
        o.1 as int == spec_mino_off(c, r as int, i as int).1,
        -2 <= o.0 <= 2,
        -2 <= o.1 <= 2,
{
    proof {
        lemma_mino_off_bounds(c, r as int, i as int);
    }
    let b = base_off(c, i);
    match c {
        PieceColor::O => b,
        _ => if r == 1 {
            (b.1, -b.0)
        } else if r == 2 {
            (-b.0, -b.1)
        } else if r == 3 {
            (-b.1, b.0)
        } else {
            b
        },
    }
}

/// A piece's full placement state: shape/color identity, orientation, and
/// position. Plain value semantics; a copied pose is independent of its
/// source.
#[derive(Clone, Copy, PartialEq, Eq, Structural, Debug)]
pub struct TetPiece {
    pub color: PieceColor,
    pub rotation: Direction,
    pub position: Vec2,
}

/// The board-space coordinates of the four minos of a pose.
pub open spec fn spec_mino_x(p: TetPiece, i: int) -> int {
    p.position.0 + spec_mino_off(p.color, dir_index(p.rotation), i).0
}

/// The board-space coordinates of the four minos of a pose.
pub open spec fn spec_mino_y(p: TetPiece, i: int) -> int {
    p.position.1 + spec_mino_off(p.color, dir_index(p.rotation), i).1
}

impl TetPiece {
    /// A pose built from its three components.
    pub fn new(color: PieceColor, rotation: Direction, position: Vec2) -> (p: TetPiece)
        ensures
            p.color == color,
            p.rotation == rotation,
            p.position == position,
    {
        TetPiece { color, rotation, position }
    }

    /// The board-space coordinates of this pose's four occupied minos.
    pub fn get_minos(&self) -> (r: [Vec2; 4])
        requires
            coords_within(self.position, 4),
        ensures
            forall|i: int|
                0 <= i < 4 ==> r[i].0 == spec_mino_x(*self, i) && r[i].1 == spec_mino_y(*self, i),
    {
        let r = self.rotation.to_int();
        let o0 = mino_off(self.color, r, 0);
        let o1 = mino_off(self.color, r, 1);
        let o2 = mino_off(self.color, r, 2);
        let o3 = mino_off(self.color, r, 3);
        [
            Vec2(self.position.0 + o0.0, self.position.1 + o0.1),
            Vec2(self.position.0 + o1.0, self.position.1 + o1.1),
            Vec2(self.position.0 + o2.0, self.position.1 + o2.1),
            Vec2(self.position.0 + o3.0, self.position.1 + o3.1),
        ]
    }

    /// Moves the pose `force` rows downward (toward smaller y), without any
    /// collision test; the board's gravity step builds on this.
    pub fn apply_gravity(&mut self, force: i64)
        requires
            i64::MIN <= old(self).position.1 - force <= i64::MAX,
        ensures
            final(self).color == old(self).color,
            final(self).rotation == old(self).rotation,
            final(self).position.0 == old(self).position.0,
            final(self).position.1 == old(self).position.1 - force,
    {
        self.position = Vec2(self.position.0, self.position.1 - force);
    }
}

} // verus!
