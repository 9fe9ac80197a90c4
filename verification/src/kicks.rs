use crate::piece::PieceColor;
use vstd::prelude::*;

verus! {

/// Kick-offset table entry for ordinary (quarter-turn) rotations: offset `i`
/// (of 5) for a piece of color `c` in orientation `r`, with y growing upward.
/// The shift tried for a rotation is the old orientation's entry minus the
/// new orientation's entry, so each orientation lists its own placement
/// offsets in the style of the Super Rotation System.
pub open spec fn spec_kick_off(c: PieceColor, r: int, i: int) -> (int, int) {
    match c {
        PieceColor::I => if r == 0 {
            if i == 1 || i == 3 {
                (-1, 0)
            } else if i == 2 || i == 4 {
                (2, 0)
            } else {
                (0, 0)
            }
        } else if r == 1 {
            if i == 0 {
                (-1, 0)
            } else if i == 3 {
                (0, 1)
            } else if i == 4 {
                (0, -2)
            } else {
                (0, 0)
            }
        } else if r == 2 {
            if i == 0 {
                (-1, 1)
            } else if i == 1 {
                (1, 1)
            } else if i == 2 {
                (-2, 1)
            } else if i == 3 {
                (1, 0)
            } else {
                (-2, 0)
            }
        } else {
            if i == 3 {
                (0, -1)
            } else if i == 4 {
                (0, 2)
            } else {
                (0, 1)
            }
        },
        PieceColor::O => if r == 1 {
            (0, -1)
        } else if r == 2 {
            (-1, -1)
        } else if r == 3 {
            (-1, 0)
        } else {
            (0, 0)
        },
        _ => if r == 1 {
            if i == 1 {
                (1, 0)
            } else if i == 2 {
                (1, -1)
            } else if i == 3 {
                (0, 2)
            } else if i == 4 {
                (1, 2)
            } else {
                (0, 0)
            }
        } else if r == 3 {
            if i == 1 {
                (-1, 0)
            } else if i == 2 {
                (-1, -1)
            } else if i == 3 {
                (0, 2)
            } else if i == 4 {
                (-1, 2)
            } else {
                (0, 0)
            }
        } else {
            (0, 0)
        },
    }
}

/// Kick-offset table entry for half-turn (180 degree) rotations: offset `i`
/// (of 2) for orientation `r`. The first candidate is always the unmoved
/// rotation; the second nudges the piece one cell out of its facing.
pub open spec fn spec_kick180_off(c: PieceColor, r: int, i: int) -> (int, int) {
    if i == 1 {
        if r == 0 {
            (0, 1)
        } else if r == 1 {
            (1, 0)
        } else {
            (0, 0)
        }
    } else {
        (0, 0)
    }
}

/// Quarter-turn kick table entry, as machine integers.
pub fn kick_offset(c: PieceColor, r: u8, i: u8) -> (o: (i64, i64))
    requires
        r < 4,
        i < 5,
    ensures
        o.0 as int == spec_kick_off(c, r as int, i as int).0,
        o.1 as int == spec_kick_off(c, r as int, i as int).1,
        -2 <= o.0 <= 2,
        -2 <= o.1 <= 2,
{
    match c {
        PieceColor::I => if r == 0 {
            if i == 1 || i == 3 {
                (-1, 0)
            } else if i == 2 || i == 4 {
                (2, 0)
            } else {
                (0, 0)
            }
        } else if r == 1 {
            if i == 0 {
                (-1, 0)
            } else if i == 3 {
                (0, 1)
            } else if i == 4 {
                (0, -2)
            } else {
                (0, 0)
            }
        } else if r == 2 {
            if i == 0 {
                (-1, 1)
            } else if i == 1 {
                (1, 1)
            } else if i == 2 {
                (-2, 1)
            } else if i == 3 {
                (1, 0)
            } else {
                (-2, 0)
            }
        } else {
            if i == 3 {
                (0, -1)
            } else if i == 4 {
                (0, 2)
            } else {
                (0, 1)
            }
        },
        PieceColor::O => if r == 1 {
            (0, -1)
        } else if r == 2 {
            (-1, -1)
        } else if r == 3 {
            (-1, 0)
        } else {
            (0, 0)
        },
        _ => if r == 1 {
            if i == 1 {
                (1, 0)
            } else if i == 2 {
                (1, -1)
            } else if i == 3 {
                (0, 2)
            } else if i == 4 {
                (1, 2)
            } else {
                (0, 0)
            }
        } else if r == 3 {
            if i == 1 {
                (-1, 0)
            } else if i == 2 {
                (-1, -1)
            } else if i == 3 {
                (0, 2)
            } else if i == 4 {
                (-1, 2)
            } else {
                (0, 0)
            }
        } else {
            (0, 0)
        },
    }
}

/// Half-turn kick table entry, as machine integers.
pub fn kick180_offset(c: PieceColor, r: u8, i: u8) -> (o: (i64, i64))
    requires
        r < 4,
        i < 2,
    ensures
        o.0 as int == spec_kick180_off(c, r as int, i as int).0,
        o.1 as int == spec_kick180_off(c, r as int, i as int).1,
        -1 <= o.0 <= 1,
        -1 <= o.1 <= 1,
{
    if i == 1 {
        if r == 0 {
            (0, 1)
        } else if r == 1 {
            (1, 0)
        } else {
            (0, 0)
        }
    } else {
        (0, 0)
    }
}

} // verus!
