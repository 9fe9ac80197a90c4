use crate::kicks::{kick180_offset, kick_offset, spec_kick180_off, spec_kick_off};
use crate::piece::{
    coords_within, dir_index, piece_color_from_int, piece_color_to_int, spec_color_from_int,
    spec_dir_from_int, spec_mino_off, spec_mino_x, spec_mino_y, vec_in_range, Direction,
    PieceColor, TetPiece,
};
use crate::vec2::Vec2;
use vstd::prelude::*;

verus! {

broadcast use vstd::array::group_array_axioms;

/// A fixed-capacity board packed into one 64-bit word: bits [0,4) hold a
/// 4-bit color tag, bits [4,64) a 60-cell occupancy bitmap addressed as
/// `index = x + y*10` for x in [0,10) and y in [0,6). Every coordinate
/// outside that 10-by-6 window reads as occupied, so collision queries need
/// no separate edge handling.
#[allow(non_camel_case_types)]
#[derive(Clone, Copy, PartialEq, Eq, Structural, Debug)]
pub struct u64_board(u64);

/// The bit position inside the packed word that stores cell (x, y).
pub open spec fn occ_index(x: int, y: int) -> u64 {
    (4 + x + 10 * y) as u64
}

/// Whether bit `sh` of a word is set.
spec fn word_bit(w: u64, sh: u64) -> bool {
    (w >> sh) & 1 == 1
}

/// Whether the occupancy bit of in-window cell (x, y) is set.
pub closed spec fn spec_occ(b: u64_board, x: int, y: int) -> bool {
    word_bit(b.0, occ_index(x, y))
}

/// The tile read policy: the stored bit inside the 10-by-6 window, occupied
/// everywhere outside it (virtual wall, floor, and ceiling).
pub open spec fn spec_tile(b: u64_board, x: int, y: int) -> bool {
    if 0 <= x < 10 && 0 <= y < 6 {
        spec_occ(b, x, y)
    } else {
        true
    }
}

/// The 4-bit color tag stored beside the occupancy bitmap.
pub closed spec fn spec_tag(b: u64_board) -> u64 {
    b.0 & 15
}

/// Writing one bit of the word changes that bit alone; the low 4 tag bits
/// are untouched whenever the bit lies in the bitmap range.
proof fn lemma_bit_update(w: u64, sh: u64, b: u64)
    by (bit_vector)
    requires
        sh < 64,
        b <= 1,
    ensures
        (((w & !(1u64 << sh)) | (b << sh)) >> sh) & 1 == b,
        forall|j: u64|
            #![auto]
            j < 64 && j != sh ==> (((w & !(1u64 << sh)) | (b << sh)) >> j) & 1 == (w >> j) & 1,
        sh >= 4 ==> ((w & !(1u64 << sh)) | (b << sh)) & 15 == w & 15,
{
}

/// Clearing one bit of the word changes that bit alone; the low 4 tag bits
/// are untouched whenever the bit lies in the bitmap range.
proof fn lemma_bit_clear(w: u64, sh: u64)
    by (bit_vector)
    requires
        sh < 64,
    ensures
        ((w & !(1u64 << sh)) >> sh) & 1 == 0,
        forall|j: u64|
            #![auto]
            j < 64 && j != sh ==> ((w & !(1u64 << sh)) >> j) & 1 == (w >> j) & 1,
        sh >= 4 ==> (w & !(1u64 << sh)) & 15 == w & 15,
{
}

/// Setting one bit of the word with `|` changes that bit alone; the low 4
/// tag bits are untouched whenever the bit lies in the bitmap range.
proof fn lemma_bit_or(w: u64, sh: u64)
    by (bit_vector)
    requires
        sh < 64,
    ensures
        ((w | (1u64 << sh)) >> sh) & 1 == 1,
        forall|j: u64|
            #![auto]
            j < 64 && j != sh ==> ((w | (1u64 << sh)) >> j) & 1 == (w >> j) & 1,
        sh >= 4 ==> (w | (1u64 << sh)) & 15 == w & 15,
{
}

/// Rewriting the low 4 tag bits leaves every bitmap bit unchanged.
proof fn lemma_tag_update(w: u64, c: u64)
    by (bit_vector)
    requires
        c <= 15,
    ensures
        ((w & !15u64) | c) & 15 == c,
        forall|j: u64|
            #![auto]
            4 <= j < 64 ==> (((w & !15u64) | c) >> j) & 1 == (w >> j) & 1,
{
}

/// The all-zero word has no bit set and a zero tag.
proof fn lemma_zero_word()
    by (bit_vector)
    ensures
        forall|j: u64| #![auto] j < 64 ==> (0u64 >> j) & 1 == 0,
        0u64 & 15 == 0,
{
}

/// Row `y` of a tile matrix read back correctly: binary values matching
/// the tile policy.
pub open spec fn tile_row_ok(b: u64_board, row: [u8; 10], y: int) -> bool {
    forall|x: int| 0 <= x < 10 ==> row[x] <= 1 && ((#[trigger] row[x] == 1) == spec_tile(b, x, y))
}

/// Each in-window cell maps to its own bit position in [4, 64).
proof fn lemma_occ_index(x: int, y: int)
    requires
        0 <= x < 10,
        0 <= y < 6,
    ensures
        occ_index(x, y) as int == 4 + x + 10 * y,
        4 <= occ_index(x, y) < 64,
        forall|i: int, j: int|
            0 <= i < 10 && 0 <= j < 6 && !(i == x && j == y) ==> occ_index(i, j) != occ_index(
                x,
                y,
            ),
{
    assert forall|i: int, j: int|
        0 <= i < 10 && 0 <= j < 6 && !(i == x && j == y) implies occ_index(i, j) != occ_index(
        x,
        y,
    ) by {
        assert(occ_index(i, j) as int == 4 + i + 10 * j);
    }
}

impl u64_board {
    /// An empty board: no cell occupied, color tag zero.
    pub fn new() -> (b: u64_board)
        ensures
            forall|x: int, y: int| 0 <= x < 10 && 0 <= y < 6 ==> !spec_occ(b, x, y),
            spec_tag(b) == 0,
    {
        proof {
            lemma_zero_word();
            assert forall|x: int, y: int| 0 <= x < 10 && 0 <= y < 6 implies !spec_occ(
                u64_board(0),
                x,
                y,
            ) by {
                lemma_occ_index(x, y);
            }
        }
        u64_board(0)
    }

    /// Whether a position lies in the 4-row coordinate space: the top 4 rows
    /// of interchange arrays map into this region.
    pub fn in_4h_bounds(&self, position: Vec2) -> (r: bool)
        ensures
            r == (0 <= position.0 < 10 && 0 <= position.1 < 4),
    {
        position.0 >= 0 && position.0 < 10 && position.1 >= 0 && position.1 < 4
    }

    /// Whether a position lies in the packed 10-by-6 storage window.
    pub fn in_6h_bounds(&self, position: Vec2) -> (r: bool)
        ensures
            r == (0 <= position.0 < 10 && 0 <= position.1 < 6),
    {
        position.0 >= 0 && position.0 < 10 && position.1 >= 0 && position.1 < 6
    }

    /// Whether a position lies in the full 24-row coordinate space used by
    /// unpacked board representations.
    pub fn in_bounds(&self, position: Vec2) -> (r: bool)
        ensures
            r == (0 <= position.0 < 10 && 0 <= position.1 < 24),
    {
        position.0 >= 0 && position.0 < 10 && position.1 >= 0 && position.1 < 24
    }

    /// The color the 4-bit side channel currently decodes to.
    pub fn get_piece_color(&self) -> (c: PieceColor)
        ensures
            c == spec_color_from_int(spec_tag(*self) as int),
    {
        let w = self.0;
        proof {
            assert(w & 15 < 16) by (bit_vector);
        }
        piece_color_from_int((w & 15) as u8)
    }

    /// Stores a color in the 4-bit side channel; the occupancy bitmap is
    /// untouched.
    pub fn set_piece_color(&mut self, color: PieceColor)
        ensures
            spec_tag(*final(self)) as int == crate::piece::spec_color_to_int(color),
            forall|x: int, y: int|
                0 <= x < 10 && 0 <= y < 6 ==> spec_occ(*final(self), x, y) == spec_occ(
                    *old(self),
                    x,
                    y,
                ),
    {
        let ghost w0 = self.0;
        let tag = piece_color_to_int(color);
        self.0 = (self.0 & !15u64) | (tag as u64);
        proof {
            lemma_tag_update(w0, tag as u64);
            assert forall|x: int, y: int| 0 <= x < 10 && 0 <= y < 6 implies spec_occ(
                *self,
                x,
                y,
            ) == spec_occ(u64_board(w0), x, y) by {
                lemma_occ_index(x, y);
            }
        }
    }

    /// The tile at (x, y): the stored occupancy bit inside the window, and 1
    /// (occupied) everywhere outside it. This unconditional out-of-window
    /// policy is what makes every higher-level query correct at the edges.
    pub fn get_tile(&self, x: i64, y: i64) -> (r: u8)
        ensures
            r <= 1,
            (r == 1) == spec_tile(*self, x as int, y as int),
    {
        if self.in_6h_bounds(Vec2(x, y)) {
            proof {
                lemma_occ_index(x as int, y as int);
            }
            let sh: u64 = (4 + x + y * 10) as u64;
            let w = self.0;
            let bit = (w >> sh) & 1;
            proof {
                assert((w >> sh) & 1 <= 1) by (bit_vector);
            }
            bit as u8
        } else {
            1
        }
    }

    /// Whether the tile at (x, y) reads as occupied.
    pub fn tile_occupied(&self, x: i64, y: i64) -> (r: bool)
        ensures
            r == spec_tile(*self, x as int, y as int),
    {
        self.get_tile(x, y) != 0
    }

    /// Writes the occupancy bit at (x, y) if the cell lies in the window; a
    /// nonzero value marks the cell occupied. A write outside the window is
    /// a silent no-op.
    pub fn set_tile(&mut self, x: i64, y: i64, new: u8)
        ensures
            0 <= x < 10 && 0 <= y < 6 ==> {
                &&& spec_occ(*final(self), x as int, y as int) == (new != 0)
                &&& forall|i: int, j: int|
                    0 <= i < 10 && 0 <= j < 6 && !(i == x && j == y) ==> spec_occ(
                        *final(self),
                        i,
                        j,
                    ) == spec_occ(*old(self), i, j)
                &&& spec_tag(*final(self)) == spec_tag(*old(self))
            },
            !(0 <= x < 10 && 0 <= y < 6) ==> *final(self) == *old(self),
    {
        if self.in_6h_bounds(Vec2(x, y)) {
            proof {
                lemma_occ_index(x as int, y as int);
            }
            let ghost w0 = self.0;
            let sh: u64 = (4 + x + y * 10) as u64;
            let bit: u64 = if new != 0 {
                1
            } else {
                0
            };
            self.0 = (self.0 & !(1u64 << sh)) | (bit << sh);
            proof {
                lemma_bit_update(w0, sh, bit);
                assert forall|i: int, j: int|
                    0 <= i < 10 && 0 <= j < 6 && !(i == x && j == y) implies spec_occ(
                    *self,
                    i,
                    j,
                ) == spec_occ(u64_board(w0), i, j) by {
                    lemma_occ_index(i, j);
                }
            }
        }
    }

    /// The 60 window cells flattened into the first 60 entries of a 240-cell
    /// full-board array, as `index = x + y*10`; cells past the window are
    /// reported empty, since the packed form never stores them.
    pub fn as_array(&self) -> (r: [u8; 240])
        ensures
            forall|x: int, y: int|
                0 <= x < 10 && 0 <= y < 6 ==> r[x + 10 * y] == (if spec_occ(*self, x, y) {
                    1u8
                } else {
                    0u8
                }),
            forall|i: int| 60 <= i < 240 ==> r[i] == 0,
    {
        let mut base = [0u8; 240];
        let w = self.0;
        for i in 0..60
            invariant
                w == self.0,
                forall|x: int, y: int|
                    0 <= x < 10 && 0 <= y < 6 && x + 10 * y < i ==> base[x + 10 * y] == (
                    if spec_occ(*self, x, y) {
                        1u8
                    } else {
                        0u8
                    }),
                forall|j: int| i <= j < 240 ==> base[j] == 0,
        {
            let sh: u64 = (i + 4) as u64;
            let bit = (w >> sh) & 1;
            proof {
                assert((w >> sh) & 1 <= 1) by (bit_vector);
            }
            base[i] = bit as u8;
            proof {
                assert forall|x: int, y: int|
                    0 <= x < 10 && 0 <= y < 6 && x + 10 * y < i + 1 implies base[x + 10 * y] == (
                if spec_occ(*self, x, y) {
                    1u8
                } else {
                    0u8
                }) by {
                    if x + 10 * y == i {
                        lemma_occ_index(x, y);
                    }
                }
            }
        }
        base
    }

    /// The same 240-cell interchange form as `as_array`.
    pub fn get_tile_array(&self) -> (r: [u8; 240])
        ensures
            forall|x: int, y: int|
                0 <= x < 10 && 0 <= y < 6 ==> r[x + 10 * y] == (if spec_occ(*self, x, y) {
                    1u8
                } else {
                    0u8
                }),
            forall|i: int| 60 <= i < 240 ==> r[i] == 0,
    {
        self.as_array()
    }

    /// The full 24-row coordinate space as a matrix of tile reads: the
    /// packed window where it applies, and the out-of-window occupied
    /// policy everywhere else (so rows 6 and above read as 1).
    pub fn get_tile_matrix(&self) -> (r: [[u8; 10]; 24])
        ensures
            forall|y: int| 0 <= y < 24 ==> #[trigger] tile_row_ok(*self, r[y], y),
    {
        let mut matrix = [[0u8; 10]; 24];
        for y in 0..24
            invariant
                forall|j: int| 0 <= j < y ==> #[trigger] tile_row_ok(*self, matrix[j], j),
        {
            let mut row = [0u8; 10];
            for x in 0..10
                invariant
                    y < 24,
                    forall|i: int| 0 <= i < x ==> row[i] <= 1 && ((row[i] == 1) == spec_tile(
                        *self,
                        i,
                        y as int,
                    )),
            {
                row[x] = self.get_tile(x as i64, y as i64);
            }
            matrix[y] = row;
            proof {
                assert(tile_row_ok(*self, row, y as int));
            }
        }
        matrix
    }

    /// A board rebuilt from a 240-cell full-board array: a nonzero code in
    /// any of the first 60 cells marks the matching window cell occupied;
    /// the rest of the array is ignored and the color tag starts at zero.
    pub fn from_int_array(arr: [u8; 240]) -> (b: u64_board)
        ensures
            forall|x: int, y: int|
                0 <= x < 10 && 0 <= y < 6 ==> spec_occ(b, x, y) == (arr[x + 10 * y] != 0),
            spec_tag(b) == 0,
    {
        let mut w: u64 = 0;
        proof {
            lemma_zero_word();
        }
        for i in 0..60
            invariant
                forall|x: int, y: int|
                    0 <= x < 10 && 0 <= y < 6 && x + 10 * y < i ==> word_bit(w, occ_index(x, y))
                        == (arr[x + 10 * y] != 0),
                forall|j: u64| j < 64 && j >= 4 + i ==> !word_bit(w, j),
                w & 15 == 0,
        {
            let ghost w0 = w;
            let sh: u64 = (i + 4) as u64;
            if arr[i] != 0 {
                w = w | (1u64 << sh);
            }
            proof {
                lemma_bit_or(w0, sh);
                assert forall|j: u64| j < 64 && j >= 4 + (i + 1) implies !word_bit(w, j) by {
                    assert(!word_bit(w0, j));
                    assert(sh as int == 4 + i);
                    assert((w >> j) & 1 == (w0 >> j) & 1);
                }
                assert forall|x: int, y: int|
                    0 <= x < 10 && 0 <= y < 6 && x + 10 * y < i + 1 implies word_bit(
                    w,
                    occ_index(x, y),
                ) == (arr[x + 10 * y] != 0) by {
                    lemma_occ_index(x, y);
                }
            }
        }
        proof {
            assert forall|x: int, y: int| 0 <= x < 10 && 0 <= y < 6 implies spec_occ(
                u64_board(w),
                x,
                y,
            ) == (arr[x + 10 * y] != 0) by {
                lemma_occ_index(x, y);
            }
        }
        u64_board(w)
    }

    /// A board bulk-populated from a 40-cell array holding 4 rows, row 0
    /// being the lowest row of the window; the two rows above start empty.
    pub fn from_4h_array(arr: [u8; 40]) -> (b: u64_board)
        ensures
            forall|x: int, y: int|
                0 <= x < 10 && 0 <= y < 4 ==> spec_occ(b, x, y) == (arr[x + 10 * y] != 0),
            forall|x: int, y: int| 0 <= x < 10 && 4 <= y < 6 ==> !spec_occ(b, x, y),
            spec_tag(b) == 0,
    {
        let mut tiles = [0u8; 240];
        for i in 0..40
            invariant
                forall|j: int| 0 <= j < i ==> tiles[j] == arr[j],
                forall|j: int| i <= j < 240 ==> tiles[j] == 0,
        {
            tiles[i] = arr[i];
        }
        u64_board::from_int_array(tiles)
    }

    /// The board translated into the 24-row interop representation used by
    /// unpacked boards: window row y lands in matrix row 22 - y with the
    /// gray code 8 for occupied cells, and every row the packed form cannot
    /// represent is reported empty.
    pub fn as_board(&self) -> (r: [[u8; 10]; 24])
        ensures
            forall|x: int, y: int|
                0 <= x < 10 && 0 <= y < 6 ==> r[22 - y][x] == (if spec_occ(*self, x, y) {
                    8u8
                } else {
                    0u8
                }),
            forall|ry: int, x: int|
                0 <= ry < 24 && 0 <= x < 10 && !(17 <= ry <= 22) ==> r[ry][x] == 0,
    {
        let mut matrix = [[0u8; 10]; 24];
        for y in 0..6
            invariant
                forall|i: int, j: int|
                    0 <= i < 10 && 0 <= j < y ==> matrix[22 - j][i] == (if spec_occ(
                        *self,
                        i,
                        j,
                    ) {
                        8u8
                    } else {
                        0u8
                    }),
                forall|ry: int, i: int|
                    0 <= ry < 24 && 0 <= i < 10 && !(23 - y <= ry <= 22) ==> matrix[ry][i] == 0,
        {
            let mut row = [0u8; 10];
            for x in 0..10
                invariant
                    y < 6,
                    forall|i: int| 0 <= i < x ==> row[i] == (if spec_occ(*self, i, y as int) {
                        8u8
                    } else {
                        0u8
                    }),
                    forall|i: int| x <= i < 10 ==> row[i] == 0,
            {
                let t = self.get_tile(x as i64, y as i64);
                row[x] = t * 8;
            }
            matrix[22 - y] = row;
        }
        matrix
    }

    /// Clears the occupancy bit at (x, y) if the cell lies in the window; a
    /// write outside the window is a silent no-op.
    pub fn clear_tile(&mut self, x: i64, y: i64)
        ensures
            0 <= x < 10 && 0 <= y < 6 ==> {
                &&& !spec_occ(*final(self), x as int, y as int)
                &&& forall|i: int, j: int|
                    0 <= i < 10 && 0 <= j < 6 && !(i == x && j == y) ==> spec_occ(
                        *final(self),
                        i,
                        j,
                    ) == spec_occ(*old(self), i, j)
                &&& spec_tag(*final(self)) == spec_tag(*old(self))
            },
            !(0 <= x < 10 && 0 <= y < 6) ==> *final(self) == *old(self),
    {
        if self.in_6h_bounds(Vec2(x, y)) {
            proof {
                lemma_occ_index(x as int, y as int);
            }
            let ghost w0 = self.0;
            let sh: u64 = (4 + x + y * 10) as u64;
            self.0 = self.0 & !(1u64 << sh);
            proof {
                lemma_bit_clear(w0, sh);
                assert forall|i: int, j: int|
                    0 <= i < 10 && 0 <= j < 6 && !(i == x && j == y) implies spec_occ(
                    *self,
                    i,
                    j,
                ) == spec_occ(u64_board(w0), i, j) by {
                    lemma_occ_index(i, j);
                }
            }
        }
    }
}

/// Whether a piece of color `c` in orientation `r` with its pose position at
/// (x, y) collides: either the position has run past the maximum drop depth
/// (a guard against runaway poses), or some mino lands on a tile that reads
/// as occupied, the virtual walls included.
pub open spec fn spec_collides_at(b: u64_board, c: PieceColor, r: int, x: int, y: int) -> bool {
    y > 6 || exists|i: int|
        0 <= i < 4 && #[trigger] spec_tile(
            b,
            x + spec_mino_off(c, r, i).0,
            y + spec_mino_off(c, r, i).1,
        )
}

/// Whether a pose collides with this board.
pub open spec fn spec_collides(b: u64_board, p: TetPiece) -> bool {
    spec_collides_at(b, p.color, dir_index(p.rotation), p.position.0 as int, p.position.1 as int)
}

/// The pose moved by (dx, dy), color and orientation unchanged.
pub open spec fn spec_translated(p: TetPiece, dx: int, dy: int) -> TetPiece {
    TetPiece {
        color: p.color,
        rotation: p.rotation,
        position: Vec2((p.position.0 + dx) as i64, (p.position.1 + dy) as i64),
    }
}

/// Whether a pose can be locked here: it does not collide, and the pose one
/// row further down does, so the piece is resting on something.
pub open spec fn spec_can_place(b: u64_board, p: TetPiece) -> bool {
    !spec_collides(b, p) && spec_collides(b, spec_translated(p, 0, -1))
}

/// Moving two translations in sequence is one translation by the sums, as
/// long as no intermediate coordinate leaves the `i64` range.
pub proof fn lemma_translated_compose(p: TetPiece, dx1: int, dy1: int, dx2: int, dy2: int)
    requires
        i64::MIN <= p.position.0 + dx1 <= i64::MAX,
        i64::MIN <= p.position.1 + dy1 <= i64::MAX,
        i64::MIN <= p.position.0 + dx1 + dx2 <= i64::MAX,
        i64::MIN <= p.position.1 + dy1 + dy2 <= i64::MAX,
    ensures
        spec_translated(spec_translated(p, dx1, dy1), dx2, dy2) == spec_translated(
            p,
            dx1 + dx2,
            dy1 + dy2,
        ),
{
}

/// The identity translation leaves a pose unchanged.
pub proof fn lemma_translated_zero(p: TetPiece)
    ensures
        spec_translated(p, 0, 0) == p,
{
}

/// No pose escapes a collision by moving further out of the window: if the
/// pose position is past the depth guard, or mino `i` lies beyond one of the
/// window's four sides, any translation that does not back away from that
/// side still collides.
pub proof fn lemma_collision_monotone(
    b: u64_board,
    c: PieceColor,
    r: int,
    x: int,
    y: int,
    i: int,
    dx: int,
    dy: int,
)
    requires
        0 <= i < 4,
    ensures
        y > 6 && dy >= 0 ==> spec_collides_at(b, c, r, x + dx, y + dy),
        x + spec_mino_off(c, r, i).0 >= 10 && dx >= 0 ==> spec_collides_at(b, c, r, x + dx, y + dy),
        x + spec_mino_off(c, r, i).0 < 0 && dx <= 0 ==> spec_collides_at(b, c, r, x + dx, y + dy),
        y + spec_mino_off(c, r, i).1 >= 6 && dy >= 0 ==> spec_collides_at(b, c, r, x + dx, y + dy),
        y + spec_mino_off(c, r, i).1 < 0 && dy <= 0 ==> spec_collides_at(b, c, r, x + dx, y + dy),
{
    if x + spec_mino_off(c, r, i).0 >= 10 && dx >= 0 {
        assert(spec_tile(b, x + dx + spec_mino_off(c, r, i).0, y + dy + spec_mino_off(c, r, i).1));
    }
    if x + spec_mino_off(c, r, i).0 < 0 && dx <= 0 {
        assert(spec_tile(b, x + dx + spec_mino_off(c, r, i).0, y + dy + spec_mino_off(c, r, i).1));
    }
    if y + spec_mino_off(c, r, i).1 >= 6 && dy >= 0 {
        assert(spec_tile(b, x + dx + spec_mino_off(c, r, i).0, y + dy + spec_mino_off(c, r, i).1));
    }
    if y + spec_mino_off(c, r, i).1 < 0 && dy <= 0 {
        assert(spec_tile(b, x + dx + spec_mino_off(c, r, i).0, y + dy + spec_mino_off(c, r, i).1));
    }
}

/// Outside the window every tile reads as occupied, whatever the board
/// holds: the virtual walls, floor, and ceiling.
pub proof fn lemma_wall_occupied(b: u64_board, x: int, y: int)
    requires
        !(0 <= x < 10) || !(0 <= y < 6),
    ensures
        spec_tile(b, x, y),
{
}

/// A board bulk-populated from a 4-row array reads back, through the tile
/// policy, exactly the occupancy the array described.
pub proof fn lemma_from_4h_round_trip(arr: [u8; 40], b: u64_board)
    requires
        forall|x: int, y: int|
            0 <= x < 10 && 0 <= y < 4 ==> spec_occ(b, x, y) == (arr[x + 10 * y] != 0),
    ensures
        forall|x: int, y: int|
            0 <= x < 10 && 0 <= y < 4 ==> spec_tile(b, x, y) == (arr[x + 10 * y] != 0),
{
}

impl u64_board {
    /// Whether the pose collides with this board: its position has exceeded
    /// the maximum drop depth, or one of its minos lands on an occupied or
    /// out-of-window tile. A pure query; the board is never changed.
    pub fn does_collide(&self, piece: TetPiece) -> (r: bool)
        requires
            coords_within(piece.position, 4),
        ensures
            r == spec_collides(*self, piece),
    {
        if piece.position.1 > 6 {
            return true;
        }
        let minos = piece.get_minos();
        let t0 = self.get_tile(minos[0].0, minos[0].1);
        let t1 = self.get_tile(minos[1].0, minos[1].1);
        let t2 = self.get_tile(minos[2].0, minos[2].1);
        let t3 = self.get_tile(minos[3].0, minos[3].1);
        let hit = t0 == 1 || t1 == 1 || t2 == 1 || t3 == 1;
        proof {
            if hit {
                if t0 == 1 {
                    assert(spec_tile(*self, spec_mino_x(piece, 0), spec_mino_y(piece, 0)));
                } else if t1 == 1 {
                    assert(spec_tile(*self, spec_mino_x(piece, 1), spec_mino_y(piece, 1)));
                } else if t2 == 1 {
                    assert(spec_tile(*self, spec_mino_x(piece, 2), spec_mino_y(piece, 2)));
                } else {
                    assert(spec_tile(*self, spec_mino_x(piece, 3), spec_mino_y(piece, 3)));
                }
            } else {
                assert forall|i: int| 0 <= i < 4 implies !spec_tile(
                    *self,
                    piece.position.0 + spec_mino_off(piece.color, dir_index(piece.rotation), i).0,
                    piece.position.1 + spec_mino_off(piece.color, dir_index(piece.rotation), i).1,
                ) by {
                    if i == 0 {
                        assert(!spec_tile(*self, spec_mino_x(piece, 0), spec_mino_y(piece, 0)));
                    } else if i == 1 {
                        assert(!spec_tile(*self, spec_mino_x(piece, 1), spec_mino_y(piece, 1)));
                    } else if i == 2 {
                        assert(!spec_tile(*self, spec_mino_x(piece, 2), spec_mino_y(piece, 2)));
                    } else {
                        assert(!spec_tile(*self, spec_mino_x(piece, 3), spec_mino_y(piece, 3)));
                    }
                }
            }
        }
        hit
    }

    /// Whether locking the pose here would be meaningful: it does not
    /// collide, and the pose one row further down does.
    pub fn can_place(&self, piece: TetPiece) -> (r: bool)
        requires
            coords_within(piece.position, 8),
        ensures
            r == spec_can_place(*self, piece),
    {
        if self.does_collide(piece) {
            false
        } else {
            let mut test = piece;
            test.apply_gravity(1);
            proof {
                assert(test == spec_translated(piece, 0, -1));
            }
            self.does_collide(test)
        }
    }
}

/// The pose a single gravity tick produces: one row down, unless that row
/// collides, in which case the pose is kept.
pub open spec fn spec_gravity(b: u64_board, p: TetPiece) -> TetPiece {
    if spec_collides(b, spec_translated(p, 0, -1)) {
        p
    } else {
        spec_translated(p, 0, -1)
    }
}

/// The pose after `n` gravity ticks.
pub open spec fn spec_gravity_n(b: u64_board, p: TetPiece, n: nat) -> TetPiece
    decreases n,
{
    if n == 0 {
        p
    } else {
        spec_gravity(b, spec_gravity_n(b, p, (n - 1) as nat))
    }
}

/// A pose resting on an obstruction is a fixed point of gravity: one tick
/// keeps it in place, and so does any number of ticks.
pub proof fn lemma_gravity_grounded(b: u64_board, p: TetPiece, n: nat)
    requires
        spec_collides(b, spec_translated(p, 0, -1)),
    ensures
        spec_gravity(b, p) == p,
        spec_gravity_n(b, p, n) == p,
    decreases n,
{
    if n > 0 {
        lemma_gravity_grounded(b, p, (n - 1) as nat);
    }
}

/// How many of the rotation's kick candidates exist: 2 for a half turn,
/// 5 for a quarter turn (or no turn).
pub open spec fn n_cands(delta: u8) -> int {
    if (delta as int) % 4 == 2 {
        2
    } else {
        5
    }
}

/// The positional shift candidate `i` applies: the old orientation's kick
/// offset minus the new orientation's, from the half-turn table for a half
/// turn and the 5-entry table otherwise.
pub open spec fn spec_shift(c: PieceColor, old_r: int, new_r: int, half: bool, i: int) -> (
    int,
    int,
) {
    if half {
        (
            spec_kick180_off(c, old_r, i).0 - spec_kick180_off(c, new_r, i).0,
            spec_kick180_off(c, old_r, i).1 - spec_kick180_off(c, new_r, i).1,
        )
    } else {
        (
            spec_kick_off(c, old_r, i).0 - spec_kick_off(c, new_r, i).0,
            spec_kick_off(c, old_r, i).1 - spec_kick_off(c, new_r, i).1,
        )
    }
}

/// Candidate pose `i` of a rotation request: the new orientation, at the
/// position shifted by candidate `i`'s kick.
pub open spec fn spec_rot_cand(p: TetPiece, delta: u8, i: int) -> TetPiece {
    let old_r = dir_index(p.rotation);
    let new_r = (old_r + (delta as int) % 4) % 4;
    let s = spec_shift(p.color, old_r, new_r, (delta as int) % 4 == 2, i);
    TetPiece {
        color: p.color,
        rotation: spec_dir_from_int(new_r),
        position: Vec2((p.position.0 + s.0) as i64, (p.position.1 + s.1) as i64),
    }
}

/// The first candidate index at or after `i` whose pose does not collide,
/// or the candidate count if every remaining candidate collides.
pub open spec fn spec_first_pass(b: u64_board, p: TetPiece, delta: u8, i: int) -> int
    decreases n_cands(delta) - i,
{
    if i < 0 || i >= n_cands(delta) {
        n_cands(delta)
    } else if !spec_collides(b, spec_rot_cand(p, delta, i)) {
        i
    } else {
        spec_first_pass(b, p, delta, i + 1)
    }
}

/// Whether a rotation request succeeds: some candidate does not collide.
pub open spec fn spec_rotate_ok(b: u64_board, p: TetPiece, delta: u8) -> bool {
    spec_first_pass(b, p, delta, 0) < n_cands(delta)
}

/// The pose a rotation request leaves behind: the first non-colliding
/// candidate in table order, or the unchanged pose on failure.
pub open spec fn spec_rotate_result(b: u64_board, p: TetPiece, delta: u8) -> TetPiece {
    if spec_rotate_ok(b, p, delta) {
        spec_rot_cand(p, delta, spec_first_pass(b, p, delta, 0))
    } else {
        p
    }
}

/// Skipping a prefix of colliding candidates does not change which
/// candidate is found first.
proof fn lemma_first_pass_from(b: u64_board, p: TetPiece, delta: u8, m: int)
    requires
        0 <= m <= n_cands(delta),
        forall|j: int| 0 <= j < m ==> spec_collides(b, #[trigger] spec_rot_cand(p, delta, j)),
    ensures
        spec_first_pass(b, p, delta, 0) == spec_first_pass(b, p, delta, m),
    decreases m,
{
    if m > 0 {
        lemma_first_pass_from(b, p, delta, m - 1);
    }
}

/// The rotation outcome is a pure function of board, pose, and requested
/// turn; in particular a failed request leaves the pose unchanged, so
/// requesting the same rotation again fails identically.
pub proof fn lemma_rotation_deterministic(b: u64_board, p: TetPiece, delta: u8)
    requires
        !spec_rotate_ok(b, p, delta),
    ensures
        spec_rotate_result(b, p, delta) == p,
        !spec_rotate_ok(b, spec_rotate_result(b, p, delta), delta),
        spec_rotate_result(b, spec_rotate_result(b, p, delta), delta) == p,
{
}

/// The first slide distance at or after `k` (of at most 11) at which the
/// pose translated that far east collides, or 12 if none does.
pub open spec fn spec_das_stop_east(b: u64_board, p: TetPiece, k: int) -> int
    decreases 12 - k,
{
    if k < 1 || k > 11 {
        12
    } else if spec_collides(b, spec_translated(p, k, 0)) {
        k
    } else {
        spec_das_stop_east(b, p, k + 1)
    }
}

/// The first slide distance at or after `k` (of at most 11) at which the
/// pose translated that far west collides, or 12 if none does.
pub open spec fn spec_das_stop_west(b: u64_board, p: TetPiece, k: int) -> int
    decreases 12 - k,
{
    if k < 1 || k > 11 {
        12
    } else if spec_collides(b, spec_translated(p, -k, 0)) {
        k
    } else {
        spec_das_stop_west(b, p, k + 1)
    }
}

/// The first drop distance at or after `k` (of at most 22) at which the
/// pose translated that far down collides, or 23 if none does. Distance 0
/// is the starting pose itself.
pub open spec fn spec_das_stop_south(b: u64_board, p: TetPiece, k: int) -> int
    decreases 23 - k,
{
    if k < 0 || k > 22 {
        23
    } else if spec_collides(b, spec_translated(p, 0, -k)) {
        k
    } else {
        spec_das_stop_south(b, p, k + 1)
    }
}

/// Skipping a prefix of non-colliding east slides does not change where
/// the slide stops.
proof fn lemma_das_east_from(b: u64_board, p: TetPiece, m: int)
    requires
        1 <= m <= 12,
        forall|j: int| 1 <= j < m ==> !spec_collides(b, #[trigger] spec_translated(p, j, 0)),
    ensures
        spec_das_stop_east(b, p, 1) == spec_das_stop_east(b, p, m),
    decreases m,
{
    if m > 1 {
        lemma_das_east_from(b, p, m - 1);
    }
}

/// Skipping a prefix of non-colliding west slides does not change where
/// the slide stops.
proof fn lemma_das_west_from(b: u64_board, p: TetPiece, m: int)
    requires
        1 <= m <= 12,
        forall|j: int| 1 <= j < m ==> !spec_collides(b, #[trigger] spec_translated(p, -j, 0)),
    ensures
        spec_das_stop_west(b, p, 1) == spec_das_stop_west(b, p, m),
    decreases m,
{
    if m > 1 {
        lemma_das_west_from(b, p, m - 1);
    }
}

/// Skipping a prefix of non-colliding drops does not change where the
/// drop stops.
proof fn lemma_das_south_from(b: u64_board, p: TetPiece, m: int)
    requires
        0 <= m <= 23,
        forall|j: int| 0 <= j < m ==> !spec_collides(b, #[trigger] spec_translated(p, 0, -j)),
    ensures
        spec_das_stop_south(b, p, 0) == spec_das_stop_south(b, p, m),
    decreases m,
{
    if m > 0 {
        lemma_das_south_from(b, p, m - 1);
    }
}

impl u64_board {
    /// One gravity tick applied to the pose: moved down one row, or kept in
    /// place if that row collides. Never fails; it only no-ops when blocked.
    pub fn apply_gravity(&mut self, piece: &mut TetPiece)
        requires
            coords_within(old(piece).position, 8),
        ensures
            *final(self) == *old(self),
            *final(piece) == spec_gravity(*old(self), *old(piece)),
    {
        let mut test = *piece;
        test.apply_gravity(1);
        proof {
            assert(test == spec_translated(*piece, 0, -1));
        }
        if !self.does_collide(test) {
            *piece = test;
        }
    }

    /// Instantaneous directional auto-shift. East and West step the pose one
    /// cell at a time up to 11 times, stopping just before the first
    /// colliding cell. South scans downward from the pose, checking up to 23
    /// rows, and rests one row above the first colliding one (a pose that
    /// already collides is nudged one row up instead: placement of a
    /// colliding pose is a caller error). North is a no-op.
    pub fn das_piece(&self, piece: &mut TetPiece, direction: Direction)
        requires
            vec_in_range(old(piece).position),
        ensures
            direction == Direction::East ==> *final(piece) == spec_translated(
                *old(piece),
                spec_das_stop_east(*self, *old(piece), 1) - 1,
                0,
            ),
            direction == Direction::East && !spec_collides(*self, *old(piece)) ==> !spec_collides(
                *self,
                *final(piece),
            ),
            direction == Direction::East && spec_das_stop_east(*self, *old(piece), 1) <= 11
                ==> spec_collides(*self, spec_translated(*final(piece), 1, 0)),
            direction == Direction::West ==> *final(piece) == spec_translated(
                *old(piece),
                1 - spec_das_stop_west(*self, *old(piece), 1),
                0,
            ),
            direction == Direction::West && !spec_collides(*self, *old(piece)) ==> !spec_collides(
                *self,
                *final(piece),
            ),
            direction == Direction::West && spec_das_stop_west(*self, *old(piece), 1) <= 11
                ==> spec_collides(*self, spec_translated(*final(piece), -1, 0)),
            direction == Direction::South && spec_das_stop_south(*self, *old(piece), 0) <= 22
                ==> *final(piece) == spec_translated(
                *old(piece),
                0,
                1 - spec_das_stop_south(*self, *old(piece), 0),
            ),
            direction == Direction::South && spec_das_stop_south(*self, *old(piece), 0) == 23
                ==> *final(piece) == spec_translated(*old(piece), 0, -23),
            direction == Direction::South && !spec_collides(*self, *old(piece))
                && spec_das_stop_south(*self, *old(piece), 0) <= 22 ==> !spec_collides(
                *self,
                *final(piece),
            ) && spec_collides(*self, spec_translated(*final(piece), 0, -1)),
            direction == Direction::North ==> *final(piece) == *old(piece),
    {
        match direction {
            Direction::East => {
                let mut steps: i64 = 0;
                let mut blocked = false;
                while steps < 11 && !blocked
                    invariant
                        vec_in_range(old(piece).position),
                        0 <= steps <= 11,
                        *piece == spec_translated(*old(piece), steps as int, 0),
                        forall|m: int|
                            1 <= m <= steps ==> !spec_collides(
                                *self,
                                #[trigger] spec_translated(*old(piece), m, 0),
                            ),
                        blocked ==> steps < 11 && spec_collides(
                            *self,
                            spec_translated(*old(piece), steps + 1, 0),
                        ),
                    decreases 11 - steps + (if blocked {
                        0int
                    } else {
                        1int
                    }),
                {
                    let next = TetPiece {
                        color: piece.color,
                        rotation: piece.rotation,
                        position: Vec2(piece.position.0 + 1, piece.position.1),
                    };
                    proof {
                        lemma_translated_compose(*old(piece), steps as int, 0, 1, 0);
                        assert(next == spec_translated(*old(piece), steps + 1, 0));
                    }
                    if self.does_collide(next) {
                        blocked = true;
                    } else {
                        *piece = next;
                        steps = steps + 1;
                    }
                }
                proof {
                    if blocked {
                        lemma_das_east_from(*self, *old(piece), steps + 1);
                        assert(spec_das_stop_east(*self, *old(piece), 1) == steps + 1);
                    } else {
                        lemma_das_east_from(*self, *old(piece), 12);
                        assert(spec_das_stop_east(*self, *old(piece), 1) == 12);
                    }
                    if !spec_collides(*self, *old(piece)) {
                        lemma_translated_zero(*old(piece));
                    }
                    if spec_das_stop_east(*self, *old(piece), 1) <= 11 {
                        lemma_translated_compose(*old(piece), steps as int, 0, 1, 0);
                    }
                }
            },
            Direction::West => {
                let mut steps: i64 = 0;
                let mut blocked = false;
                while steps < 11 && !blocked
                    invariant
                        vec_in_range(old(piece).position),
                        0 <= steps <= 11,
                        *piece == spec_translated(*old(piece), -steps as int, 0),
                        forall|m: int|
                            1 <= m <= steps ==> !spec_collides(
                                *self,
                                #[trigger] spec_translated(*old(piece), -m, 0),
                            ),
                        blocked ==> steps < 11 && spec_collides(
                            *self,
                            spec_translated(*old(piece), -(steps + 1), 0),
                        ),
                    decreases 11 - steps + (if blocked {
                        0int
                    } else {
                        1int
                    }),
                {
                    let next = TetPiece {
                        color: piece.color,
                        rotation: piece.rotation,
                        position: Vec2(piece.position.0 - 1, piece.position.1),
                    };
                    proof {
                        lemma_translated_compose(*old(piece), -steps as int, 0, -1, 0);
                        assert(next == spec_translated(*old(piece), -(steps + 1), 0));
                    }
                    if self.does_collide(next) {
                        blocked = true;
                    } else {
                        *piece = next;
                        steps = steps + 1;
                    }
                }
                proof {
                    if blocked {
                        lemma_das_west_from(*self, *old(piece), steps + 1);
                        assert(spec_das_stop_west(*self, *old(piece), 1) == steps + 1);
                    } else {
                        lemma_das_west_from(*self, *old(piece), 12);
                        assert(spec_das_stop_west(*self, *old(piece), 1) == 12);
                    }
                    if !spec_collides(*self, *old(piece)) {
                        lemma_translated_zero(*old(piece));
                    }
                    if spec_das_stop_west(*self, *old(piece), 1) <= 11 {
                        lemma_translated_compose(*old(piece), -steps as int, 0, -1, 0);
                    }
                }
            },
            Direction::South => {
                let mut checked: i64 = 0;
                let mut blocked = false;
                while checked < 23 && !blocked
                    invariant
                        vec_in_range(old(piece).position),
                        0 <= checked <= 23,
                        !blocked ==> *piece == spec_translated(*old(piece), 0, -checked as int),
                        forall|m: int|
                            0 <= m < checked ==> !spec_collides(
                                *self,
                                #[trigger] spec_translated(*old(piece), 0, -m),
                            ),
                        blocked ==> checked <= 22 && spec_collides(
                            *self,
                            spec_translated(*old(piece), 0, -checked as int),
                        ) && *piece == spec_translated(*old(piece), 0, 1 - checked as int),
                    decreases 23 - checked + (if blocked {
                        0int
                    } else {
                        1int
                    }),
                {
                    if self.does_collide(*piece) {
                        proof {
                            lemma_translated_compose(*old(piece), 0, -checked as int, 0, 1);
                        }
                        *piece = TetPiece {
                            color: piece.color,
                            rotation: piece.rotation,
                            position: Vec2(piece.position.0, piece.position.1 + 1),
                        };
                        blocked = true;
                    } else {
                        proof {
                            lemma_translated_compose(*old(piece), 0, -checked as int, 0, -1);
                        }
                        *piece = TetPiece {
                            color: piece.color,
                            rotation: piece.rotation,
                            position: Vec2(piece.position.0, piece.position.1 - 1),
                        };
                        checked = checked + 1;
                    }
                }
                proof {
                    if blocked {
                        lemma_das_south_from(*self, *old(piece), checked as int);
                        assert(spec_das_stop_south(*self, *old(piece), 0) == checked);
                    } else {
                        lemma_das_south_from(*self, *old(piece), 23);
                        assert(spec_das_stop_south(*self, *old(piece), 0) == 23);
                    }
                    let s = spec_das_stop_south(*self, *old(piece), 0);
                    lemma_translated_zero(*old(piece));
                    if !spec_collides(*self, *old(piece)) && s <= 22 {
                        assert(s >= 1);
                        assert(blocked && checked == s);
                        assert(!spec_collides(*self, spec_translated(*old(piece), 0, -(s - 1))));
                        assert(spec_translated(*old(piece), 0, -(s - 1)) == spec_translated(
                            *old(piece),
                            0,
                            1 - s,
                        ));
                        lemma_translated_compose(*old(piece), 0, 1 - s, 0, -1);
                        assert(spec_collides(*self, spec_translated(*old(piece), 0, -s)));
                    }
                }
            },
            _ => {},
        }
    }

    /// Resolves a rotation request of `rotation` quarter turns (taken modulo
    /// 4) against this board, kick candidates tried strictly in table order:
    /// the first non-colliding candidate is committed to the pose and the
    /// call reports success; if every candidate collides the pose is left
    /// entirely unmodified and the call reports failure.
    pub fn rotate_piece(&self, piece: &mut TetPiece, rotation: u8) -> (r: bool)
        requires
            coords_within(old(piece).position, 16),
        ensures
            r == spec_rotate_ok(*self, *old(piece), rotation),
            *final(piece) == spec_rotate_result(*self, *old(piece), rotation),
            r ==> !spec_collides(*self, *final(piece)),
            !r ==> *final(piece) == *old(piece),
    {
        let mod_rot = rotation % 4;
        let old_r = piece.rotation.to_int();
        let new_r = (old_r + mod_rot) % 4;
        let new_dir = Direction::from_int(new_r as i64);
        let half = mod_rot == 2;
        let n: u8 = if half {
            2
        } else {
            5
        };
        let mut i: u8 = 0;
        while i < n
            invariant
                coords_within(old(piece).position, 16),
                *piece == *old(piece),
                i <= n,
                n as int == n_cands(rotation),
                half == ((rotation as int) % 4 == 2),
                old_r as int == dir_index(old(piece).rotation),
                new_r as int == (dir_index(old(piece).rotation) + (rotation as int) % 4) % 4,
                new_dir == spec_dir_from_int(new_r as int),
                forall|j: int|
                    0 <= j < i ==> spec_collides(
                        *self,
                        #[trigger] spec_rot_cand(*old(piece), rotation, j),
                    ),
            decreases n - i,
        {
            let o = if half {
                kick180_offset(piece.color, old_r, i)
            } else {
                kick_offset(piece.color, old_r, i)
            };
            let w = if half {
                kick180_offset(piece.color, new_r, i)
            } else {
                kick_offset(piece.color, new_r, i)
            };
            let sx = o.0 - w.0;
            let sy = o.1 - w.1;
            let test = TetPiece {
                color: piece.color,
                rotation: new_dir,
                position: Vec2(piece.position.0 + sx, piece.position.1 + sy),
            };
            proof {
                assert(test == spec_rot_cand(*old(piece), rotation, i as int));
            }
            if !self.does_collide(test) {
                *piece = test;
                proof {
                    lemma_first_pass_from(*self, *old(piece), rotation, i as int);
                    assert(spec_first_pass(*self, *old(piece), rotation, 0) == i as int);
                }
                return true;
            }
            i = i + 1;
        }
        proof {
            lemma_first_pass_from(*self, *old(piece), rotation, n as int);
            assert(spec_first_pass(*self, *old(piece), rotation, 0) == n as int);
        }
        false
    }
}

} // verus!
