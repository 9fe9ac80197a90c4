use tetcore::kicks::{kick180_offset, kick_offset};
use tetcore::pc_utils::u64_board;
use tetcore::piece::{piece_color_from_int, piece_color_to_int, Direction, PieceColor, TetPiece};
use tetcore::vec2::Vec2;

#[test]
fn vec2_arithmetic() {
    let a = Vec2(3, -2);
    let b = Vec2(-1, 5);
    assert_eq!(a.add(b), Vec2(2, 3));
    assert_eq!(a.sub(b), Vec2(4, -7));
    assert_eq!(a.mul(3), Vec2(9, -6));
    let mut c = a;
    c.add_assign(b);
    assert_eq!(c, Vec2(2, 3));
    c.sub_assign(b);
    assert_eq!(c, a);
}

#[test]
fn bounds_predicates() {
    let b = u64_board::new();
    assert!(b.in_4h_bounds(Vec2(0, 0)));
    assert!(b.in_4h_bounds(Vec2(9, 3)));
    assert!(!b.in_4h_bounds(Vec2(9, 4)));
    assert!(b.in_6h_bounds(Vec2(9, 5)));
    assert!(!b.in_6h_bounds(Vec2(10, 5)));
    assert!(!b.in_6h_bounds(Vec2(-1, 2)));
    assert!(b.in_bounds(Vec2(9, 23)));
    assert!(!b.in_bounds(Vec2(9, 24)));
}

#[test]
fn set_clear_and_silent_out_of_window_writes() {
    let mut b = u64_board::new();
    b.set_tile(7, 5, 1);
    assert_eq!(b.get_tile(7, 5), 1);
    assert!(b.tile_occupied(7, 5));
    assert!(!b.tile_occupied(6, 5));
    b.clear_tile(7, 5);
    assert_eq!(b.get_tile(7, 5), 0);

    let before = b;
    b.set_tile(10, 0, 1);
    b.set_tile(-1, 2, 1);
    b.set_tile(0, 6, 1);
    b.clear_tile(0, -3);
    assert_eq!(b, before);
}

#[test]
fn color_tag_independent_of_grid() {
    let mut b = u64_board::new();
    b.set_tile(2, 1, 1);
    b.set_piece_color(PieceColor::T);
    assert_eq!(b.get_piece_color(), PieceColor::T);
    assert_eq!(b.get_tile(2, 1), 1);
    b.set_piece_color(PieceColor::G);
    assert_eq!(b.get_piece_color(), PieceColor::G);
    assert_eq!(b.get_tile(2, 1), 1);
    assert_eq!(b.get_tile(0, 0), 0);
}

#[test]
fn color_int_round_trip() {
    for v in 0..9u8 {
        let c = piece_color_from_int(v);
        assert_eq!(piece_color_to_int(c), v);
    }
    assert_eq!(piece_color_from_int(15), PieceColor::B);
}

#[test]
fn direction_round_trip() {
    for v in 0..4i64 {
        let d = Direction::from_int(v);
        assert_eq!(d.to_int() as i64, v);
    }
    assert_eq!(Direction::from_int(6), Direction::South);
}

#[test]
fn array_round_trips() {
    let mut arr = [0u8; 240];
    arr[0] = 9;
    arr[13] = 1;
    arr[59] = 4;
    arr[60] = 7;
    arr[200] = 2;
    let b = u64_board::from_int_array(arr);
    assert_eq!(b.get_tile(0, 0), 1);
    assert_eq!(b.get_tile(3, 1), 1);
    assert_eq!(b.get_tile(9, 5), 1);
    assert_eq!(b.get_tile(1, 1), 0);

    let out = b.as_array();
    assert_eq!(out[0], 1);
    assert_eq!(out[13], 1);
    assert_eq!(out[59], 1);
    assert_eq!(out[1], 0);
    for i in 60..240 {
        assert_eq!(out[i], 0);
    }
    assert_eq!(b.get_tile_array(), out);
}

#[test]
fn tile_matrix_walls_above_window() {
    let mut b = u64_board::new();
    b.set_tile(4, 2, 1);
    let m = b.get_tile_matrix();
    assert_eq!(m[2][4], 1);
    assert_eq!(m[2][5], 0);
    for y in 6..24 {
        for x in 0..10 {
            assert_eq!(m[y][x], 1);
        }
    }
}

#[test]
fn as_board_interop_rows() {
    let mut b = u64_board::new();
    b.set_tile(4, 2, 1);
    let m = b.as_board();
    assert_eq!(m[20][4], 8);
    assert_eq!(m[20][5], 0);
    for y in 0..17 {
        for x in 0..10 {
            assert_eq!(m[y][x], 0);
        }
    }
    assert_eq!(m[23], [0u8; 10]);
}

#[test]
fn kick_table_entries() {
    assert_eq!(kick_offset(PieceColor::T, 0, 0), (0, 0));
    assert_eq!(kick_offset(PieceColor::T, 1, 2), (1, -1));
    assert_eq!(kick_offset(PieceColor::T, 3, 4), (-1, 2));
    assert_eq!(kick_offset(PieceColor::I, 0, 2), (2, 0));
    assert_eq!(kick_offset(PieceColor::I, 2, 2), (-2, 1));
    assert_eq!(kick_offset(PieceColor::O, 2, 3), (-1, -1));
    assert_eq!(kick180_offset(PieceColor::S, 0, 0), (0, 0));
    assert_eq!(kick180_offset(PieceColor::S, 0, 1), (0, 1));
    assert_eq!(kick180_offset(PieceColor::S, 1, 1), (1, 0));
    assert_eq!(kick180_offset(PieceColor::S, 2, 1), (0, 0));
}

#[test]
fn quarter_turn_uses_first_free_candidate() {
    // On an open board the zero-offset candidate is free, so a quarter turn
    // rotates in place.
    let board = u64_board::new();
    let mut t = TetPiece::new(PieceColor::T, Direction::North, Vec2(4, 2));
    assert!(board.rotate_piece(&mut t, 1));
    assert_eq!(t.rotation, Direction::East);
    assert_eq!(t.position, Vec2(4, 2));
    // Three more quarter turns return to the spawn orientation.
    assert!(board.rotate_piece(&mut t, 1));
    assert!(board.rotate_piece(&mut t, 1));
    assert!(board.rotate_piece(&mut t, 1));
    assert_eq!(t.rotation, Direction::North);
    assert_eq!(t.position, Vec2(4, 2));
}

#[test]
fn deep_position_guard_collides() {
    let board = u64_board::new();
    let p = TetPiece::new(PieceColor::O, Direction::North, Vec2(4, 7));
    assert!(board.does_collide(p));
    assert!(!board.can_place(p));
}
