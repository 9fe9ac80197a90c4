use tetcore::pc_utils::u64_board;
use tetcore::piece::{Direction, PieceColor, TetPiece};
use tetcore::vec2::Vec2;

#[test]
fn piece_test() {
    let mut p = TetPiece::new(PieceColor::I, Direction::North, Vec2(4, 21));
    assert_eq!(
        p.get_minos(),
        [Vec2(-1 + 4, 21), Vec2(0 + 4, 21), Vec2(1 + 4, 21), Vec2(2 + 4, 21)]
    );

    p.apply_gravity(1);

    assert_eq!(
        p.get_minos(),
        [Vec2(3, 20), Vec2(4, 20), Vec2(5, 20), Vec2(6, 20)]
    );
    p.rotation = Direction::East;
    assert_eq!(
        p.get_minos(),
        [Vec2(4, 21), Vec2(4, 20), Vec2(4, 19), Vec2(4, 18)]
    );
}

#[test]
fn collision_test() {
    let board = u64_board::new();
    let p = TetPiece::new(PieceColor::I, Direction::North, Vec2(9, 20));
    assert_eq!(board.does_collide(p), true);
}

#[test]
fn das_test() {
    let mut i = TetPiece::new(PieceColor::I, Direction::North, Vec2(4, 20));
    let f = u64_board::new();
    f.das_piece(&mut i, Direction::East);
    f.das_piece(&mut i, Direction::South);
    f.rotate_piece(&mut i, 1);
}

#[test]
fn rotation_test() {
    let mut s = TetPiece::new(PieceColor::S, Direction::North, Vec2(4, 20));
    let standard_s_kick = u64_board::from_4h_array([
        0, 0, 0, 0, 0, 0, 0, 0, 0, 0,
        0, 0, 0, 0, 0, 0, 0, 0, 0, 0,
        8, 8, 8, 8, 8, 0, 0, 8, 8, 8,
        8, 8, 8, 8, 0, 0, 8, 8, 8, 8,
    ]);
    standard_s_kick.rotate_piece(&mut s, 1);
    standard_s_kick.das_piece(&mut s, Direction::South);
    standard_s_kick.rotate_piece(&mut s, 1);
}

#[test]
#[allow(non_snake_case)]
fn piece_color_test() {
    let I = TetPiece::new(PieceColor::I, Direction::North, Vec2(4, 20));
    println!("{:?}", I);
    let L = TetPiece::new(PieceColor::L, Direction::North, Vec2(4, 20));
    println!("{:?}", L);
    let O = TetPiece::new(PieceColor::O, Direction::North, Vec2(4, 20));
    println!("{:?}", O);
    let T = TetPiece::new(PieceColor::T, Direction::North, Vec2(4, 20));
    println!("{:?}", T);
    let J = TetPiece::new(PieceColor::J, Direction::North, Vec2(4, 20));
    println!("{:?}", J);
    let S = TetPiece::new(PieceColor::S, Direction::North, Vec2(4, 20));
    println!("{:?}", S);
    let Z = TetPiece::new(PieceColor::Z, Direction::North, Vec2(4, 20));
    println!("{:?}", Z);
}

#[test]
fn pc_test() {
    let mut board = u64_board::new();
    board.set_tile(4, 2, 1);
    let mut t = TetPiece::new(PieceColor::T, Direction::North, Vec2(0, 0));
    assert_eq!(board.does_collide(t), true);
    t.position.add_assign(Vec2(1, 0));
    assert_eq!(board.does_collide(t), false);
    assert_eq!(board.can_place(t), true);
}
