use tetcore::pc_utils::u64_board;
use tetcore::piece::{Direction, PieceColor, TetPiece};
use tetcore::vec2::Vec2;

#[test]
fn round_trip_4h_array() {
    let arr: [u8; 40] = [
        8, 8, 0, 0, 0, 0, 0, 8, 8, 8,
        8, 8, 8, 0, 0, 0, 0, 8, 8, 8,
        8, 8, 8, 8, 0, 0, 0, 8, 8, 8,
        8, 8, 8, 0, 0, 0, 0, 8, 8, 8,
    ];
    let b = u64_board::from_4h_array(arr);
    for y in 0..4i64 {
        for x in 0..10i64 {
            let expected = if arr[(x + 10 * y) as usize] != 0 { 1 } else { 0 };
            assert_eq!(b.get_tile(x, y), expected);
        }
    }
    for x in 0..10i64 {
        assert_eq!(b.get_tile(x, 4), 0);
        assert_eq!(b.get_tile(x, 5), 0);
    }
}

#[test]
fn wall_invariant() {
    let empty = u64_board::new();
    let mut filled = u64_board::new();
    filled.set_tile(3, 3, 1);
    for b in [empty, filled] {
        assert_eq!(b.get_tile(-1, 0), 1);
        assert_eq!(b.get_tile(10, 0), 1);
        assert_eq!(b.get_tile(0, 6), 1);
        assert_eq!(b.get_tile(0, -1), 1);
        assert_eq!(b.get_tile(-100, 3), 1);
        assert_eq!(b.get_tile(5, 100), 1);
        assert_eq!(b.get_tile(12, -7), 1);
    }
}

#[test]
fn collision_monotone() {
    let board = u64_board::new();
    // An I piece hanging over the east wall collides, and sliding it
    // further east can never free it.
    let p = TetPiece::new(PieceColor::I, Direction::North, Vec2(9, 0));
    assert!(board.does_collide(p));
    for d in 0..5i64 {
        let mut q = p;
        q.position.add_assign(Vec2(d, 0));
        assert!(board.does_collide(q));
    }
    // The same holds below the floor, moving further down.
    let f = TetPiece::new(PieceColor::I, Direction::North, Vec2(4, -1));
    assert!(board.does_collide(f));
    for d in 0..5i64 {
        let mut q = f;
        q.position.sub_assign(Vec2(0, d));
        assert!(board.does_collide(q));
    }
}

#[test]
fn gravity_idempotent_on_floor() {
    let mut board = u64_board::new();
    let mut p = TetPiece::new(PieceColor::I, Direction::North, Vec2(4, 0));
    assert!(!board.does_collide(p));
    assert!(board.can_place(p));
    for _ in 0..3 {
        board.apply_gravity(&mut p);
        assert_eq!(p.position, Vec2(4, 0));
    }
}

#[test]
fn gravity_single_step() {
    let mut board = u64_board::new();
    let mut p = TetPiece::new(PieceColor::T, Direction::North, Vec2(4, 3));
    board.apply_gravity(&mut p);
    assert_eq!(p.position, Vec2(4, 2));
}

#[test]
fn rotation_deterministic() {
    // A crowded board on which the requested rotation fails: the pose must
    // stay untouched and a second identical request must fail identically.
    let blocked = u64_board::from_int_array([1; 240]);
    let p = TetPiece::new(PieceColor::T, Direction::North, Vec2(4, 2));
    let mut first = p;
    let mut second = p;
    assert!(!blocked.rotate_piece(&mut first, 1));
    assert_eq!(first, p);
    assert!(!blocked.rotate_piece(&mut second, 1));
    assert_eq!(second, p);
    // A succeeding rotation gives the same answer both times it is run
    // from the same pose on the same board.
    let open_board = u64_board::new();
    let mut a = TetPiece::new(PieceColor::T, Direction::North, Vec2(4, 2));
    let mut b = TetPiece::new(PieceColor::T, Direction::North, Vec2(4, 2));
    assert!(open_board.rotate_piece(&mut a, 1));
    assert!(open_board.rotate_piece(&mut b, 1));
    assert_eq!(a, b);
}

#[test]
fn das_east_reaches_wall() {
    let board = u64_board::new();
    let mut p = TetPiece::new(PieceColor::I, Direction::North, Vec2(4, 2));
    board.das_piece(&mut p, Direction::East);
    // The rightmost mino sits on column 9, no part past it.
    assert_eq!(p.position, Vec2(7, 2));
    let minos = p.get_minos();
    for m in minos {
        assert!(m.0 <= 9);
    }
    assert_eq!(minos[3], Vec2(9, 2));
}

#[test]
fn das_south_rests_on_floor() {
    let board = u64_board::new();
    let mut p = TetPiece::new(PieceColor::I, Direction::North, Vec2(4, 2));
    board.das_piece(&mut p, Direction::South);
    // The lowest representable row of the window, with a meaningful lock.
    assert_eq!(p.position, Vec2(4, 0));
    assert!(board.can_place(p));
}

#[test]
fn das_south_lands_on_first_obstruction() {
    // The southward scan rests on the first obstruction below the pose,
    // never tunneling into free rows further down.
    let mut board = u64_board::new();
    board.set_tile(4, 1, 1);
    let mut p = TetPiece::new(PieceColor::O, Direction::North, Vec2(4, 4));
    board.das_piece(&mut p, Direction::South);
    assert_eq!(p.position, Vec2(4, 2));
    assert!(board.can_place(p));
    // A pose that already collides is nudged one row up and left there.
    let mut q = TetPiece::new(PieceColor::O, Direction::North, Vec2(4, 1));
    assert!(board.does_collide(q));
    board.das_piece(&mut q, Direction::South);
    assert_eq!(q.position, Vec2(4, 2));
}

#[test]
fn das_west_reaches_wall() {
    let board = u64_board::new();
    let mut p = TetPiece::new(PieceColor::I, Direction::North, Vec2(4, 2));
    board.das_piece(&mut p, Direction::West);
    // The leftmost mino sits on column 0.
    assert_eq!(p.position, Vec2(1, 2));
    assert_eq!(p.get_minos()[0], Vec2(0, 2));
}

#[test]
fn das_north_is_noop() {
    let board = u64_board::new();
    let mut p = TetPiece::new(PieceColor::I, Direction::North, Vec2(4, 2));
    board.das_piece(&mut p, Direction::North);
    assert_eq!(p, TetPiece::new(PieceColor::I, Direction::North, Vec2(4, 2)));
}

#[test]
fn half_turn_kick_example() {
    // An S piece blocked so the naive half turn collides but the second
    // candidate (one cell up) does not: the resolver must pick it.
    let mut board = u64_board::new();
    board.set_tile(4, 0, 1);
    let mut s = TetPiece::new(PieceColor::S, Direction::North, Vec2(4, 1));
    assert!(!board.does_collide(s));
    assert!(board.rotate_piece(&mut s, 2));
    assert_eq!(s.rotation, Direction::South);
    assert_eq!(s.position, Vec2(4, 2));
}

#[test]
fn half_turn_kick_failure_leaves_pose() {
    // A T piece blocked on both half-turn candidates: the call must fail
    // and the pose must be exactly unchanged.
    let mut board = u64_board::new();
    board.set_tile(4, 0, 1);
    board.set_tile(3, 2, 1);
    let t = TetPiece::new(PieceColor::T, Direction::North, Vec2(4, 1));
    let mut probe = t;
    assert!(!board.does_collide(probe));
    assert!(!board.rotate_piece(&mut probe, 2));
    assert_eq!(probe, t);
}
