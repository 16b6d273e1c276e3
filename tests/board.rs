use connect_four::board::{column_from_choice, Board, Player, HEIGHT, WIDTH};

fn drop_all(b: &mut Board, moves: &[(usize, Player)]) {
    for &(x, p) in moves {
        assert!(b.place(x, p).is_some());
    }
}

#[test]
fn new_board_is_empty() {
    let b = Board::new();
    for x in 0..WIDTH {
        assert!(b.in_bounds(x));
        assert_eq!(b.get_y(x), HEIGHT - 1);
        for y in 0..HEIGHT {
            assert_eq!(b.cell(x, y), None);
        }
    }
    assert!(!b.is_full());
    let d = Board::default();
    assert_eq!(d.iter(), b.iter());
}

#[test]
fn drop_lands_on_bottom_then_stacks() {
    let mut b = Board::new();
    assert_eq!(b.place(3, Player::First), Some(5));
    assert_eq!(b.cell(3, 5), Some(Player::First));
    assert_eq!(b.get_y(3), 4);
    assert_eq!(b.place(3, Player::Second), Some(4));
    assert_eq!(b.cell(3, 4), Some(Player::Second));
    assert_eq!(b.cell(3, 5), Some(Player::First));
    assert_eq!(b.cell(2, 5), None);
}

#[test]
fn full_column_refuses_a_piece() {
    let mut b = Board::new();
    for i in 0..HEIGHT {
        let p = if i % 2 == 0 { Player::First } else { Player::Second };
        assert_eq!(b.place(0, p), Some(HEIGHT - 1 - i));
    }
    assert!(!b.in_bounds(0));
    assert!(b.in_bounds(1));
    let before = b.iter();
    assert_eq!(b.place(0, Player::First), None);
    assert_eq!(b.iter(), before);
    assert!(!b.is_full());
}

#[test]
fn in_bounds_matches_top_cell() {
    let mut b = Board::new();
    for i in 0..HEIGHT {
        assert_eq!(b.in_bounds(2), b.cell(2, 0).is_none());
        b.place(2, if i % 3 == 0 { Player::Second } else { Player::First });
    }
    assert_eq!(b.in_bounds(2), b.cell(2, 0).is_none());
    assert!(!b.in_bounds(2));
}

#[test]
fn no_floating_pieces_after_drops() {
    let mut b = Board::new();
    let moves = [3, 3, 4, 0, 6, 3, 4, 4, 1, 3, 3, 3, 5, 0];
    for (i, &x) in moves.iter().enumerate() {
        let p = if i % 2 == 0 { Player::First } else { Player::Second };
        b.place(x, p);
        for c in 0..WIDTH {
            for y in 1..HEIGHT {
                if b.cell(c, y - 1).is_some() {
                    assert!(b.cell(c, y).is_some());
                }
            }
        }
    }
}

#[test]
fn horizontal_win_on_bottom_row() {
    let mut b = Board::new();
    drop_all(&mut b, &[(0, Player::First), (1, Player::First), (2, Player::First)]);
    for x in 0..3 {
        assert!(!b.has_won(x));
    }
    drop_all(&mut b, &[(3, Player::First)]);
    for x in 0..4 {
        assert!(b.has_won(x));
    }
}

#[test]
fn vertical_win() {
    let mut b = Board::new();
    drop_all(&mut b, &[(4, Player::Second), (4, Player::Second), (4, Player::Second)]);
    assert!(!b.has_won(4));
    drop_all(&mut b, &[(4, Player::Second)]);
    assert!(b.has_won(4));
}

#[test]
fn ascending_diagonal_win() {
    let mut b = Board::new();
    drop_all(
        &mut b,
        &[
            (0, Player::First),
            (1, Player::Second),
            (1, Player::First),
            (2, Player::Second),
            (2, Player::Second),
            (2, Player::First),
            (3, Player::Second),
            (3, Player::Second),
            (3, Player::Second),
        ],
    );
    assert!(!b.has_won(2));
    assert_eq!(b.place(3, Player::First), Some(2));
    assert_eq!(b.cell(0, 5), Some(Player::First));
    assert_eq!(b.cell(1, 4), Some(Player::First));
    assert_eq!(b.cell(2, 3), Some(Player::First));
    assert!(b.has_won(3));
    assert!(b.has_won(0));
}

#[test]
fn descending_diagonal_win() {
    let mut b = Board::new();
    drop_all(
        &mut b,
        &[
            (6, Player::First),
            (5, Player::Second),
            (5, Player::First),
            (4, Player::Second),
            (4, Player::Second),
            (4, Player::First),
            (3, Player::Second),
            (3, Player::Second),
            (3, Player::Second),
        ],
    );
    assert!(!b.has_won(4));
    assert_eq!(b.place(3, Player::First), Some(2));
    assert_eq!(b.cell(6, 5), Some(Player::First));
    assert_eq!(b.cell(5, 4), Some(Player::First));
    assert_eq!(b.cell(4, 3), Some(Player::First));
    assert!(b.has_won(3));
    assert!(b.has_won(6));
}

#[test]
fn full_board_without_four_in_a_row() {
    let mut b = Board::new();
    for x in 0..WIDTH {
        for y in (0..HEIGHT).rev() {
            let p = if (y / 3 + x) % 2 == 0 { Player::First } else { Player::Second };
            assert!(!b.is_full());
            assert_eq!(b.place(x, p), Some(y));
        }
    }
    assert!(b.is_full());
    for x in 0..WIDTH {
        assert!(!b.in_bounds(x));
        assert!(!b.has_won(x));
    }
}

#[test]
fn windows_do_not_run_off_the_board() {
    let mut b = Board::new();
    // three in a row against the right edge
    drop_all(&mut b, &[(4, Player::First), (5, Player::First), (6, Player::First)]);
    assert!(!b.has_won(6));
    // pieces that would line up if a column ran on into the next one
    drop_all(&mut b, &[(0, Player::First), (0, Player::First)]);
    drop_all(
        &mut b,
        &[
            (1, Player::Second),
            (1, Player::Second),
            (1, Player::First),
            (1, Player::Second),
            (1, Player::First),
            (1, Player::First),
        ],
    );
    assert!(!b.has_won(1));
    assert!(!b.has_won(0));
}

#[test]
fn broken_line_does_not_win() {
    let mut b = Board::new();
    drop_all(&mut b, &[(0, Player::First), (1, Player::First), (2, Player::Second), (3, Player::First)]);
    assert!(!b.has_won(3));
    assert!(!b.has_won(1));
}

#[test]
fn iter_gives_columns_top_to_bottom() {
    let mut b = Board::new();
    drop_all(&mut b, &[(6, Player::Second), (6, Player::First), (0, Player::First)]);
    let cols = b.iter();
    assert_eq!(cols.len(), WIDTH);
    assert_eq!(cols[6], vec![None, None, None, None, Some(Player::First), Some(Player::Second)]);
    assert_eq!(cols[0][HEIGHT - 1], Some(Player::First));
    assert!(cols[3].iter().all(|c| c.is_none()));
}

#[test]
fn choice_to_column() {
    assert_eq!(column_from_choice(0), None);
    assert_eq!(column_from_choice(1), Some(0));
    assert_eq!(column_from_choice(4), Some(3));
    assert_eq!(column_from_choice(WIDTH), Some(WIDTH - 1));
    assert_eq!(column_from_choice(WIDTH + 1), None);
}

#[test]
fn players_alternate() {
    assert_eq!(Player::First.other(), Player::Second);
    assert_eq!(Player::Second.other(), Player::First);
}
