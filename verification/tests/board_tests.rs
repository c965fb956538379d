use atars::board::{Board, PiecePosition};
use atars::moves::Move;
use atars::piece::Piece;
use atars::position::{abs_difference, SquarePosition};

fn at(x: usize, y: usize) -> SquarePosition {
    SquarePosition::new(x, y)
}

fn empty_board() -> Board {
    let mut b = Board::new();
    for pos in b.all_positions() {
        b[pos] = None;
    }
    b
}

#[test]
fn test_get_surrounding() {
    let b = Board::new();
    let s = b.get_surrounding(SquarePosition::new(0, 0));
    assert_eq!(s.len(), 3);

    let s = b.get_surrounding(SquarePosition::new(3, 3));
    assert_eq!(s.len(), 8);

    let s = b.get_surrounding(SquarePosition::new(6, 3));
    assert_eq!(s.len(), 5);
}

#[test]
fn test_majority() {
    let mut b = Board::new();
    assert_eq!(b.majority(), None);

    b[SquarePosition::new(1, 1)] = Some(Piece::Black);
    assert_eq!(b.majority(), Some(Piece::Black));

    b[SquarePosition::new(1, 1)] = Some(Piece::White);
    assert_eq!(b.majority(), Some(Piece::White));
}

#[test]
fn test_move_distance() {
    let from = SquarePosition::new(0, 0);
    let to = SquarePosition::new(1, 2);
    assert_eq!(Move::new(from, to).distance(), 2);
    assert_eq!(Move::new(from, to).distance(), Move::new(to, from).distance());
}

#[test]
fn other_swaps_the_colours() {
    assert_eq!(Piece::White.other(), Piece::Black);
    assert_eq!(Piece::Black.other(), Piece::White);
    assert_eq!(Piece::White.other().other(), Piece::White);
}

#[test]
fn abs_difference_is_unsigned_distance() {
    assert_eq!(abs_difference(2, 6), 4);
    assert_eq!(abs_difference(6, 2), 4);
    assert_eq!(abs_difference(5, 5), 0);
    assert_eq!(abs_difference(0, usize::MAX), usize::MAX);
}

#[test]
fn distance_is_chebyshev() {
    assert_eq!(at(0, 0).distance(&at(6, 6)), 6);
    assert_eq!(at(0, 0).distance(&at(1, 1)), 1);
    assert_eq!(at(3, 3).distance(&at(3, 4)), 1);
    assert_eq!(at(3, 3).distance(&at(5, 4)), 2);
    assert_eq!(at(2, 6).distance(&at(4, 0)), 6);
    assert_eq!(at(4, 1).distance(&at(1, 2)), 3);
}

#[test]
fn distance_is_symmetric_and_zero_on_itself() {
    let b = Board::new();
    let all = b.all_positions();
    for a in all.iter() {
        assert_eq!(a.distance(a), 0);
        for c in all.iter() {
            assert_eq!(a.distance(c), c.distance(a));
            assert_eq!(a.distance(c) == 0, a == c);
        }
    }
}

#[test]
fn positions_know_whether_they_are_on_the_board() {
    assert!(at(0, 0).is_on_board());
    assert!(at(6, 6).is_on_board());
    assert!(!at(7, 0).is_on_board());
    assert!(!at(0, 7).is_on_board());
}

#[test]
fn all_positions_scan_columns_first() {
    let all = Board::new().all_positions();
    assert_eq!(all.len(), 49);
    assert_eq!(all[0], at(0, 0));
    assert_eq!(all[1], at(0, 1));
    assert_eq!(all[6], at(0, 6));
    assert_eq!(all[7], at(1, 0));
    assert_eq!(all[48], at(6, 6));
    for (k, pos) in all.iter().enumerate() {
        assert_eq!(*pos, at(k / 7, k % 7));
    }
}

#[test]
fn initial_layout_has_four_corner_pieces() {
    let b = Board::new();
    assert_eq!(b[at(0, 0)], Some(Piece::Black));
    assert_eq!(b[at(6, 6)], Some(Piece::Black));
    assert_eq!(b[at(0, 6)], Some(Piece::White));
    assert_eq!(b[at(6, 0)], Some(Piece::White));
    assert_eq!(b.count(Piece::White), 2);
    assert_eq!(b.count(Piece::Black), 2);
    assert_eq!(b.blank_positions().len(), 45);
    assert!(!b.is_full());
    assert_eq!(
        b.pieces(),
        vec![
            PiecePosition { pos: at(0, 0), piece: Piece::Black },
            PiecePosition { pos: at(0, 6), piece: Piece::White },
            PiecePosition { pos: at(6, 0), piece: Piece::White },
            PiecePosition { pos: at(6, 6), piece: Piece::Black },
        ]
    );
    for pos in b.all_positions() {
        let corner = (pos.x == 0 || pos.x == 6) && (pos.y == 0 || pos.y == 6);
        assert_eq!(b[pos].is_some(), corner);
    }
}

#[test]
fn surrounding_counts_for_every_square() {
    let b = Board::new();
    for pos in b.all_positions() {
        let end_column = pos.x == 0 || pos.x == 6;
        let end_row = pos.y == 0 || pos.y == 6;
        let expected = if end_column && end_row {
            3
        } else if end_column || end_row {
            5
        } else {
            8
        };
        assert_eq!(b.get_surrounding(pos).len(), expected);
    }
}

#[test]
fn surrounding_is_in_scan_order() {
    let b = Board::new();
    assert_eq!(b.get_surrounding(at(0, 0)), vec![at(0, 1), at(1, 0), at(1, 1)]);
    assert_eq!(
        b.get_surrounding(at(6, 3)),
        vec![at(5, 2), at(5, 3), at(5, 4), at(6, 2), at(6, 4)]
    );
    assert_eq!(
        b.get_surrounding(at(3, 3)),
        vec![at(2, 2), at(2, 3), at(2, 4), at(3, 2), at(3, 4), at(4, 2), at(4, 3), at(4, 4)]
    );
}

#[test]
fn index_reads_what_index_mut_wrote() {
    let mut b = Board::new();
    b[at(2, 5)] = Some(Piece::White);
    assert_eq!(b[at(2, 5)], Some(Piece::White));
    assert_eq!(b[at(5, 2)], None);
    assert_eq!(b.count(Piece::White), 3);
    b[at(2, 5)] = None;
    assert_eq!(b[at(2, 5)], None);
    assert_eq!(b.count(Piece::White), 2);
}

#[test]
fn majority_on_equal_counts_is_none() {
    let mut b = empty_board();
    assert_eq!(b.majority(), None);
    b[at(3, 3)] = Some(Piece::White);
    assert_eq!(b.majority(), Some(Piece::White));
    b[at(3, 4)] = Some(Piece::Black);
    assert_eq!(b.majority(), None);
    b[at(3, 5)] = Some(Piece::Black);
    assert_eq!(b.majority(), Some(Piece::Black));
}

#[test]
fn is_full_only_without_empty_cells() {
    let mut b = Board::new();
    for pos in b.all_positions() {
        b[pos] = Some(Piece::White);
    }
    assert!(b.is_full());
    assert_eq!(b.count(Piece::White), 49);
    assert_eq!(b.count(Piece::Black), 0);
    assert_eq!(b.blank_positions(), vec![]);
    assert_eq!(b.pieces().len(), 49);
    b[at(6, 6)] = None;
    assert!(!b.is_full());
    assert_eq!(b.blank_positions(), vec![at(6, 6)]);
}

#[test]
fn board_move_from_empty_square_fails_and_changes_nothing() {
    let mut b = Board::new();
    let before = b.pieces();
    assert!(!b.perform_move(&Move::new(at(3, 3), at(3, 4))));
    assert_eq!(b.pieces(), before);
}

#[test]
fn board_clone_move_keeps_the_origin() {
    let mut b = Board::new();
    assert!(b.perform_move(&Move::new(at(0, 0), at(1, 1))));
    assert_eq!(b[at(0, 0)], Some(Piece::Black));
    assert_eq!(b[at(1, 1)], Some(Piece::Black));
    assert_eq!(b.count(Piece::Black), 3);
    assert_eq!(b.count(Piece::White), 2);
}

#[test]
fn board_jump_move_empties_the_origin() {
    let mut b = Board::new();
    assert!(b.perform_move(&Move::new(at(0, 0), at(2, 1))));
    assert_eq!(b[at(0, 0)], None);
    assert_eq!(b[at(2, 1)], Some(Piece::Black));
    assert_eq!(b.count(Piece::Black), 2);
}

#[test]
fn board_does_not_judge_the_distance() {
    let mut b = Board::new();
    assert!(b.perform_move(&Move::new(at(0, 0), at(3, 0))));
    assert_eq!(b[at(0, 0)], Some(Piece::Black));
    assert_eq!(b[at(3, 0)], Some(Piece::Black));
    assert_eq!(b.count(Piece::Black), 3);
}

#[test]
fn capture_turns_only_the_immediate_neighbours() {
    let mut b = empty_board();
    b[at(0, 3)] = Some(Piece::White);
    b[at(2, 3)] = Some(Piece::Black);
    b[at(2, 4)] = Some(Piece::Black);
    b[at(3, 3)] = Some(Piece::Black);
    b[at(1, 2)] = Some(Piece::White);
    assert!(b.perform_move(&Move::new(at(0, 3), at(1, 3))));
    assert_eq!(b[at(1, 3)], Some(Piece::White));
    assert_eq!(b[at(0, 3)], Some(Piece::White));
    assert_eq!(b[at(2, 3)], Some(Piece::White));
    assert_eq!(b[at(2, 4)], Some(Piece::White));
    assert_eq!(b[at(1, 2)], Some(Piece::White));
    assert_eq!(b[at(3, 3)], Some(Piece::Black));
    assert_eq!(b.count(Piece::White), 5);
    assert_eq!(b.count(Piece::Black), 1);
}

#[test]
fn turn_surrounding_flips_the_opponent_next_to_a_square() {
    let mut b = empty_board();
    b[at(4, 4)] = Some(Piece::White);
    b[at(5, 5)] = Some(Piece::White);
    b[at(3, 5)] = Some(Piece::Black);
    b[at(6, 4)] = Some(Piece::White);
    b.turn_surrounding(Piece::Black, at(4, 5));
    assert_eq!(b[at(4, 4)], Some(Piece::Black));
    assert_eq!(b[at(5, 5)], Some(Piece::Black));
    assert_eq!(b[at(3, 5)], Some(Piece::Black));
    assert_eq!(b[at(6, 4)], Some(Piece::White));
    assert_eq!(b[at(4, 5)], None);
}

#[test]
fn moves_at_the_start_are_the_six_clones_in_scan_order() {
    let b = Board::new();
    assert_eq!(
        b.get_moves(Piece::White),
        vec![
            Move::new(at(0, 6), at(0, 5)),
            Move::new(at(0, 6), at(1, 5)),
            Move::new(at(0, 6), at(1, 6)),
            Move::new(at(6, 0), at(5, 0)),
            Move::new(at(6, 0), at(5, 1)),
            Move::new(at(6, 0), at(6, 1)),
        ]
    );
    assert_eq!(
        b.get_moves(Piece::Black),
        vec![
            Move::new(at(0, 0), at(0, 1)),
            Move::new(at(0, 0), at(1, 0)),
            Move::new(at(0, 0), at(1, 1)),
            Move::new(at(6, 6), at(5, 5)),
            Move::new(at(6, 6), at(5, 6)),
            Move::new(at(6, 6), at(6, 5)),
        ]
    );
}

#[test]
fn moves_take_the_first_source_of_each_destination() {
    let mut b = empty_board();
    b[at(3, 3)] = Some(Piece::White);
    b[at(3, 5)] = Some(Piece::White);
    b[at(4, 4)] = Some(Piece::White);
    let moves = b.get_moves(Piece::White);
    let onto_3_4: Vec<&Move> = moves.iter().filter(|m| m.to == at(3, 4)).collect();
    assert_eq!(onto_3_4, vec![&Move::new(at(3, 3), at(3, 4))]);
    let onto_4_5: Vec<&Move> = moves.iter().filter(|m| m.to == at(4, 5)).collect();
    assert_eq!(onto_4_5, vec![&Move::new(at(3, 5), at(4, 5))]);
    for m in moves.iter() {
        assert_eq!(m.distance(), 1);
        assert_eq!(b[m.from], Some(Piece::White));
        assert_eq!(b[m.to], None);
    }
    let mut destinations: Vec<SquarePosition> = moves.iter().map(|m| m.to).collect();
    let count = destinations.len();
    destinations.dedup();
    assert_eq!(destinations.len(), count);
}

#[test]
fn moves_never_include_jumps() {
    let mut b = empty_board();
    b[at(3, 3)] = Some(Piece::Black);
    let moves = b.get_moves(Piece::Black);
    assert_eq!(moves.len(), 8);
    assert!(moves.iter().all(|m| m.from == at(3, 3) && m.distance() == 1));
    assert_eq!(b.get_moves(Piece::White), vec![]);
}

#[test]
fn clone_of_a_board_is_independent() {
    let b = Board::new();
    let mut copy = b.clone();
    assert_eq!(copy.pieces(), b.pieces());
    copy[at(3, 3)] = Some(Piece::White);
    assert_eq!(b[at(3, 3)], None);
    assert_eq!(copy[at(3, 3)], Some(Piece::White));
}
