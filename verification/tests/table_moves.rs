use training_mod_tui_2::{StatefulTable, TableError, TableState};

fn five_in_two_by_three() -> StatefulTable<u8> {
    StatefulTable::with_items(2, 3, vec![0, 1, 2, 3, 4]).unwrap()
}

fn at(row: usize, column: usize) -> StatefulTable<u8> {
    let mut t = five_in_two_by_three();
    t.select(row, column).unwrap();
    t
}

#[test]
fn with_items_fills_row_by_row() {
    let t = five_in_two_by_three();
    assert_eq!(
        t.items,
        vec![vec![Some(0), Some(1), Some(2)], vec![Some(3), Some(4), None]]
    );
    assert_eq!(t.state, TableState::new());
    assert_eq!(t.rows(), 2);
    assert_eq!(t.cols(), 3);
}

#[test]
fn with_items_takes_exactly_as_many_as_fit() {
    let t = StatefulTable::with_items(2, 3, vec![5u8, 6, 7, 8, 9, 10]).unwrap();
    assert_eq!(t.len(), 6);
    assert_eq!(t.full_len(), 6);
    assert_eq!(t.as_vec(), vec![5, 6, 7, 8, 9, 10]);
}

#[test]
fn with_items_refuses_one_too_many() {
    let r = StatefulTable::with_items(2, 3, vec![0u8, 1, 2, 3, 4, 5, 6]);
    assert_eq!(r, Err(TableError::Capacity));
}

#[test]
fn as_vec_gives_back_what_went_in() {
    let items: Vec<u8> = vec![9, 8, 7, 6];
    let t = StatefulTable::with_items(3, 2, items.clone()).unwrap();
    assert_eq!(t.as_vec(), items);
    assert_eq!(t.as_vec().len(), t.len());
    assert_eq!(t.len(), 4);
    assert_eq!(t.full_len(), 6);
}

#[test]
fn empty_table_holds_nothing() {
    let t: StatefulTable<u8> = StatefulTable::new(2, 3);
    assert_eq!(t.len(), 0);
    assert_eq!(t.full_len(), 6);
    assert_eq!(t.as_vec(), Vec::<u8>::new());
    assert_eq!(t.get_selected(), None);
    assert_eq!(t.get_by_idx(0), None);
}

#[test]
fn select_refuses_coordinates_outside() {
    let mut t = at(1, 1);
    assert_eq!(t.select(2, 0), Err(TableError::OutOfBounds));
    assert_eq!(t.state, TableState::new_with(1, 1));
    assert_eq!(t.select(0, 3), Err(TableError::OutOfBounds));
    assert_eq!(t.state, TableState::new_with(1, 1));
    assert_eq!(t.select(0, 2), Ok(()));
    assert_eq!(t.state, TableState::new_with(0, 2));
}

#[test]
fn get_does_not_tell_outside_from_empty() {
    let t = five_in_two_by_three();
    assert_eq!(t.get(1, 2), None);
    assert_eq!(t.get(2, 0), None);
    assert_eq!(t.get(0, 3), None);
}

#[test]
fn next_row_wraps() {
    let mut t = at(0, 2);
    t.next_row();
    assert_eq!(t.state, TableState::new_with(1, 2));
    assert_eq!(t.get_selected(), None);
    t.next_row();
    assert_eq!(t.state, TableState::new_with(0, 2));
}

#[test]
fn prev_row_wraps() {
    let mut t = StatefulTable::with_items(3, 1, vec![10u8, 11, 12]).unwrap();
    t.prev_row();
    assert_eq!(t.state, TableState::new_with(2, 0));
    t.prev_row();
    assert_eq!(t.state, TableState::new_with(1, 0));
    t.prev_row();
    assert_eq!(t.state, TableState::new_with(0, 0));
}

#[test]
fn as_many_moves_as_rows_or_columns_come_back() {
    for row in 0..2 {
        for column in 0..3 {
            let start = at(row, column);
            let mut t = start.clone();
            for _ in 0..3 {
                t.next_col();
            }
            assert_eq!(t, start);
            for _ in 0..3 {
                t.prev_col();
            }
            assert_eq!(t, start);
            for _ in 0..2 {
                t.next_row();
            }
            assert_eq!(t, start);
            for _ in 0..2 {
                t.prev_row();
            }
            assert_eq!(t, start);
        }
    }
}

#[test]
fn a_move_back_undoes_a_move() {
    for row in 0..2 {
        for column in 0..3 {
            let start = at(row, column);
            let mut t = start.clone();
            t.next_col();
            t.prev_col();
            assert_eq!(t, start);
            t.prev_col();
            t.next_col();
            assert_eq!(t, start);
            t.next_row();
            t.prev_row();
            assert_eq!(t, start);
            t.prev_row();
            t.next_row();
            assert_eq!(t, start);
        }
    }
}

#[test]
fn next_row_checked_skips_the_hole() {
    // Column 2 holds an item in row 0 only.
    let mut t = at(0, 2);
    assert_eq!(t.next_row_checked(), Ok(()));
    assert_eq!(t.state, TableState::new_with(0, 2));
    // Column 1 holds an item in both rows.
    let mut t = at(0, 1);
    assert_eq!(t.next_row_checked(), Ok(()));
    assert_eq!(t.state, TableState::new_with(1, 1));
    assert_eq!(t.next_row_checked(), Ok(()));
    assert_eq!(t.state, TableState::new_with(0, 1));
}

#[test]
fn prev_row_checked_skips_the_holes() {
    let mut t = StatefulTable::with_items(4, 2, vec![0u8, 1, 2]).unwrap();
    // Column 1 holds an item in row 0 only, column 0 in rows 0 and 1.
    assert_eq!(t.prev_row_checked(), Ok(()));
    assert_eq!(t.state, TableState::new_with(1, 0));
    assert_eq!(t.prev_row_checked(), Ok(()));
    assert_eq!(t.state, TableState::new_with(0, 0));
    t.select(3, 1).unwrap();
    assert_eq!(t.prev_row_checked(), Ok(()));
    assert_eq!(t.state, TableState::new_with(0, 1));
    assert_eq!(t.prev_row_checked(), Ok(()));
    assert_eq!(t.state, TableState::new_with(0, 1));
}

#[test]
fn next_row_checked_from_a_hole_finds_the_first_row() {
    let mut t = StatefulTable::with_items(4, 2, vec![0u8, 1, 2]).unwrap();
    t.select(2, 0).unwrap();
    assert_eq!(t.next_row_checked(), Ok(()));
    assert_eq!(t.state, TableState::new_with(0, 0));
}

#[test]
fn checked_row_moves_fail_in_an_empty_column() {
    let mut t = StatefulTable::with_items(2, 3, vec![0u8, 1]).unwrap();
    t.select(1, 2).unwrap();
    assert_eq!(t.next_row_checked(), Err(TableError::NoOccupiedRow));
    assert_eq!(t.state, TableState::new_with(1, 2));
    assert_eq!(t.prev_row_checked(), Err(TableError::NoOccupiedRow));
    assert_eq!(t.state, TableState::new_with(1, 2));
}

#[test]
fn checked_moves_on_an_empty_table() {
    let mut t: StatefulTable<u8> = StatefulTable::new(2, 2);
    assert_eq!(t.next_row_checked(), Err(TableError::NoOccupiedRow));
    assert_eq!(t.prev_row_checked(), Err(TableError::NoOccupiedRow));
    assert_eq!(t.carriage_return(), Err(TableError::EmptyRow));
    assert_eq!(t.state, TableState::new());
    assert_eq!(t.prev_col_checked(), Err(TableError::EmptyRow));
    assert_eq!(t.state, TableState::new_with(0, 1));
    t.next_col_checked();
    assert_eq!(t.state, TableState::new_with(0, 0));
}

#[test]
fn hole_unchecked_and_checked() {
    let mut t = at(1, 1);
    t.next_col();
    assert_eq!(t.state, TableState::new_with(1, 2));
    assert_eq!(t.get_selected(), None);
    let mut t = at(1, 1);
    t.next_col_checked();
    assert_eq!(t.state, TableState::new_with(1, 0));
    assert_eq!(t.get_selected(), Some(&3));
}

#[test]
fn prev_col_checked_short() {
    let mut t = at(1, 0);
    assert_eq!(t.prev_col_checked(), Ok(()));
    assert_eq!(t.state, TableState::new_with(1, 1));
    assert_eq!(t.get_selected(), Some(&4));
    assert_eq!(t.prev_col_checked(), Ok(()));
    assert_eq!(t.get_selected(), Some(&3));
}

#[test]
fn carriage_return_crosses_several_holes() {
    let mut t = StatefulTable::with_items(2, 4, vec![0u8, 1, 2, 3, 4]).unwrap();
    t.select(1, 3).unwrap();
    assert_eq!(t.carriage_return(), Ok(()));
    assert_eq!(t.state, TableState::new_with(1, 0));
}

#[test]
fn carriage_return_fails_in_an_empty_row() {
    let mut t = StatefulTable::with_items(2, 3, vec![0u8, 1]).unwrap();
    t.select(1, 1).unwrap();
    assert_eq!(t.carriage_return(), Err(TableError::EmptyRow));
    assert_eq!(t.state, TableState::new_with(1, 1));
}

#[test]
fn checked_moves_never_land_on_a_hole() {
    for n in 1..=6u8 {
        let items: Vec<u8> = (0..n).collect();
        for row in 0..2 {
            for column in 0..3 {
                let mut start = StatefulTable::with_items(2, 3, items.clone()).unwrap();
                start.select(row, column).unwrap();
                let row_holds = start.get(row, 0).is_some();
                let column_holds = start.get(0, column).is_some();

                let mut t = start.clone();
                assert_eq!(t.next_row_checked().is_ok(), column_holds);
                assert!(!column_holds || t.get_selected().is_some());

                let mut t = start.clone();
                assert_eq!(t.prev_row_checked().is_ok(), column_holds);
                assert!(!column_holds || t.get_selected().is_some());

                let mut t = start.clone();
                t.next_col_checked();
                assert!(!row_holds || t.get_selected().is_some());

                let mut t = start.clone();
                assert_eq!(t.prev_col_checked().is_ok(), row_holds);
                assert!(!row_holds || t.get_selected().is_some());

                let mut t = start.clone();
                assert_eq!(t.carriage_return().is_ok(), row_holds);
                assert!(!row_holds || t.get_selected().is_some());
            }
        }
    }
}

#[test]
fn items_can_be_changed_in_place() {
    let mut t = at(1, 1);
    *t.get_selected_mut().unwrap() = 40;
    *t.get_mut(0, 2).unwrap() = 20;
    *t.get_by_idx_mut(3).unwrap() = 30;
    assert_eq!(t.as_vec(), vec![0, 1, 20, 30, 40]);
    assert!(t.get_mut(1, 2).is_none());
    assert!(t.get_mut(2, 0).is_none());
    assert!(t.get_by_idx_mut(5).is_none());
    assert!(t.get_by_idx_mut(6).is_none());
    t.select(1, 2).unwrap();
    assert!(t.get_selected_mut().is_none());
    assert_eq!(t.as_vec(), vec![0, 1, 20, 30, 40]);
}

#[test]
fn table_state_constructors() {
    assert_eq!(TableState::new(), TableState { row: 0, column: 0 });
    assert_eq!(TableState::new_with(3, 4), TableState { row: 3, column: 4 });
}
