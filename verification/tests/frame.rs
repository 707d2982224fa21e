use invaders::frame::{new_frame, Drawable, BLANK};
use invaders::shot::Shot;
use invaders::{NUM_COLS, NUM_ROWS};

#[test]
fn playfield_is_twenty_rows_of_forty_columns() {
    assert_eq!(NUM_ROWS, 20);
    assert_eq!(NUM_COLS, 40);
}

#[test]
fn new_frame_is_blank_everywhere() {
    let frame = new_frame();
    for y in 0..NUM_ROWS {
        for x in 0..NUM_COLS {
            assert_eq!(frame.get(x, y), ' ');
        }
    }
    assert_eq!(BLANK, ' ');
}

#[test]
fn set_changes_one_cell_only() {
    let mut frame = new_frame();
    frame.set(3, 7, 'q');
    for y in 0..NUM_ROWS {
        for x in 0..NUM_COLS {
            let expected = if x == 3 && y == 7 { 'q' } else { ' ' };
            assert_eq!(frame.get(x, y), expected);
        }
    }
}

#[test]
fn set_addresses_column_then_row() {
    let mut frame = new_frame();
    frame.set(39, 0, 'a');
    frame.set(0, 19, 'b');
    assert_eq!(frame.get(39, 0), 'a');
    assert_eq!(frame.get(0, 19), 'b');
    assert_eq!(frame.get(0, 0), ' ');
    assert_eq!(frame.get(39, 19), ' ');
}

#[test]
fn drawing_paints_over_what_is_there() {
    let mut frame = new_frame();
    frame.set(5, 5, 'z');
    let shot = Shot::new(5, 5);
    shot.draw(&mut frame);
    assert_eq!(frame.get(5, 5), '|');
}
