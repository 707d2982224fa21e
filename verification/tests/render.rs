use invaders::frame::new_frame;
use invaders::render::{diff, hud_text, render, PaintOp, Screen, HUD_X, HUD_Y};

/// The operations that write `text` from column 45 of row 4 on.
fn written(text: &str) -> Vec<PaintOp> {
    let mut ops = Vec::new();
    let mut x: u16 = 45;
    for glyph in text.chars() {
        ops.push(PaintOp::Put { x, y: 4, glyph });
        x += 1;
    }
    ops
}

/// The operations of the ammo line with the given text.
fn ammo_line(text: &str) -> Vec<PaintOp> {
    let mut ops = vec![PaintOp::ClearLine { x: 45, y: 4 }];
    ops.extend(written(text));
    ops
}

fn text_of(glyphs: Vec<char>) -> String {
    glyphs.into_iter().collect()
}

#[test]
fn ammo_line_lies_right_of_the_playfield() {
    assert_eq!(HUD_X, 45);
    assert_eq!(HUD_Y, 4);
}

#[test]
fn hud_text_shows_rounds_left_of_the_most() {
    assert_eq!(text_of(hud_text(5)), "ammo: 5 / 5");
    assert_eq!(text_of(hud_text(3)), "ammo: 3 / 5");
    assert_eq!(text_of(hud_text(0)), "ammo: 0 / 5");
}

#[test]
fn hud_text_writes_every_digit() {
    assert_eq!(text_of(hud_text(10)), "ammo: 10 / 5");
    assert_eq!(text_of(hud_text(907)), "ammo: 907 / 5");
    assert_eq!(text_of(hud_text(4_294_967_295)), "ammo: 4294967295 / 5");
}

#[test]
fn frame_against_itself_paints_no_cell() {
    let mut frame = new_frame();
    frame.set(1, 1, 'x');
    frame.set(20, 19, 'A');
    assert_eq!(diff(&frame, &frame, false), vec![]);
    let blank = new_frame();
    assert_eq!(diff(&blank, &blank, false), vec![]);
}

#[test]
fn forced_diff_paints_every_cell_in_order() {
    let previous = new_frame();
    let mut current = new_frame();
    current.set(3, 0, 'x');
    current.set(39, 19, 'A');
    let ops = diff(&previous, &current, true);
    assert_eq!(ops.len(), 20 * 40);
    for y in 0..20usize {
        for x in 0..40usize {
            let glyph = current.get(x, y);
            assert_eq!(ops[y * 40 + x], PaintOp::Put { x: x as u16, y: y as u16, glyph });
        }
    }
    assert_eq!(ops[3], PaintOp::Put { x: 3, y: 0, glyph: 'x' });
    assert_eq!(ops[799], PaintOp::Put { x: 39, y: 19, glyph: 'A' });
    assert_eq!(diff(&current, &current, true).len(), 800);
}

#[test]
fn diff_paints_the_cells_that_changed() {
    let mut previous = new_frame();
    previous.set(5, 2, 'x');
    previous.set(20, 19, 'A');
    previous.set(7, 7, '|');
    let mut current = new_frame();
    current.set(6, 2, 'x');
    current.set(20, 19, 'A');
    current.set(7, 7, '*');
    current.set(0, 0, '|');
    assert_eq!(
        diff(&previous, &current, false),
        vec![
            PaintOp::Put { x: 0, y: 0, glyph: '|' },
            PaintOp::Put { x: 5, y: 2, glyph: ' ' },
            PaintOp::Put { x: 6, y: 2, glyph: 'x' },
            PaintOp::Put { x: 7, y: 7, glyph: '*' },
        ]
    );
}

#[test]
fn render_without_change_paints_the_ammo_line_only() {
    let frame = new_frame();
    assert_eq!(render(&frame, &frame, 4, false), ammo_line("ammo: 4 / 5"));
}

#[test]
fn render_paints_changes_and_then_the_ammo_line() {
    let previous = new_frame();
    let mut current = new_frame();
    current.set(9, 3, 'x');
    let mut expected = vec![PaintOp::Put { x: 9, y: 3, glyph: 'x' }];
    expected.extend(ammo_line("ammo: 0 / 5"));
    assert_eq!(render(&previous, &current, 0, false), expected);
}

#[test]
fn forced_render_clears_the_screen_first() {
    let previous = new_frame();
    let mut current = new_frame();
    current.set(9, 3, 'x');
    let ops = render(&previous, &current, 5, true);
    assert_eq!(ops.len(), 1 + 800 + 1 + 11);
    assert_eq!(ops[0], PaintOp::ClearAll);
    assert_eq!(ops[1], PaintOp::Put { x: 0, y: 0, glyph: ' ' });
    assert_eq!(ops[1 + 3 * 40 + 9], PaintOp::Put { x: 9, y: 3, glyph: 'x' });
    assert_eq!(ops[800], PaintOp::Put { x: 39, y: 19, glyph: ' ' });
    assert_eq!(ops[801..].to_vec(), ammo_line("ammo: 5 / 5"));
}

#[test]
fn render_is_a_function_of_its_arguments() {
    let previous = new_frame();
    let mut current = new_frame();
    current.set(1, 2, '+');
    let first = render(&previous, &current, 2, false);
    let second = render(&previous, &current, 2, false);
    assert_eq!(first, second);
    assert_eq!(render(&previous, &current, 2, true), render(&previous, &current, 2, true));
}

#[test]
fn screen_opens_with_a_forced_repaint_of_the_blank_frame() {
    let blank = new_frame();
    let (_screen, ops) = Screen::new();
    assert_eq!(ops, render(&blank, &blank, 5, true));
    assert_eq!(ops.len(), 813);
}

#[test]
fn screen_compares_with_the_frame_shown_last() {
    let (mut screen, _) = Screen::new();
    let mut first = new_frame();
    first.set(2, 2, 'x');
    let mut expected = vec![PaintOp::Put { x: 2, y: 2, glyph: 'x' }];
    expected.extend(ammo_line("ammo: 5 / 5"));
    assert_eq!(screen.show(first, 5), expected);

    let mut second = new_frame();
    second.set(3, 2, 'x');
    let mut expected = vec![
        PaintOp::Put { x: 2, y: 2, glyph: ' ' },
        PaintOp::Put { x: 3, y: 2, glyph: 'x' },
    ];
    expected.extend(ammo_line("ammo: 4 / 5"));
    assert_eq!(screen.show(second, 4), expected);

    let mut third = new_frame();
    third.set(3, 2, 'x');
    assert_eq!(screen.show(third, 4), ammo_line("ammo: 4 / 5"));
}
