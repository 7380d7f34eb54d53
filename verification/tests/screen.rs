use ttyrec_log::screen::{Screen, TermAction, HEIGHT, WIDTH};

fn print_str(screen: &mut Screen, text: &str) {
    for c in text.chars() {
        screen.print(c);
    }
}

fn place(screen: &mut Screen, row: u16, col: u16) {
    screen.csi_dispatch(&vec![vec![row], vec![col]], 'H');
}

#[test]
fn dimensions_are_fixed() {
    assert_eq!(WIDTH, 160);
    assert_eq!(HEIGHT, 24);
}

#[test]
fn new_screen_is_blank_with_cursor_at_origin() {
    let screen = Screen::new();
    assert_eq!(screen.cursor_x(), 0);
    assert_eq!(screen.cursor_y(), 0);
    for row in 0..HEIGHT {
        assert_eq!(screen.get_row(row), Some(String::new()));
    }
    assert_eq!(screen.get_row(HEIGHT), None);
    assert_eq!(screen.get_row(1000), None);
}

#[test]
fn print_writes_at_cursor_and_advances() {
    let mut screen = Screen::new();
    print_str(&mut screen, "hello");
    assert_eq!(screen.get_row(0), Some("hello".to_string()));
    assert_eq!(screen.cursor_x(), 5);
    assert_eq!(screen.cursor_y(), 0);
}

#[test]
fn cursor_column_after_printing_is_capped_at_width() {
    for start in [0usize, 1, 100, 159, 160] {
        for count in [0usize, 1, 59, 60, 61, 160, 200] {
            let mut screen = Screen::new();
            place(&mut screen, 3, start as u16 + 1);
            for _ in 0..count {
                screen.print('x');
            }
            assert_eq!(screen.cursor_x(), (start + count).min(WIDTH));
            assert_eq!(screen.cursor_y(), 2);
            let written = (start + count).min(WIDTH) - start;
            let expected = if written == 0 {
                String::new()
            } else {
                format!("{}{}", " ".repeat(start), "x".repeat(written))
            };
            assert_eq!(screen.get_row(2), Some(expected));
            assert_eq!(screen.get_row(3), Some(String::new()));
            assert_eq!(screen.get_row(1), Some(String::new()));
        }
    }
}

#[test]
fn characters_past_the_last_column_are_dropped() {
    let mut screen = Screen::new();
    for _ in 0..WIDTH {
        screen.print('a');
    }
    print_str(&mut screen, "bcd");
    assert_eq!(screen.get_row(0), Some("a".repeat(WIDTH)));
    assert_eq!(screen.get_row(1), Some(String::new()));
    assert_eq!(screen.cursor_x(), WIDTH);
}

#[test]
fn line_feed_moves_down_and_to_first_column() {
    let mut screen = Screen::new();
    print_str(&mut screen, "ab");
    screen.execute(b'\n');
    assert_eq!((screen.cursor_y(), screen.cursor_x()), (1, 0));
    print_str(&mut screen, "cd");
    assert_eq!(screen.get_row(0), Some("ab".to_string()));
    assert_eq!(screen.get_row(1), Some("cd".to_string()));
}

#[test]
fn line_feed_stops_at_last_row() {
    let mut screen = Screen::new();
    for _ in 0..100 {
        screen.execute(b'\n');
    }
    assert_eq!(screen.cursor_y(), HEIGHT - 1);
    print_str(&mut screen, "end");
    assert_eq!(screen.get_row(HEIGHT - 1), Some("end".to_string()));
}

#[test]
fn line_feed_from_below_the_grid_lands_on_last_row() {
    let mut screen = Screen::new();
    place(&mut screen, 500, 1);
    assert_eq!(screen.cursor_y(), 499);
    screen.execute(b'\n');
    assert_eq!(screen.cursor_y(), HEIGHT - 1);
}

#[test]
fn carriage_return_keeps_the_row() {
    let mut screen = Screen::new();
    place(&mut screen, 5, 10);
    print_str(&mut screen, "abc");
    screen.execute(b'\r');
    assert_eq!((screen.cursor_y(), screen.cursor_x()), (4, 0));
    screen.print('Z');
    assert_eq!(screen.get_row(4), Some("Z        abc".to_string()));
}

#[test]
fn form_feed_gives_a_fresh_screen() {
    let mut screen = Screen::new();
    place(&mut screen, 7, 7);
    print_str(&mut screen, "something");
    screen.execute(0x0c);
    assert_eq!((screen.cursor_y(), screen.cursor_x()), (0, 0));
    for row in 0..HEIGHT {
        assert_eq!(screen.get_row(row), Screen::new().get_row(row));
        assert_eq!(screen.get_row(row), Some(String::new()));
    }
}

#[test]
fn clear_display_sequence_gives_a_fresh_screen() {
    let mut screen = Screen::new();
    place(&mut screen, 24, 1);
    print_str(&mut screen, "status");
    screen.csi_dispatch(&vec![vec![2]], 'J');
    assert_eq!((screen.cursor_y(), screen.cursor_x()), (0, 0));
    for row in 0..HEIGHT {
        assert_eq!(screen.get_row(row), Some(String::new()));
    }
}

#[test]
fn reset_gives_a_fresh_screen() {
    let mut screen = Screen::new();
    print_str(&mut screen, "x");
    screen.reset();
    assert_eq!(screen.get_row(0), Some(String::new()));
    assert_eq!((screen.cursor_y(), screen.cursor_x()), (0, 0));
}

#[test]
fn other_control_bytes_change_nothing() {
    let mut screen = Screen::new();
    print_str(&mut screen, "ab");
    for byte in [0x00u8, 0x07, 0x08, 0x09, 0x0b, 0x1b, 0x7f, 0xff] {
        screen.execute(byte);
    }
    assert_eq!((screen.cursor_y(), screen.cursor_x()), (0, 2));
    assert_eq!(screen.get_row(0), Some("ab".to_string()));
}

#[test]
fn cursor_position_is_one_based() {
    let mut screen = Screen::new();
    screen.csi_dispatch(&vec![vec![5], vec![10]], 'H');
    assert_eq!((screen.cursor_y(), screen.cursor_x()), (4, 9));
    screen.csi_dispatch(&vec![vec![1], vec![1]], 'f');
    assert_eq!((screen.cursor_y(), screen.cursor_x()), (0, 0));
}

#[test]
fn cursor_position_defaults_to_one() {
    let mut screen = Screen::new();
    place(&mut screen, 9, 9);
    screen.csi_dispatch(&vec![vec![3]], 'H');
    assert_eq!((screen.cursor_y(), screen.cursor_x()), (2, 0));
    place(&mut screen, 9, 9);
    screen.csi_dispatch(&Vec::new(), 'H');
    assert_eq!((screen.cursor_y(), screen.cursor_x()), (0, 0));
    place(&mut screen, 9, 9);
    screen.csi_dispatch(&vec![Vec::new(), Vec::new()], 'H');
    assert_eq!((screen.cursor_y(), screen.cursor_x()), (0, 0));
}

#[test]
fn cursor_position_zero_is_floored() {
    let mut screen = Screen::new();
    place(&mut screen, 9, 9);
    screen.csi_dispatch(&vec![vec![0], vec![0]], 'H');
    assert_eq!((screen.cursor_y(), screen.cursor_x()), (0, 0));
}

#[test]
fn cursor_position_reads_first_subparameter() {
    let mut screen = Screen::new();
    screen.csi_dispatch(&vec![vec![4, 99], vec![6, 77], vec![50]], 'H');
    assert_eq!((screen.cursor_y(), screen.cursor_x()), (3, 5));
}

#[test]
fn cursor_may_leave_the_grid_and_printing_there_is_dropped() {
    let mut screen = Screen::new();
    screen.csi_dispatch(&vec![vec![65535], vec![65535]], 'H');
    assert_eq!((screen.cursor_y(), screen.cursor_x()), (65534, 65534));
    print_str(&mut screen, "lost");
    assert_eq!((screen.cursor_y(), screen.cursor_x()), (65534, 65534));
    place(&mut screen, 1, 200);
    print_str(&mut screen, "lost");
    assert_eq!(screen.cursor_x(), 199);
    for row in 0..HEIGHT {
        assert_eq!(screen.get_row(row), Some(String::new()));
    }
}

#[test]
fn other_sequences_change_nothing() {
    let mut screen = Screen::new();
    place(&mut screen, 2, 2);
    print_str(&mut screen, "q");
    for action in ['m', 'K', 'A', 'B', 'C', 'D', 'h', 'l', 'r', 'j'] {
        screen.csi_dispatch(&vec![vec![1], vec![31]], action);
    }
    assert_eq!((screen.cursor_y(), screen.cursor_x()), (1, 2));
    assert_eq!(screen.get_row(1), Some(" q".to_string()));
}

#[test]
fn get_row_strips_trailing_white_space_only() {
    let mut screen = Screen::new();
    print_str(&mut screen, "  a b \u{a0}\t");
    assert_eq!(screen.get_row(0), Some("  a b".to_string()));
}

#[test]
fn apply_performs_each_kind_of_action() {
    let mut screen = Screen::new();
    screen.apply(&TermAction::CsiDispatch { params: vec![vec![2], vec![3]], action: 'H' });
    screen.apply(&TermAction::Print('k'));
    screen.apply(&TermAction::Execute(b'\n'));
    screen.apply(&TermAction::Print('l'));
    assert_eq!(screen.get_row(1), Some("  k".to_string()));
    assert_eq!(screen.get_row(2), Some("l".to_string()));
}

#[test]
fn apply_all_performs_in_order() {
    let mut screen = Screen::new();
    let actions = vec![
        TermAction::Print('a'),
        TermAction::Print('b'),
        TermAction::Execute(b'\r'),
        TermAction::Print('c'),
        TermAction::Execute(0x0c),
        TermAction::Print('d'),
    ];
    screen.apply_all(&actions);
    assert_eq!(screen.get_row(0), Some("d".to_string()));
    assert_eq!(screen.cursor_x(), 1);
}
