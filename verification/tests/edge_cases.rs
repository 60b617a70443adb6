use ansi_control::clear_display;
use ansi_control::clear_line;
use ansi_control::move_cursor;
use ansi_control::move_line;
use ansi_control::scroll;
use ansi_control::set_column;
use ansi_control::set_position;
use ansi_control::Pos;

#[test]
fn move_cursor_both_negative() {
    assert_eq!("\x1B[3B\x1B[8D", move_cursor(-3, -8));
}

#[test]
fn move_cursor_both_positive() {
    assert_eq!("\x1B[1A\x1B[1C", move_cursor(1, 1));
}

#[test]
fn move_cursor_multi_digit() {
    assert_eq!("\x1B[123A\x1B[4567C", move_cursor(123, 4567));
}

#[test]
fn move_cursor_extremes() {
    assert_eq!("\x1B[2147483648B\x1B[2147483647C", move_cursor(i32::MIN, i32::MAX));
}

#[test]
fn move_line_zero() {
    assert_eq!("", move_line(0));
}

#[test]
fn move_line_extremes() {
    assert_eq!("\x1B[2147483647E", move_line(i32::MAX));
    assert_eq!("\x1B[2147483648F", move_line(i32::MIN));
}

#[test]
fn set_column_one() {
    assert_eq!("\x1B[1G", set_column(1));
}

#[test]
fn set_column_max() {
    assert_eq!("\x1B[4294967295G", set_column(u32::MAX));
}

#[test]
fn set_position_clamps_each_axis_alone() {
    assert_eq!("\x1B[1;9H", set_position(0, 9));
    assert_eq!("\x1B[9;1H", set_position(9, 0));
}

#[test]
fn set_position_max() {
    assert_eq!("\x1B[4294967295;4294967295H", set_position(u32::MAX, u32::MAX));
}

#[test]
fn scroll_zero() {
    assert_eq!("", scroll(0));
}

#[test]
fn scroll_extremes() {
    assert_eq!("\x1B[2147483647S", scroll(i32::MAX));
    assert_eq!("\x1B[2147483648T", scroll(i32::MIN));
}

#[test]
fn clear_strings_all_distinct() {
    let display = [
        clear_display(Pos::Back),
        clear_display(Pos::Front),
        clear_display(Pos::Both),
    ];
    let line = [clear_line(Pos::Back), clear_line(Pos::Front), clear_line(Pos::Both)];
    for i in 0..3 {
        for j in 0..3 {
            if i != j {
                assert_ne!(display[i], display[j]);
                assert_ne!(line[i], line[j]);
            }
            assert_ne!(display[i], line[j]);
        }
    }
}

#[test]
fn decimal_digits_round_trip() {
    for n in [0u32, 1, 9, 10, 11, 99, 100, 101, 1000, 65535, 1000000] {
        let s = set_column(n.max(1));
        let expected = format!("\x1B[{}G", n.max(1));
        assert_eq!(expected, s);
    }
}
