use ansi_control::clear_display;
use ansi_control::clear_line;
use ansi_control::move_cursor;
use ansi_control::move_line;
use ansi_control::scroll;
use ansi_control::set_column;
use ansi_control::set_position;
use ansi_control::Pos;

#[test]
fn move_cursor0() {
    assert_eq!("\x1B[2A\x1B[4D", move_cursor(2, -4));
}

#[test]
fn move_cursor1() {
    assert_eq!("\x1B[2B", move_cursor(-2, 0));
}

#[test]
fn move_cursor2() {
    assert_eq!("\x1B[6C", move_cursor(0, 6));
}

#[test]
fn move_cursor3() {
    assert_eq!("", move_cursor(0, 0));
}

#[test]
fn move_line0() {
    assert_eq!("\x1B[4E", move_line(4));
}

#[test]
fn move_line1() {
    assert_eq!("\x1B[4F", move_line(-4));
}

#[test]
fn set_column0() {
    assert_eq!("\x1B[3G", set_column(3));
}

#[test]
fn set_column1() {
    assert_eq!("\x1B[1G", set_column(0));
}

#[test]
fn set_position0() {
    assert_eq!("\x1B[3;5H", set_position(3, 5));
}

#[test]
fn set_position1() {
    assert_eq!("\x1B[1;1H", set_position(0, 0));
}

#[test]
fn clear_display0() {
    assert_eq!("\x1B[0J", clear_display(Pos::Back));
}

#[test]
fn clear_display1() {
    assert_eq!("\x1B[1J", clear_display(Pos::Front));
}

#[test]
fn clear_display2() {
    assert_eq!("\x1B[2J", clear_display(Pos::Both));
}

#[test]
fn clear_line0() {
    assert_eq!("\x1B[0K", clear_line(Pos::Back));
}

#[test]
fn clear_line1() {
    assert_eq!("\x1B[1K", clear_line(Pos::Front));
}

#[test]
fn clear_line2() {
    assert_eq!("\x1B[2K", clear_line(Pos::Both));
}

#[test]
fn scroll0() {
    assert_eq!("\x1B[7S", scroll(7));
}

#[test]
fn scroll1() {
    assert_eq!("\x1B[5T", scroll(-5));
}
