//! Generation of ANSI escape-code strings for terminal cursor movement,
//! screen and line clearing, and scrolling.
//!
//! Every function is pure: it takes small integer or enum arguments and
//! returns the corresponding VT100 control sequence (`ESC [ ... letter`)
//! as a `String`. Writing the string to a terminal is the caller's business.

use vstd::prelude::*;

verus! {

/// The character value of a single decimal digit.
pub open spec fn digit_char(d: nat) -> char {
    if d == 0 {
        '0'
    } else if d == 1 {
        '1'
    } else if d == 2 {
        '2'
    } else if d == 3 {
        '3'
    } else if d == 4 {
        '4'
    } else if d == 5 {
        '5'
    } else if d == 6 {
        '6'
    } else if d == 7 {
        '7'
    } else if d == 8 {
        '8'
    } else {
        '9'
    }
}

/// The decimal representation of `n`, most significant digit first,
/// without leading zeros (`0` itself is written as "0").
pub open spec fn dec_digits(n: nat) -> Seq<char>
    decreases n,
{
    if n < 10 {
        seq![digit_char(n)]
    } else {
        dec_digits(n / 10) + seq![digit_char(n % 10)]
    }
}

/// A single decimal digit as a string slice.
fn digit_str(d: u32) -> (r: &'static str)
    requires
        d < 10,
    ensures
        r@ == seq![digit_char(d as nat)],
{
    proof {
        reveal_strlit("0");
        reveal_strlit("1");
        reveal_strlit("2");
        reveal_strlit("3");
        reveal_strlit("4");
        reveal_strlit("5");
        reveal_strlit("6");
        reveal_strlit("7");
        reveal_strlit("8");
        reveal_strlit("9");
    }
    let r: &'static str = match d {
        0 => "0",
        1 => "1",
        2 => "2",
        3 => "3",
        4 => "4",
        5 => "5",
        6 => "6",
        7 => "7",
        8 => "8",
        _ => "9",
    };
    proof {
        assert(r@ =~= seq![digit_char(d as nat)]);
    }
    r
}

/// Appends the decimal representation of `n` to `s`.
fn push_digits(s: &mut String, n: u32)
    ensures
        final(s)@ == old(s)@ + dec_digits(n as nat),
    decreases n,
{
    if n < 10 {
        s.append(digit_str(n));
        proof {
            assert(s@ =~= old(s)@ + dec_digits(n as nat));
        }
    } else {
        proof {
            assert(n / 10 < n) by (nonlinear_arith)
                requires
                    n >= 10,
            ;
        }
        push_digits(s, n / 10);
        s.append(digit_str(n % 10));
        proof {
            assert(s@ =~= old(s)@ + dec_digits(n as nat));
        }
    }
}

/// The two-character control sequence introducer `ESC [`.
pub open spec fn esc_prefix() -> Seq<char> {
    seq!['\x1b', '[']
}

/// A full control sequence: `ESC [`, the decimal argument, the final letter.
pub open spec fn code_seq(n: nat, letter: char) -> Seq<char> {
    esc_prefix() + dec_digits(n) + seq![letter]
}

/// The sequence emitted for a signed argument: the magnitude with
/// `pos_letter` when positive, the magnitude with `neg_letter` when
/// negative, and nothing at all when zero.
pub open spec fn signed_seq(n: int, pos_letter: char, neg_letter: char) -> Seq<char> {
    if n > 0 {
        code_seq(n as nat, pos_letter)
    } else if n < 0 {
        code_seq((-n) as nat, neg_letter)
    } else {
        Seq::<char>::empty()
    }
}

/// Builds `ESC [ {n} {letter}`.
fn csi_code(n: u32, letter: &str) -> (r: String)
    ensures
        r@ == esc_prefix() + dec_digits(n as nat) + letter@,
{
    proof {
        reveal_strlit("\x1b[");
    }
    let mut s: String = "\x1b[".to_owned();
    proof {
        assert(s@ =~= esc_prefix());
    }
    push_digits(&mut s, n);
    s.append(letter);
    proof {
        assert(s@ =~= esc_prefix() + dec_digits(n as nat) + letter@);
    }
    s
}

/// Builds the sequence for one signed argument: `pos_letter` and the
/// magnitude when positive, `neg_letter` and the magnitude when negative,
/// the empty string when zero.
fn signed_code(n: i32, pos_letter: &str, neg_letter: &str) -> (r: String)
    requires
        pos_letter@.len() == 1,
        neg_letter@.len() == 1,
    ensures
        r@ == signed_seq(n as int, pos_letter@[0], neg_letter@[0]),
{
    if n > 0 {
        let r = csi_code(n as u32, pos_letter);
        proof {
            assert(r@ =~= signed_seq(n as int, pos_letter@[0], neg_letter@[0]));
        }
        r
    } else if n < 0 {
        let m: u32 = (-(n as i64)) as u32;
        let r = csi_code(m, neg_letter);
        proof {
            assert(r@ =~= signed_seq(n as int, pos_letter@[0], neg_letter@[0]));
        }
        r
    } else {
        let r = String::new();
        proof {
            assert(r@ =~= signed_seq(n as int, pos_letter@[0], neg_letter@[0]));
        }
        r
    }
}

/// A Pos is the region cleared by `clear_display` or `clear_line`,
/// relative to the cursor: from the cursor back to the end, from the
/// cursor to the front, or the whole display (line).
pub enum Pos {
    Back,
    Front,
    Both,
}

/// The numeric code of a clear region: 0 for `Back`, 1 for `Front`,
/// 2 for `Both`.
pub open spec fn pos_code(p: Pos) -> nat {
    match p {
        Pos::Back => 0,
        Pos::Front => 1,
        Pos::Both => 2,
    }
}

impl Pos {
    fn num(&self) -> (r: u32)
        ensures
            r as nat == pos_code(*self),
    {
        match *self {
            Pos::Back => 0,
            Pos::Front => 1,
            Pos::Both => 2,
        }
    }
}

/// The string `move_cursor(i, j)` returns: the row sequence
/// (`A` up for positive, `B` down for negative), then the column sequence
/// (`C` forward for positive, `D` backward for negative).
pub open spec fn spec_move_cursor(i: int, j: int) -> Seq<char> {
    signed_seq(i, 'A', 'B') + signed_seq(j, 'C', 'D')
}

/// The string `move_line(n)` returns: `E` down for positive,
/// `F` up for negative.
pub open spec fn spec_move_line(n: int) -> Seq<char> {
    signed_seq(n, 'E', 'F')
}

/// The string `scroll(n)` returns: `S` up for positive, `T` down for
/// negative.
pub open spec fn spec_scroll(n: int) -> Seq<char> {
    signed_seq(n, 'S', 'T')
}

/// Column and row arguments are 1-based: 0 is treated as 1.
pub open spec fn clamp1(n: nat) -> nat {
    if n < 1 {
        1
    } else {
        n
    }
}

/// The string `set_column(n)` returns.
pub open spec fn spec_set_column(n: nat) -> Seq<char> {
    code_seq(clamp1(n), 'G')
}

/// The string `set_position(i, j)` returns: both coordinates, each
/// clamped to a minimum of 1, separated by `;`, ended by `H`.
pub open spec fn spec_set_position(i: nat, j: nat) -> Seq<char> {
    esc_prefix() + dec_digits(clamp1(i)) + seq![';'] + dec_digits(clamp1(j)) + seq!['H']
}

/// The string `clear_display(p)` returns.
pub open spec fn spec_clear_display(p: Pos) -> Seq<char> {
    code_seq(pos_code(p), 'J')
}

/// The string `clear_line(p)` returns.
pub open spec fn spec_clear_line(p: Pos) -> Seq<char> {
    code_seq(pos_code(p), 'K')
}

/// Moves the cursor _i_ (row), _j_ (column) cells. If the cursor
/// is already at the edge of the screen, this has no effect.
pub fn move_cursor(i: i32, j: i32) -> (r: String)
    ensures
        r@ == spec_move_cursor(i as int, j as int),
{
    proof {
        reveal_strlit("A");
        reveal_strlit("B");
        reveal_strlit("C");
        reveal_strlit("D");
    }
    let row = signed_code(i, "A", "B");
    let col = signed_code(j, "C", "D");
    let r = row.concat(col.as_str());
    proof {
        assert(r@ =~= spec_move_cursor(i as int, j as int));
    }
    r
}

/// Moves the cursor to beginning of the line _n_ lines down.
/// If _n_ is a negative number, this function moves the cursor
/// _|n|_ lines up.
pub fn move_line(n: i32) -> (r: String)
    ensures
        r@ == spec_move_line(n as int),
{
    proof {
        reveal_strlit("E");
        reveal_strlit("F");
    }
    let r = signed_code(n, "E", "F");
    proof {
        assert(r@ =~= spec_move_line(n as int));
    }
    r
}

/// Sets the column of the cursor. (n: column)
/// A column of 0 is treated as column 1.
pub fn set_column(n: u32) -> (r: String)
    ensures
        r@ == spec_set_column(n as nat),
{
    proof {
        reveal_strlit("G");
    }
    let m: u32 = if n < 1 {
        1
    } else {
        n
    };
    let r = csi_code(m, "G");
    proof {
        assert(r@ =~= spec_set_column(n as nat));
    }
    r
}

/// Sets the position of the cursor. (i: row, j: column)
/// A row or column of 0 is treated as 1.
pub fn set_position(i: u32, j: u32) -> (r: String)
    ensures
        r@ == spec_set_position(i as nat, j as nat),
{
    proof {
        reveal_strlit("\x1b[");
        reveal_strlit(";");
        reveal_strlit("H");
    }
    let mi: u32 = if i < 1 {
        1
    } else {
        i
    };
    let mj: u32 = if j < 1 {
        1
    } else {
        j
    };
    let mut s: String = "\x1b[".to_owned();
    proof {
        assert(s@ =~= esc_prefix());
    }
    push_digits(&mut s, mi);
    s.append(";");
    push_digits(&mut s, mj);
    s.append("H");
    proof {
        assert(s@ =~= spec_set_position(i as nat, j as nat));
    }
    s
}

/// Clears part of screen. If pos is Pos::Back, clear from cursor
/// to the end of the screen. If pos is Pos::Front, clear from
/// cursor to beginning of the screen. If pos is Pos::Both, clear
/// entire screen.
pub fn clear_display(pos: Pos) -> (r: String)
    ensures
        r@ == spec_clear_display(pos),
{
    proof {
        reveal_strlit("J");
    }
    let r = csi_code(pos.num(), "J");
    proof {
        assert(r@ =~= spec_clear_display(pos));
    }
    r
}

/// Clears part of line. If pos is Pos::Back, clear from cursor
/// to the end of the line. If pos is Pos::Front, clear from
/// cursor to beginning of the line. If pos is Pos::Both, clear
/// entire line.
pub fn clear_line(pos: Pos) -> (r: String)
    ensures
        r@ == spec_clear_line(pos),
{
    proof {
        reveal_strlit("K");
    }
    let r = csi_code(pos.num(), "K");
    proof {
        assert(r@ =~= spec_clear_line(pos));
    }
    r
}

/// Scroll whole page up by _n_ lines. If _n_ is a negative
/// number, this function scroll whole page down by _|n|_ lines.
pub fn scroll(n: i32) -> (r: String)
    ensures
        r@ == spec_scroll(n as int),
{
    proof {
        reveal_strlit("S");
        reveal_strlit("T");
    }
    let r = signed_code(n, "S", "T");
    proof {
        assert(r@ =~= spec_scroll(n as int));
    }
    r
}

/// A decimal representation always holds at least one digit.
pub proof fn lemma_dec_digits_nonempty(n: nat)
    ensures
        dec_digits(n).len() >= 1,
    decreases n,
{
    if n >= 10 {
        lemma_dec_digits_nonempty(n / 10);
    }
}

/// A full control sequence is never empty.
pub proof fn lemma_code_seq_nonempty(n: nat, letter: char)
    ensures
        code_seq(n, letter).len() >= 4,
{
    lemma_dec_digits_nonempty(n);
}

/// Moving the cursor by zero on both axes yields the empty string.
pub proof fn lemma_move_cursor_zero()
    ensures
        spec_move_cursor(0, 0) == Seq::<char>::empty(),
{
    assert(spec_move_cursor(0, 0) =~= Seq::<char>::empty());
}

/// The row component of a cursor move uses code `A` with magnitude `i`
/// when `i > 0` and code `B` with magnitude `-i` when `i < 0`; the column
/// component uses `C` and `D` in the same way.
pub proof fn lemma_move_cursor_codes(i: int, j: int)
    ensures
        i > 0 ==> spec_move_cursor(i, j) == code_seq(i as nat, 'A') + signed_seq(j, 'C', 'D'),
        i < 0 ==> spec_move_cursor(i, j) == code_seq((-i) as nat, 'B') + signed_seq(j, 'C', 'D'),
        i == 0 ==> spec_move_cursor(i, j) == signed_seq(j, 'C', 'D'),
        j > 0 ==> spec_move_cursor(i, j) == signed_seq(i, 'A', 'B') + code_seq(j as nat, 'C'),
        j < 0 ==> spec_move_cursor(i, j) == signed_seq(i, 'A', 'B') + code_seq((-j) as nat, 'D'),
        j == 0 ==> spec_move_cursor(i, j) == signed_seq(i, 'A', 'B'),
{
    assert(spec_move_cursor(i, j) =~= signed_seq(i, 'A', 'B') + signed_seq(j, 'C', 'D'));
    if i == 0 {
        assert(spec_move_cursor(i, j) =~= signed_seq(j, 'C', 'D'));
    }
    if j == 0 {
        assert(spec_move_cursor(i, j) =~= signed_seq(i, 'A', 'B'));
    }
}

/// When both axes are non-zero, the row sequence stands first: it is the
/// prefix of the result, and the column sequence is the rest.
pub proof fn lemma_move_cursor_row_first(i: int, j: int)
    requires
        i != 0,
        j != 0,
    ensures
        signed_seq(i, 'A', 'B').len() >= 4,
        signed_seq(j, 'C', 'D').len() >= 4,
        spec_move_cursor(i, j).take(signed_seq(i, 'A', 'B').len() as int) == signed_seq(
            i,
            'A',
            'B',
        ),
        spec_move_cursor(i, j).skip(signed_seq(i, 'A', 'B').len() as int) == signed_seq(
            j,
            'C',
            'D',
        ),
{
    if i > 0 {
        lemma_code_seq_nonempty(i as nat, 'A');
    } else {
        lemma_code_seq_nonempty((-i) as nat, 'B');
    }
    if j > 0 {
        lemma_code_seq_nonempty(j as nat, 'C');
    } else {
        lemma_code_seq_nonempty((-j) as nat, 'D');
    }
    assert(spec_move_cursor(i, j).take(signed_seq(i, 'A', 'B').len() as int) =~= signed_seq(
        i,
        'A',
        'B',
    ));
    assert(spec_move_cursor(i, j).skip(signed_seq(i, 'A', 'B').len() as int) =~= signed_seq(
        j,
        'C',
        'D',
    ));
}

/// `move_line(n)` is empty exactly when `n` is zero; otherwise it uses
/// code `E` for positive `n` and `F` for negative `n`, with magnitude `|n|`.
pub proof fn lemma_move_line_cases(n: int)
    ensures
        spec_move_line(n) == Seq::<char>::empty() <==> n == 0,
        n > 0 ==> spec_move_line(n) == code_seq(n as nat, 'E'),
        n < 0 ==> spec_move_line(n) == code_seq((-n) as nat, 'F'),
{
    if n > 0 {
        lemma_code_seq_nonempty(n as nat, 'E');
    }
    if n < 0 {
        lemma_code_seq_nonempty((-n) as nat, 'F');
    }
}

/// Setting the column clamps the argument to a minimum of 1: `n` and
/// `clamp1(n)` give the same string, and 0 gives the string of 1.
pub proof fn lemma_set_column_clamps(n: nat)
    ensures
        spec_set_column(n) == spec_set_column(clamp1(n)),
        spec_set_column(0) == spec_set_column(1),
{
}

/// Setting the position clamps each coordinate independently to a
/// minimum of 1.
pub proof fn lemma_set_position_clamps(i: nat, j: nat)
    ensures
        spec_set_position(i, j) == spec_set_position(clamp1(i), clamp1(j)),
        spec_set_position(0, j) == spec_set_position(1, j),
        spec_set_position(i, 0) == spec_set_position(i, 1),
{
}

/// The clear regions map onto the codes 0, 1, 2, one each:
/// `Back` to 0, `Front` to 1, `Both` to 2, no two regions sharing a code,
/// and every code at most 2 belonging to some region.
pub proof fn lemma_pos_code_bijective()
    ensures
        pos_code(Pos::Back) == 0,
        pos_code(Pos::Front) == 1,
        pos_code(Pos::Both) == 2,
        forall|p: Pos| #[trigger] pos_code(p) <= 2,
        forall|p: Pos, q: Pos| #[trigger] pos_code(p) == #[trigger] pos_code(q) ==> p == q,
{
}

/// Every code at most 2 is the code of some clear region.
pub proof fn lemma_pos_code_surjective(c: nat)
    requires
        c <= 2,
    ensures
        exists|p: Pos| #[trigger] pos_code(p) == c,
{
    if c == 0 {
        assert(pos_code(Pos::Back) == 0);
    } else if c == 1 {
        assert(pos_code(Pos::Front) == 1);
    } else {
        assert(pos_code(Pos::Both) == 2);
    }
}

/// Distinct clear regions give distinct `clear_display` strings, and
/// distinct `clear_line` strings: each string determines its region.
pub proof fn lemma_clear_bijective(p: Pos, q: Pos)
    ensures
        spec_clear_display(p) == spec_clear_display(q) ==> p == q,
        spec_clear_line(p) == spec_clear_line(q) ==> p == q,
{
    assert(spec_clear_display(p)[2] == digit_char(pos_code(p)));
    assert(spec_clear_display(q)[2] == digit_char(pos_code(q)));
    assert(spec_clear_line(p)[2] == digit_char(pos_code(p)));
    assert(spec_clear_line(q)[2] == digit_char(pos_code(q)));
}

/// `scroll(0)` is empty; `scroll(n)` uses code `S` for positive `n` and
/// `T` for negative `n`, with magnitude `|n|`.
pub proof fn lemma_scroll_cases(n: int)
    ensures
        spec_scroll(n) == Seq::<char>::empty() <==> n == 0,
        n > 0 ==> spec_scroll(n) == code_seq(n as nat, 'S'),
        n < 0 ==> spec_scroll(n) == code_seq((-n) as nat, 'T'),
{
    if n > 0 {
        lemma_code_seq_nonempty(n as nat, 'S');
    }
    if n < 0 {
        lemma_code_seq_nonempty((-n) as nat, 'T');
    }
}

} // verus!
