//! Terminal escape sequences.
//!
//! The editor drives the terminal with CSI control sequences. The builders
//! here produce the exact character sequences; writing them to the terminal,
//! and the raw/canonical mode switching that accompanies opening and closing
//! the alternate screen, happen outside the library.

use vstd::prelude::*;

verus! {

/// The CSI control sequence with the given code: ESC `[` code.
pub open spec fn csi_seq(code: Seq<char>) -> Seq<char> {
    "\x1b["@ + code
}

/// The digit character for a value below ten.
pub open spec fn digit_char(d: nat) -> char
    recommends
        d < 10,
{
    if d == 0 {
        '0'
    } else if d == 1 {
        '1'
    } else if d == 2 {
        '2'
    } else if d == 3 {
        '3'
    } else if d == 4 {
        '4'
    } else if d == 5 {
        '5'
    } else if d == 6 {
        '6'
    } else if d == 7 {
        '7'
    } else if d == 8 {
        '8'
    } else {
        '9'
    }
}

/// The shortest decimal rendering of `n`, as characters.
pub open spec fn dec_chars(n: nat) -> Seq<char>
    decreases n,
{
    if n < 10 {
        seq![digit_char(n)]
    } else {
        dec_chars(n / 10).push(digit_char(n % 10))
    }
}

/// The one-character string for a digit.
fn digit_str(d: u64) -> (r: &'static str)
    requires
        d < 10,
    ensures
        r@ == seq![digit_char(d as nat)],
{
    match d {
        0 => {
            proof {
                reveal_strlit("0");
            }
            "0"
        },
        1 => {
            proof {
                reveal_strlit("1");
            }
            "1"
        },
        2 => {
            proof {
                reveal_strlit("2");
            }
            "2"
        },
        3 => {
            proof {
                reveal_strlit("3");
            }
            "3"
        },
        4 => {
            proof {
                reveal_strlit("4");
            }
            "4"
        },
        5 => {
            proof {
                reveal_strlit("5");
            }
            "5"
        },
        6 => {
            proof {
                reveal_strlit("6");
            }
            "6"
        },
        7 => {
            proof {
                reveal_strlit("7");
            }
            "7"
        },
        8 => {
            proof {
                reveal_strlit("8");
            }
            "8"
        },
        _ => {
            proof {
                reveal_strlit("9");
            }
            "9"
        },
    }
}

/// Appends the decimal rendering of `n` to `s`.
fn push_decimal_chars(s: &mut String, n: u64)
    ensures
        final(s)@ == old(s)@ + dec_chars(n as nat),
    decreases n,
{
    if n < 10 {
        s.append(digit_str(n));
    } else {
        push_decimal_chars(s, n / 10);
        s.append(digit_str(n % 10));
        proof {
            assert(final(s)@ =~= old(s)@ + dec_chars(n as nat));
        }
    }
}

/// Builds the CSI control sequence with the given code.
pub fn send_escape_sequence_csi(code: &str) -> (r: String)
    ensures
        r@ == csi_seq(code@),
{
    let mut s = String::from_str("\x1b[");
    s.append(code);
    s
}

/// The sequence that erases the whole current line.
pub fn clear_line() -> (r: String)
    ensures
        r@ == csi_seq("2K"@),
{
    send_escape_sequence_csi("2K")
}

/// The sequence that moves the cursor to the given one-based row and column.
pub fn move_cursor(row: usize, column: usize) -> (r: String)
    ensures
        r@ == csi_seq(dec_chars(row as nat) + ";"@ + dec_chars(column as nat) + "H"@),
{
    let mut s = String::from_str("\x1b[");
    push_decimal_chars(&mut s, row as u64);
    s.append(";");
    push_decimal_chars(&mut s, column as u64);
    s.append("H");
    proof {
        assert(s@ =~= csi_seq(dec_chars(row as nat) + ";"@ + dec_chars(column as nat) + "H"@));
    }
    s
}

/// The sequence that switches to the alternate screen. The caller puts the
/// terminal into raw mode around writing it.
pub fn open() -> (r: String)
    ensures
        r@ == csi_seq("?1049h"@),
{
    send_escape_sequence_csi("?1049h")
}

/// The sequence that leaves the alternate screen. The caller restores the
/// terminal to canonical mode around writing it.
pub fn close() -> (r: String)
    ensures
        r@ == csi_seq("?1049l"@),
{
    send_escape_sequence_csi("?1049l")
}

} // verus!
