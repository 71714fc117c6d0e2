//! The terminal input decoder.
//!
//! Keyboard input arrives as single bytes: control characters, cursor-key
//! escape sequences (ESC `[` `A`..`D`), and UTF-8 encoded characters of one
//! to four bytes. The decoder is fed one byte at a time and reports either
//! that more bytes are needed, a decoded event, or that the bytes form no
//! known input. The byte-reading loop lives outside the library.

use vstd::prelude::*;

use vstd::utf8::is_scalar;

verus! {

broadcast use vstd::utf8::char_u32_cast;

/// A decoded input event.
#[derive(Clone, Copy, Debug, PartialEq, Eq, Structural)]
pub enum Event {
    BackSpace,
    CarriageReturn,
    LineFeed,
    Delete,
    CursorUp,
    CursorDown,
    CursorForward,
    CursorBack,
    Ctrl(char),
    Character(char),
}

/// Why a byte could not be decoded. The decoder returns to its idle state.
#[derive(Clone, Copy, Debug, PartialEq, Eq, Structural)]
pub enum InputError {
    /// An escape sequence other than the four cursor keys.
    UnknownEscape,
    /// A byte that starts no known input.
    UnknownInput,
    /// A multi-byte sequence that decodes to no Unicode scalar value.
    InvalidUtf8,
}

/// What the decoder is in the middle of.
#[derive(Clone, Copy, Debug, PartialEq, Eq, Structural)]
pub enum Pending {
    /// At a boundary: the next byte starts a new input.
    Idle,
    /// An ESC byte was seen.
    Esc,
    /// ESC `[` was seen; a cursor key letter is expected.
    EscBracket,
    /// Inside a UTF-8 sequence of `total` bytes, `need` of them still to come.
    Utf8 { need: u8, total: u8 },
}

/// The byte-at-a-time input decoder.
pub struct Input {
    sequence: u32,
    pending: Pending,
}

/// Whether the top byte of `src` is a valid first byte: printable ASCII, or
/// a UTF-8 leading byte of two, three or four bytes.
pub open spec fn utf8_u32_wellformed(src: u32) -> bool {
    let hi = src >> 24;
    ||| (0x20 <= hi && hi <= 0x7E)
    ||| (0xC2 <= hi && hi <= 0xDF)
    ||| (0xE0 <= hi && hi <= 0xEF)
    ||| (0xF0 <= hi && hi <= 0xF4)
}

/// The scalar value encoded by the UTF-8 bytes packed into `src` from the
/// top: the payload bits of the leading byte followed by the low six bits of
/// each continuation byte.
pub open spec fn utf8_u32_value(src: u32) -> u32 {
    let hi = src >> 24;
    if 0x20 <= hi && hi <= 0x7E {
        hi
    } else if 0xC2 <= hi && hi <= 0xDF {
        let s = src >> 16;
        (((s >> 8) & 0x1F) << 6) | (s & 0x3F)
    } else if 0xE0 <= hi && hi <= 0xEF {
        let s = src >> 8;
        (((s >> 16) & 0x0F) << 12) | (((s >> 8) & 0x3F) << 6) | (s & 0x3F)
    } else if 0xF0 <= hi && hi <= 0xF4 {
        ((hi & 0x07) << 18) | (((src >> 16) & 0x3F) << 12) | (((src >> 8) & 0x3F) << 6) | (src
            & 0x3F)
    } else {
        0
    }
}

/// Relies on char::from_u32: `Some` exactly for Unicode scalar values (at
/// most 0x10FFFF and not a surrogate), and the character has that value.
#[verifier::external_body]
fn char_of_u32(v: u32) -> (r: Option<char>)
    ensures
        r is Some <==> is_scalar(v),
        (r matches Some(c) ==> c as u32 == v),
{
    char::from_u32(v)
}

/// The character the UTF-8 bytes packed into `src` decode to, or nothing
/// when the leading byte is out of range or the value is no Unicode scalar.
pub fn char_from_utf8_u32(src: u32) -> (r: Option<char>)
    ensures
        r is Some <==> utf8_u32_wellformed(src) && is_scalar(utf8_u32_value(src)),
        (r matches Some(c) ==> c as u32 == utf8_u32_value(src)),
{
    let hi = src >> 24;
    if 0x20 <= hi && hi <= 0x7E {
        char_of_u32(hi)
    } else if 0xC2 <= hi && hi <= 0xDF {
        let s = src >> 16;
        char_of_u32((((s >> 8) & 0x1F) << 6) | (s & 0x3F))
    } else if 0xE0 <= hi && hi <= 0xEF {
        let s = src >> 8;
        char_of_u32((((s >> 16) & 0x0F) << 12) | (((s >> 8) & 0x3F) << 6) | (s & 0x3F))
    } else if 0xF0 <= hi && hi <= 0xF4 {
        char_of_u32(
            ((hi & 0x07) << 18) | (((src >> 16) & 0x3F) << 12) | (((src >> 8) & 0x3F) << 6) | (src
                & 0x3F),
        )
    } else {
        None
    }
}

/// One decoder step: from a state, an accumulator and the next byte to the
/// new state, the new accumulator, and what the step reports. `Ok(None)`
/// asks for more bytes.
pub open spec fn feed_step(st: Pending, acc: u32, b: u8) -> (Pending, u32, Result<
    Option<Event>,
    InputError,
>) {
    match st {
        Pending::Idle => {
            if b == 0x1B {
                (Pending::Esc, acc, Ok(None))
            } else if b == 0x08 {
                (Pending::Idle, acc, Ok(Some(Event::BackSpace)))
            } else if b == 0x0A {
                (Pending::Idle, acc, Ok(Some(Event::LineFeed)))
            } else if b == 0x0D {
                (Pending::Idle, acc, Ok(Some(Event::CarriageReturn)))
            } else if b == 0x7F {
                (Pending::Idle, acc, Ok(Some(Event::Delete)))
            } else if 0x01 <= b && b <= 0x1A {
                (Pending::Idle, acc, Ok(Some(Event::Ctrl(((b + 0x40) as u32) as char))))
            } else if 0x20 <= b && b <= 0x7E {
                (Pending::Idle, acc, Ok(Some(Event::Character((b as u32) as char))))
            } else if 0xC2 <= b && b <= 0xDF {
                (Pending::Utf8 { need: 1, total: 2 }, b as u32, Ok(None))
            } else if 0xE0 <= b && b <= 0xEF {
                (Pending::Utf8 { need: 2, total: 3 }, b as u32, Ok(None))
            } else if 0xF0 <= b && b <= 0xF4 {
                (Pending::Utf8 { need: 3, total: 4 }, b as u32, Ok(None))
            } else {
                (Pending::Idle, acc, Err(InputError::UnknownInput))
            }
        },
        Pending::Esc => {
            if b == 0x5B {
                (Pending::EscBracket, acc, Ok(None))
            } else {
                (Pending::Idle, acc, Err(InputError::UnknownEscape))
            }
        },
        Pending::EscBracket => {
            if b == 0x41 {
                (Pending::Idle, acc, Ok(Some(Event::CursorUp)))
            } else if b == 0x42 {
                (Pending::Idle, acc, Ok(Some(Event::CursorDown)))
            } else if b == 0x43 {
                (Pending::Idle, acc, Ok(Some(Event::CursorForward)))
            } else if b == 0x44 {
                (Pending::Idle, acc, Ok(Some(Event::CursorBack)))
            } else {
                (Pending::Idle, acc, Err(InputError::UnknownEscape))
            }
        },
        Pending::Utf8 { need, total } => {
            let acc2 = (acc << 8) | (b as u32);
            if need > 1 {
                (Pending::Utf8 { need: (need - 1) as u8, total }, acc2, Ok(None))
            } else {
                let src = acc2 << (((4 - total) * 8) as u32);
                if utf8_u32_wellformed(src) && is_scalar(utf8_u32_value(src)) {
                    (Pending::Idle, acc2, Ok(Some(Event::Character(utf8_u32_value(src) as char))))
                } else {
                    (Pending::Idle, acc2, Err(InputError::InvalidUtf8))
                }
            }
        },
    }
}

impl Input {
    /// The accumulated bytes of the sequence being decoded.
    pub closed spec fn acc(&self) -> u32 {
        self.sequence
    }

    /// What the decoder is in the middle of.
    pub closed spec fn state(&self) -> Pending {
        self.pending
    }

    /// A UTF-8 state always expects between one byte and one less than its
    /// sequence length, of at most four bytes.
    pub open spec fn wf(&self) -> bool {
        self.state() matches Pending::Utf8 { need, total } ==> 1 <= need && need < total && total
            <= 4
    }

    /// A decoder at a boundary.
    pub fn new() -> (r: Input)
        ensures
            r.wf(),
            r.state() is Idle,
            r.acc() == 0,
    {
        Input { sequence: 0, pending: Pending::Idle }
    }

    /// Feeds one byte, per `feed_step`: reports a decoded event, asks for
    /// more bytes, or reports the error that returns the decoder to idle.
    pub fn feed(&mut self, b: u8) -> (r: Result<Option<Event>, InputError>)
        requires
            old(self).wf(),
        ensures
            final(self).wf(),
            ({
                let (st, acc, res) = feed_step(old(self).state(), old(self).acc(), b);
                final(self).state() == st && final(self).acc() == acc && r == res
            }),
    {
        match self.pending {
            Pending::Idle => {
                if b == 0x1B {
                    self.pending = Pending::Esc;
                    Ok(None)
                } else if b == 0x08 {
                    Ok(Some(Event::BackSpace))
                } else if b == 0x0A {
                    Ok(Some(Event::LineFeed))
                } else if b == 0x0D {
                    Ok(Some(Event::CarriageReturn))
                } else if b == 0x7F {
                    Ok(Some(Event::Delete))
                } else if 0x01 <= b && b <= 0x1A {
                    let c = match char_of_u32((b as u32) + 0x40) {
                        Some(c) => c,
                        None => {
                            assert(false);
                            ' '
                        },
                    };
                    proof {
                        vstd::utf8::char_u32_cast(c, (b + 0x40) as u32);
                    }
                    Ok(Some(Event::Ctrl(c)))
                } else if 0x20 <= b && b <= 0x7E {
                    let c = match char_of_u32(b as u32) {
                        Some(c) => c,
                        None => {
                            assert(false);
                            ' '
                        },
                    };
                    proof {
                        vstd::utf8::char_u32_cast(c, b as u32);
                    }
                    Ok(Some(Event::Character(c)))
                } else if 0xC2 <= b && b <= 0xDF {
                    self.pending = Pending::Utf8 { need: 1, total: 2 };
                    self.sequence = b as u32;
                    Ok(None)
                } else if 0xE0 <= b && b <= 0xEF {
                    self.pending = Pending::Utf8 { need: 2, total: 3 };
                    self.sequence = b as u32;
                    Ok(None)
                } else if 0xF0 <= b && b <= 0xF4 {
                    self.pending = Pending::Utf8 { need: 3, total: 4 };
                    self.sequence = b as u32;
                    Ok(None)
                } else {
                    Err(InputError::UnknownInput)
                }
            },
            Pending::Esc => {
                if b == 0x5B {
                    self.pending = Pending::EscBracket;
                    Ok(None)
                } else {
                    self.pending = Pending::Idle;
                    Err(InputError::UnknownEscape)
                }
            },
            Pending::EscBracket => {
                self.pending = Pending::Idle;
                if b == 0x41 {
                    Ok(Some(Event::CursorUp))
                } else if b == 0x42 {
                    Ok(Some(Event::CursorDown))
                } else if b == 0x43 {
                    Ok(Some(Event::CursorForward))
                } else if b == 0x44 {
                    Ok(Some(Event::CursorBack))
                } else {
                    Err(InputError::UnknownEscape)
                }
            },
            Pending::Utf8 { need, total } => {
                let acc2 = (self.sequence << 8) | (b as u32);
                self.sequence = acc2;
                if need > 1 {
                    self.pending = Pending::Utf8 { need: need - 1, total };
                    Ok(None)
                } else {
                    self.pending = Pending::Idle;
                    let src = acc2 << (((4 - total) * 8) as u32);
                    match char_from_utf8_u32(src) {
                        Some(c) => {
                            proof {
                                vstd::utf8::char_u32_cast(c, utf8_u32_value(src));
                            }
                            Ok(Some(Event::Character(c)))
                        },
                        None => Err(InputError::InvalidUtf8),
                    }
                }
            },
        }
    }
}

} // verus!
