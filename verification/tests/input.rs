use sura::input::char_from_utf8_u32;
use sura::input::Event;
use sura::input::Input;
use sura::input::InputError;

fn feed_all(input: &mut Input, bytes: &[u8]) -> Result<Option<Event>, InputError> {
    let mut last = Ok(None);
    for b in bytes {
        last = input.feed(*b);
    }
    last
}

#[test]
fn ascii_characters_decode_directly() {
    let mut input = Input::new();
    assert_eq!(input.feed(b'a'), Ok(Some(Event::Character('a'))));
    assert_eq!(input.feed(b'Z'), Ok(Some(Event::Character('Z'))));
    assert_eq!(input.feed(b' '), Ok(Some(Event::Character(' '))));
    assert_eq!(input.feed(b'~'), Ok(Some(Event::Character('~'))));
}

#[test]
fn control_characters_decode_to_events() {
    let mut input = Input::new();
    assert_eq!(input.feed(0x08), Ok(Some(Event::BackSpace)));
    assert_eq!(input.feed(0x0A), Ok(Some(Event::LineFeed)));
    assert_eq!(input.feed(0x0D), Ok(Some(Event::CarriageReturn)));
    assert_eq!(input.feed(0x7F), Ok(Some(Event::Delete)));
}

#[test]
fn control_letters_map_to_uppercase() {
    let mut input = Input::new();
    // 0x11 is Ctrl-Q, 0x13 is Ctrl-S, 0x06 is Ctrl-F.
    assert_eq!(input.feed(0x11), Ok(Some(Event::Ctrl('Q'))));
    assert_eq!(input.feed(0x13), Ok(Some(Event::Ctrl('S'))));
    assert_eq!(input.feed(0x06), Ok(Some(Event::Ctrl('F'))));
}

#[test]
fn cursor_escape_sequences_decode() {
    let mut input = Input::new();
    assert_eq!(feed_all(&mut input, &[0x1B, 0x5B, 0x41]), Ok(Some(Event::CursorUp)));
    assert_eq!(feed_all(&mut input, &[0x1B, 0x5B, 0x42]), Ok(Some(Event::CursorDown)));
    assert_eq!(feed_all(&mut input, &[0x1B, 0x5B, 0x43]), Ok(Some(Event::CursorForward)));
    assert_eq!(feed_all(&mut input, &[0x1B, 0x5B, 0x44]), Ok(Some(Event::CursorBack)));
}

#[test]
fn escape_prefix_asks_for_more_bytes() {
    let mut input = Input::new();
    assert_eq!(input.feed(0x1B), Ok(None));
    assert_eq!(input.feed(0x5B), Ok(None));
    assert_eq!(input.feed(0x41), Ok(Some(Event::CursorUp)));
}

#[test]
fn unknown_escape_sequences_are_errors() {
    let mut input = Input::new();
    assert_eq!(feed_all(&mut input, &[0x1B, 0x5B, 0x5A]), Err(InputError::UnknownEscape));
    // The decoder returns to idle and keeps working.
    assert_eq!(input.feed(b'x'), Ok(Some(Event::Character('x'))));
    assert_eq!(feed_all(&mut input, &[0x1B, 0x40]), Err(InputError::UnknownEscape));
}

#[test]
fn two_byte_utf8_decodes() {
    let mut input = Input::new();
    // 'é' is 0xC3 0xA9.
    assert_eq!(input.feed(0xC3), Ok(None));
    assert_eq!(input.feed(0xA9), Ok(Some(Event::Character('é'))));
}

#[test]
fn three_byte_utf8_decodes() {
    let mut input = Input::new();
    // '€' is 0xE2 0x82 0xAC.
    assert_eq!(feed_all(&mut input, &[0xE2, 0x82, 0xAC]), Ok(Some(Event::Character('€'))));
}

#[test]
fn four_byte_utf8_decodes() {
    let mut input = Input::new();
    // '😀' is 0xF0 0x9F 0x98 0x80.
    assert_eq!(feed_all(&mut input, &[0xF0, 0x9F, 0x98, 0x80]), Ok(Some(Event::Character('😀'))));
}

#[test]
fn surrogate_encoding_is_invalid() {
    let mut input = Input::new();
    // 0xED 0xA0 0x80 would encode the surrogate 0xD800.
    assert_eq!(feed_all(&mut input, &[0xED, 0xA0, 0x80]), Err(InputError::InvalidUtf8));
}

#[test]
fn stray_bytes_are_unknown_input() {
    let mut input = Input::new();
    assert_eq!(input.feed(0x00), Err(InputError::UnknownInput));
    assert_eq!(input.feed(0xFF), Err(InputError::UnknownInput));
    assert_eq!(input.feed(0xC1), Err(InputError::UnknownInput));
    assert_eq!(input.feed(0xF5), Err(InputError::UnknownInput));
}

#[test]
fn char_from_packed_ascii() {
    assert_eq!(char_from_utf8_u32(0x61 << 24), Some('a'));
}

#[test]
fn char_from_packed_two_bytes() {
    // 'é' packed as 0xC3A9 then aligned to the top half.
    assert_eq!(char_from_utf8_u32(0xC3A9 << 16), Some('é'));
}

#[test]
fn char_from_packed_three_bytes() {
    assert_eq!(char_from_utf8_u32(0xE282AC << 8), Some('€'));
}

#[test]
fn char_from_packed_four_bytes() {
    assert_eq!(char_from_utf8_u32(0xF09F9880), Some('😀'));
}

#[test]
fn char_from_invalid_leading_byte() {
    assert_eq!(char_from_utf8_u32(0x00_00_00_01), None);
    assert_eq!(char_from_utf8_u32(0xFF_00_00_00), None);
}
