use next_tramway::lcd::{BusStep, Lcd, LcdGeometry};
use next_tramway::renderer::DisplayWrite;
use next_tramway::text::BoundedString;

fn half(value: u8) -> Vec<BusStep> {
    vec![
        BusStep::Write(value),
        BusStep::Write(value | 0x04),
        BusStep::Wait(1),
        BusStep::Write(value & 0xFB),
        BusStep::Wait(50),
    ]
}

fn byte(value: u8, mode: u8) -> Vec<BusStep> {
    let mut steps = half((value & 0xF0) | mode | 0x08);
    steps.extend(half((value << 4) | mode | 0x08));
    steps
}

#[test]
fn a_character_goes_out_as_two_halves() {
    let lcd = Lcd::new(0x27, LcdGeometry::L2004);
    assert_eq!(
        lcd.putc('A'),
        vec![
            BusStep::Write(0x49),
            BusStep::Write(0x4D),
            BusStep::Wait(1),
            BusStep::Write(0x49),
            BusStep::Wait(50),
            BusStep::Write(0x19),
            BusStep::Write(0x1D),
            BusStep::Wait(1),
            BusStep::Write(0x19),
            BusStep::Wait(50),
        ]
    );
    assert_eq!(lcd.putc('é'), byte(0xE9, 1));
}

#[test]
fn the_cursor_goes_to_the_address_of_its_row() {
    let mut lcd = Lcd::new(0x27, LcdGeometry::L2004);
    assert_eq!(lcd.set_cursor(0, 0), byte(0x80, 0));
    assert_eq!(lcd.set_cursor(1, 3), byte(0x80 | 0x43, 0));
    assert_eq!(lcd.set_cursor(2, 19), byte(0x80 | 0x27, 0));
    assert_eq!(lcd.set_cursor(3, 20), byte(0x80 | 0x68, 0));
    assert_eq!(lcd.cursor(), (3, 20));
}

#[test]
fn a_cursor_off_the_display_takes_no_step() {
    let mut lcd = Lcd::new(0x27, LcdGeometry::L1602);
    assert_eq!(lcd.set_cursor(1, 16), byte(0x80 | 0x50, 0));
    assert_eq!(lcd.set_cursor(2, 0), vec![]);
    assert_eq!(lcd.set_cursor(255, 255), vec![]);
    assert_eq!(lcd.set_cursor(1, 192), vec![]);
    assert_eq!(lcd.set_cursor(3, 0), vec![]);
    assert_eq!(lcd.cursor(), (1, 16));
    assert_eq!(lcd.geometry(), LcdGeometry::L1602);
    assert_eq!(lcd.address(), 0x27);
}

#[test]
fn the_cursor_may_stand_past_the_last_column() {
    let mut lcd = Lcd::new(0x27, LcdGeometry::L1602);
    assert_eq!(lcd.set_cursor(0, 17), byte(0x80 | 0x11, 0));
    assert_eq!(lcd.cursor(), (0, 17));
    assert_eq!(lcd.set_cursor(1, 191), byte(0xFF, 0));
    assert_eq!(lcd.cursor(), (1, 191));
    assert_eq!(lcd.set_cursor(0, 255), byte(0xFF, 0));
    assert_eq!(lcd.cursor(), (0, 255));
    let mut lcd = Lcd::new(0x27, LcdGeometry::L2004);
    assert_eq!(lcd.set_cursor(3, 171), byte(0xFF, 0));
    assert_eq!(lcd.set_cursor(3, 172), vec![]);
    assert_eq!(lcd.cursor(), (3, 171));
}

#[test]
fn printing_goes_on_past_the_last_column() {
    let mut lcd = Lcd::new(0x27, LcdGeometry::L2004);
    let _ = lcd.set_cursor(0, 20);
    let mut wanted = byte(b'x', 1);
    wanted.extend(byte(0x80 | 21, 0));
    wanted.extend(byte(b'y', 1));
    wanted.extend(byte(0x80 | 22, 0));
    assert_eq!(lcd.print("xy"), wanted);
    assert_eq!(lcd.cursor(), (0, 22));
}

#[test]
fn printing_at_the_last_address_sends_the_character_only() {
    let mut lcd = Lcd::new(0x27, LcdGeometry::L2004);
    let _ = lcd.set_cursor(3, 171);
    assert_eq!(lcd.print("x"), byte(b'x', 1));
    assert_eq!(lcd.cursor(), (3, 171));
    let _ = lcd.set_cursor(0, 255);
    assert_eq!(lcd.print("x"), byte(b'x', 1));
    assert_eq!(lcd.cursor(), (0, 255));
}

#[test]
fn printing_moves_the_cursor() {
    let mut lcd = Lcd::new(0x27, LcdGeometry::L2004);
    let steps = lcd.print("a\nb");
    let mut wanted = byte(b'a', 1);
    wanted.extend(byte(0x80 | 0x01, 0));
    wanted.extend(byte(0x80 | 0x40, 0));
    wanted.extend(byte(b'b', 1));
    wanted.extend(byte(0x80 | 0x41, 0));
    assert_eq!(steps, wanted);
    assert_eq!(lcd.cursor(), (1, 1));
    assert_eq!(lcd.print(""), vec![]);
}

#[test]
fn a_line_feed_on_the_last_row_stays_there() {
    let mut lcd = Lcd::new(0x27, LcdGeometry::L1602);
    let _ = lcd.set_cursor(1, 5);
    assert_eq!(lcd.print("\n"), vec![]);
    assert_eq!(lcd.cursor(), (1, 5));
}

#[test]
fn clearing_brings_the_cursor_home() {
    let mut lcd = Lcd::new(0x27, LcdGeometry::L2004);
    let _ = lcd.set_cursor(2, 7);
    let mut wanted = byte(0x01, 0);
    wanted.push(BusStep::Wait(2000));
    wanted.extend(byte(0x80, 0));
    assert_eq!(lcd.clear(), wanted);
    assert_eq!(lcd.cursor(), (0, 0));
}

#[test]
fn the_display_is_set_up_in_4_bit_mode() {
    let lcd = Lcd::new(0x27, LcdGeometry::L2004);
    let mut wanted = Vec::new();
    for (value, micros) in [(0x30u8, 4500u32), (0x30, 4500), (0x30, 150), (0x20, 1000)] {
        wanted.extend(half(value));
        wanted.push(BusStep::Wait(micros));
    }
    wanted.push(BusStep::Wait(5000));
    wanted.extend(byte(0x28, 0));
    wanted.extend(byte(0x08, 0));
    wanted.extend(byte(0x01, 0));
    wanted.push(BusStep::Wait(2000));
    wanted.extend(byte(0x06, 0));
    wanted.extend(byte(0x0C, 0));
    assert_eq!(lcd.init(), wanted);
}

#[test]
fn a_row_is_written_from_its_start() {
    let mut lcd = Lcd::new(0x27, LcdGeometry::L2004);
    let steps = lcd.show(&DisplayWrite::Row { row: 2, text: BoundedString::truncated("ok") });
    let mut wanted = byte(0x80 | 0x14, 0);
    wanted.extend(byte(b'o', 1));
    wanted.extend(byte(0x80 | 0x15, 0));
    wanted.extend(byte(b'k', 1));
    wanted.extend(byte(0x80 | 0x16, 0));
    assert_eq!(steps, wanted);
    assert_eq!(lcd.cursor(), (2, 2));
}

#[test]
fn a_row_that_the_display_lacks_is_not_written() {
    let mut lcd = Lcd::new(0x27, LcdGeometry::L1602);
    let _ = lcd.set_cursor(1, 4);
    let steps = lcd.show(&DisplayWrite::Row { row: 2, text: BoundedString::truncated("ok") });
    assert_eq!(steps, vec![]);
    assert_eq!(lcd.cursor(), (1, 4));
}

#[test]
fn a_message_is_written_on_a_cleared_display() {
    let mut lcd = Lcd::new(0x27, LcdGeometry::L2004);
    let _ = lcd.set_cursor(3, 3);
    let steps = lcd.show(&DisplayWrite::Message(BoundedString::truncated("a\nb")));
    let mut wanted = byte(0x01, 0);
    wanted.push(BusStep::Wait(2000));
    wanted.extend(byte(0x80, 0));
    wanted.extend(byte(b'a', 1));
    wanted.extend(byte(0x80 | 0x01, 0));
    wanted.extend(byte(0x80 | 0x40, 0));
    wanted.extend(byte(b'b', 1));
    wanted.extend(byte(0x80 | 0x41, 0));
    assert_eq!(steps, wanted);
}
