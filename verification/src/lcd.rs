//! The driver of an HD44780 character display behind an I2C port expander.
//!
//! The expander maps one byte to the pins of the display, from the highest
//! bit down: D7 D6 D5 D4, backlight, enable, read/write, register select. The
//! display is driven in 4-bit mode, so each byte goes out as two halves.
//!
//! The driver decides which bytes go over the bus and how long to wait
//! between them; the caller owns the bus and the clock, and performs these
//! steps in order.

use vstd::prelude::*;
use crate::renderer::{DisplayWrite, WriteModel};
use crate::text::chars_of;

verus! {

/// The bit of the expander that latches a half byte into the display.
pub const EN: u8 = 0b0000_0100;

/// The bit of the expander that keeps the backlight on.
pub const BL: u8 = 0b0000_1000;

/// The command that sets the address of the cursor.
pub const LCD_SETDDRAMADDR: u8 = 0x80;

/// The command that clears the display.
pub const LCD_CLEARDISPLAY: u8 = 0x01;

/// The geometry of a display.
#[derive(Debug, Clone, Copy, PartialEq, Eq, Structural)]
pub enum LcdGeometry {
    /// Two rows of sixteen columns.
    L1602,
    /// Four rows of twenty columns.
    L2004,
}

impl LcdGeometry {
    /// The number of rows.
    pub open spec fn spec_rows(self) -> nat {
        match self {
            LcdGeometry::L1602 => 2,
            LcdGeometry::L2004 => 4,
        }
    }

    /// The number of columns.
    pub open spec fn spec_columns(self) -> nat {
        match self {
            LcdGeometry::L1602 => 16,
            LcdGeometry::L2004 => 20,
        }
    }

    /// The address in the memory of the display at which the row `row` starts.
    pub open spec fn spec_offset(self, row: nat) -> nat {
        if row == 0 {
            0x00
        } else if row == 1 {
            0x40
        } else if row == 2 {
            0x14
        } else {
            0x54
        }
    }

    /// The number of rows.
    pub fn rows(self) -> (n: u8)
        ensures
            n == self.spec_rows(),
    {
        match self {
            LcdGeometry::L1602 => 2,
            LcdGeometry::L2004 => 4,
        }
    }

    /// The number of columns.
    pub fn columns(self) -> (n: u8)
        ensures
            n == self.spec_columns(),
    {
        match self {
            LcdGeometry::L1602 => 16,
            LcdGeometry::L2004 => 20,
        }
    }

    /// The address at which the row `row` starts.
    fn offset(self, row: u8) -> (address: u8)
        requires
            row < self.spec_rows(),
        ensures
            address == self.spec_offset(row as nat),
    {
        if row == 0 {
            0x00
        } else if row == 1 {
            0x40
        } else if row == 2 {
            0x14
        } else {
            0x54
        }
    }
}

/// One step of the driver on the bus.
#[derive(Debug, Clone, Copy, PartialEq, Eq, Structural)]
pub enum BusStep {
    /// Write this byte to the expander.
    Write(u8),
    /// Wait for this many microseconds.
    Wait(u32),
}

/// The steps that hand one half byte to the display: the byte with the half
/// in its upper four bits is put on the pins, then the enable bit is raised
/// for a microsecond and lowered for fifty.
pub open spec fn write_4_bits_steps(value: u8) -> Seq<BusStep> {
    seq![
        BusStep::Write(value),
        BusStep::Write(value | EN),
        BusStep::Wait(1),
        BusStep::Write(value & !EN),
        BusStep::Wait(50),
    ]
}

/// The steps that send the byte `value`: its upper half, then its lower
/// half, each with the bits of `mode` and with the backlight on.
pub open spec fn send_steps(value: u8, mode: u8) -> Seq<BusStep> {
    write_4_bits_steps((value & 0xF0) | mode | BL) + write_4_bits_steps(((value << 4) & 0xF0) | mode | BL)
}

/// The steps that bring the display into 4-bit mode, whatever mode it was in.
pub open spec fn set_4_bits_mode_steps() -> Seq<BusStep> {
    write_4_bits_steps(0x30) + seq![BusStep::Wait(4500)] + write_4_bits_steps(0x30) + seq![
        BusStep::Wait(4500),
    ] + write_4_bits_steps(0x30) + seq![BusStep::Wait(150)] + write_4_bits_steps(0x20) + seq![
        BusStep::Wait(1000),
    ]
}

/// The steps that set the display up: 4-bit mode; two lines; display off;
/// clear; entry mode; display on.
pub open spec fn init_steps() -> Seq<BusStep> {
    set_4_bits_mode_steps() + seq![BusStep::Wait(5000)] + send_steps(0x28, 0) + send_steps(0x08, 0)
        + send_steps(0x01, 0) + seq![BusStep::Wait(2000)] + send_steps(0x06, 0) + send_steps(
        0x0C,
        0,
    )
}

/// What the driver knows of the display, as a mathematical value.
pub struct LcdModel {
    pub i2c_addr: u8,
    pub geom: LcdGeometry,
    pub row: u8,
    pub col: u8,
}

impl LcdModel {
    /// Whether the cursor can be set to the column `col` of the row `row`:
    /// the row exists, and the column added to the address at which the row
    /// starts is an address that one byte holds. The column may lie past the
    /// last one of the row: the display has memory there.
    pub open spec fn reaches(self, row: u8, col: u8) -> bool {
        row < self.geom.spec_rows() && col + self.geom.spec_offset(row as nat) <= u8::MAX
    }

    /// The steps that set the cursor to the column `col` of the row `row`;
    /// none where the cursor cannot be set there.
    pub open spec fn set_cursor_steps(self, row: u8, col: u8) -> Seq<BusStep> {
        if self.reaches(row, col) {
            send_steps(LCD_SETDDRAMADDR | ((col + self.geom.spec_offset(row as nat)) as u8), 0)
        } else {
            Seq::empty()
        }
    }

    /// What is known after the cursor has been set to the column `col` of the
    /// row `row`: the cursor is there, or where it was if it cannot be set there.
    pub open spec fn set_cursor(self, row: u8, col: u8) -> LcdModel {
        if self.reaches(row, col) {
            LcdModel { row, col, ..self }
        } else {
            self
        }
    }

    /// The steps that print the character `c` and move the cursor: a line
    /// feed sets the cursor to the start of the next row; any other character
    /// is written where the cursor stands, as its lowest eight bits, and the
    /// cursor is set one column further, also past the last column of the
    /// row. The cursor stays where it cannot be set: on the last row at a line
    /// feed, and where the next column has no address.
    pub open spec fn print_char_steps(self, c: char) -> Seq<BusStep> {
        if c == '\n' {
            if self.row < u8::MAX {
                self.set_cursor_steps((self.row + 1) as u8, 0)
            } else {
                Seq::empty()
            }
        } else {
            send_steps(c as u8, 1) + if self.col < u8::MAX {
                self.set_cursor_steps(self.row, (self.col + 1) as u8)
            } else {
                Seq::empty()
            }
        }
    }

    /// What is known after the character `c` has been printed.
    pub open spec fn print_char(self, c: char) -> LcdModel {
        if c == '\n' {
            if self.row < u8::MAX {
                self.set_cursor((self.row + 1) as u8, 0)
            } else {
                self
            }
        } else if self.col < u8::MAX {
            self.set_cursor(self.row, (self.col + 1) as u8)
        } else {
            self
        }
    }

    /// The steps that print the characters `text`, one after the other.
    pub open spec fn print_steps(self, text: Seq<char>) -> Seq<BusStep>
        decreases text.len(),
    {
        if text.len() == 0 {
            Seq::empty()
        } else {
            self.print_steps(text.drop_last()) + self.print(text.drop_last()).print_char_steps(
                text.last(),
            )
        }
    }

    /// What is known after the characters `text` have been printed.
    pub open spec fn print(self, text: Seq<char>) -> LcdModel
        decreases text.len(),
    {
        if text.len() == 0 {
            self
        } else {
            self.print(text.drop_last()).print_char(text.last())
        }
    }

    /// The steps that clear the display and bring the cursor to the origin.
    pub open spec fn clear_steps(self) -> Seq<BusStep> {
        send_steps(LCD_CLEARDISPLAY, 0) + seq![BusStep::Wait(2000)] + self.set_cursor_steps(0, 0)
    }
}

impl LcdModel {
    /// The steps that perform `write`: for a row, the cursor is set to the
    /// start of the row and the text is printed; for a status text, the
    /// display is cleared and the text is printed from the origin. A row that
    /// the display does not have takes no step.
    pub open spec fn show_steps(self, write: WriteModel) -> Seq<BusStep> {
        match write {
            WriteModel::Message(text) => self.clear_steps() + self.set_cursor(0, 0).print_steps(text),
            WriteModel::Row { row, text } => if row < self.geom.spec_rows() {
                self.set_cursor_steps(row as u8, 0) + self.set_cursor(row as u8, 0).print_steps(text)
            } else {
                Seq::empty()
            },
        }
    }

    /// What is known after `write` has been performed.
    pub open spec fn show(self, write: WriteModel) -> LcdModel {
        match write {
            WriteModel::Message(text) => self.set_cursor(0, 0).print(text),
            WriteModel::Row { row, text } => if row < self.geom.spec_rows() {
                self.set_cursor(row as u8, 0).print(text)
            } else {
                self
            },
        }
    }
}

/// Appends to `steps` the steps that hand one half byte to the display.
fn write_4_bits(steps: &mut Vec<BusStep>, value: u8)
    ensures
        final(steps)@ == old(steps)@ + write_4_bits_steps(value),
{
    steps.push(BusStep::Write(value));
    steps.push(BusStep::Write(value | EN));
    steps.push(BusStep::Wait(1));
    steps.push(BusStep::Write(value & !EN));
    steps.push(BusStep::Wait(50));
}

/// Appends to `steps` the steps that send the byte `value` in the mode `mode`.
fn send(steps: &mut Vec<BusStep>, value: u8, mode: u8)
    ensures
        final(steps)@ == old(steps)@ + send_steps(value, mode),
{
    let highnib: u8 = value & 0xF0;
    let lownib: u8 = (value << 4) & 0xF0;
    write_4_bits(steps, highnib | mode | BL);
    write_4_bits(steps, lownib | mode | BL);
}

/// Appends to `steps` a wait of `micros` microseconds.
fn wait(steps: &mut Vec<BusStep>, micros: u32)
    ensures
        final(steps)@ == old(steps)@ + seq![BusStep::Wait(micros)],
{
    steps.push(BusStep::Wait(micros));
}

/// The driver of one display: where it sits on the bus, its geometry, and
/// where its cursor stands.
#[derive(Debug)]
pub struct Lcd {
    i2c_addr: u8,
    geom: LcdGeometry,
    curr_row: u8,
    curr_col: u8,
}

impl View for Lcd {
    type V = LcdModel;

    closed spec fn view(&self) -> LcdModel {
        LcdModel { i2c_addr: self.i2c_addr, geom: self.geom, row: self.curr_row, col: self.curr_col }
    }
}

impl Lcd {
    /// The driver of the display of geometry `geom` at the bus address
    /// `i2c_addr`, with the cursor at the origin.
    pub fn new(i2c_addr: u8, geom: LcdGeometry) -> (lcd: Self)
        ensures
            lcd@ == (LcdModel { i2c_addr, geom, row: 0, col: 0 }),
    {
        Lcd { i2c_addr, geom, curr_row: 0, curr_col: 0 }
    }

    /// The bus address of the display.
    pub fn address(&self) -> (address: u8)
        ensures
            address == self@.i2c_addr,
    {
        self.i2c_addr
    }

    /// The geometry of the display.
    pub fn geometry(&self) -> (geom: LcdGeometry)
        ensures
            geom == self@.geom,
    {
        self.geom
    }

    /// Where the cursor stands: its row and its column.
    pub fn cursor(&self) -> (at: (u8, u8))
        ensures
            at == (self@.row, self@.col),
    {
        (self.curr_row, self.curr_col)
    }

    /// The steps that set the display up. They are to be performed before any
    /// others.
    pub fn init(&self) -> (steps: Vec<BusStep>)
        ensures
            steps@ == init_steps(),
    {
        let mut steps: Vec<BusStep> = Vec::new();
        self.set_4_bits_mode(&mut steps);
        wait(&mut steps, 5000);
        send(&mut steps, 0x28, 0);
        send(&mut steps, 0x08, 0);
        send(&mut steps, 0x01, 0);
        wait(&mut steps, 2000);
        send(&mut steps, 0x06, 0);
        send(&mut steps, 0x0C, 0);
        steps
    }

    /// Appends to `steps` the steps that bring the display into 4-bit mode.
    fn set_4_bits_mode(&self, steps: &mut Vec<BusStep>)
        ensures
            final(steps)@ == old(steps)@ + set_4_bits_mode_steps(),
    {
        write_4_bits(steps, 0x03 << 4);
        wait(steps, 4500);
        write_4_bits(steps, 0x03 << 4);
        wait(steps, 4500);
        write_4_bits(steps, 0x03 << 4);
        wait(steps, 150);
        write_4_bits(steps, 0x02 << 4);
        wait(steps, 1000);
        assert(0x03u8 << 4 == 0x30u8 && 0x02u8 << 4 == 0x20u8) by (bit_vector);
    }

    /// Appends to `steps` the steps that set the cursor, and remembers where
    /// it then stands.
    fn move_cursor(&mut self, steps: &mut Vec<BusStep>, row: u8, col: u8)
        ensures
            final(steps)@ == old(steps)@ + old(self)@.set_cursor_steps(row, col),
            final(self)@ == old(self)@.set_cursor(row, col),
    {
        if row < self.geom.rows() {
            let offset: u8 = self.geom.offset(row);
            if col <= u8::MAX - offset {
                send(steps, LCD_SETDDRAMADDR | (col + offset), 0);
                self.curr_row = row;
                self.curr_col = col;
            }
        }
    }

    /// Appends to `steps` the steps that print `c`, and remembers where the
    /// cursor then stands.
    fn print_char(&mut self, steps: &mut Vec<BusStep>, c: char)
        ensures
            final(steps)@ == old(steps)@ + old(self)@.print_char_steps(c),
            final(self)@ == old(self)@.print_char(c),
    {
        if c == '\n' {
            if self.curr_row < u8::MAX {
                self.move_cursor(steps, self.curr_row + 1, 0);
            }
        } else {
            send(steps, c as u8, 1);
            if self.curr_col < u8::MAX {
                self.move_cursor(steps, self.curr_row, self.curr_col + 1);
            }
        }
    }

    /// The steps that set the cursor to the column `col` of the row `row`,
    /// counted from 0. A row that the display does not have, or a column
    /// whose address one byte does not hold, takes no step and leaves the
    /// cursor where it is.
    pub fn set_cursor(&mut self, row: u8, col: u8) -> (steps: Vec<BusStep>)
        ensures
            steps@ == old(self)@.set_cursor_steps(row, col),
            final(self)@ == old(self)@.set_cursor(row, col),
    {
        let mut steps: Vec<BusStep> = Vec::new();
        self.move_cursor(&mut steps, row, col);
        steps
    }

    /// The steps that write the character `c` where the cursor stands: its
    /// lowest eight bits go to the display as data.
    pub fn putc(&self, c: char) -> (steps: Vec<BusStep>)
        ensures
            steps@ == send_steps(c as u8, 1),
    {
        let mut steps: Vec<BusStep> = Vec::new();
        send(&mut steps, c as u8, 1);
        steps
    }

    /// The steps that print the characters `text` from where the cursor stands.
    pub fn print_chars(&mut self, text: &Vec<char>) -> (steps: Vec<BusStep>)
        ensures
            steps@ == old(self)@.print_steps(text@),
            final(self)@ == old(self)@.print(text@),
    {
        let mut steps: Vec<BusStep> = Vec::new();
        let mut i: usize = 0;
        while i < text.len()
            invariant
                i <= text.len(),
                steps@ == old(self)@.print_steps(text@.take(i as int)),
                self@ == old(self)@.print(text@.take(i as int)),
            decreases text.len() - i,
        {
            assert(text@.take(i + 1).drop_last() == text@.take(i as int));
            self.print_char(&mut steps, text[i]);
            i += 1;
        }
        assert(text@.take(text@.len() as int) == text@);
        steps
    }

    /// The steps that print `text` from where the cursor stands.
    pub fn print(&mut self, text: &str) -> (steps: Vec<BusStep>)
        ensures
            steps@ == old(self)@.print_steps(text@),
            final(self)@ == old(self)@.print(text@),
    {
        let chars = chars_of(text);
        self.print_chars(&chars)
    }

    /// The steps that perform `write`, as `LcdModel::show_steps` says.
    pub fn show(&mut self, write: &DisplayWrite) -> (steps: Vec<BusStep>)
        ensures
            steps@ == old(self)@.show_steps(write@),
            final(self)@ == old(self)@.show(write@),
    {
        match write {
            DisplayWrite::Message(text) => {
                let mut steps = self.clear();
                let mut more = self.print_chars(text.as_chars());
                steps.append(&mut more);
                steps
            },
            DisplayWrite::Row { row, text } => {
                if *row < self.geom.rows() {
                    let mut steps = self.set_cursor(*row, 0);
                    let mut more = self.print_chars(text.as_chars());
                    steps.append(&mut more);
                    steps
                } else {
                    Vec::new()
                }
            },
        }
    }

    /// The steps that clear the display and bring the cursor to the origin.
    pub fn clear(&mut self) -> (steps: Vec<BusStep>)
        ensures
            steps@ == old(self)@.clear_steps(),
            final(self)@ == old(self)@.set_cursor(0, 0),
    {
        let mut steps: Vec<BusStep> = Vec::new();
        send(&mut steps, LCD_CLEARDISPLAY, 0);
        wait(&mut steps, 2000);
        self.move_cursor(&mut steps, 0, 0);
        steps
    }
}

} // verus!
