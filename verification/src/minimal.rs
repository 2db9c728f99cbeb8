//! A smaller driver for the same board. It keeps no shadow registers,
//! always talks to the older backlight controller, reports the transport's
//! error as it is, and wraps printed text at sixteen columns.

use vstd::prelude::*;
use vstd::string::StringSliceAdditionalSpecFns;

use crate::backlight::{colour_plan, register_frame, BacklightVariant, RGB_ADDRESS};
use crate::bus::{Bus, Delay};
use crate::history::{lemma_ran_step, ran, refusal, Step};
use crate::link::Link;
use crate::protocol::{
    command_frame, data_frame, CONTROL_COMMAND, CONTROL_DATA, LCD_ADDRESS, LCD_CLEARDISPLAY,
    LCD_SETDDRAMADDR,
};

verus! {

/// The number of columns after which printed text moves to the second row.
pub const COLUMNS: u8 = 16;

/// The line feed, which moves printed text to the second row.
pub const NEWLINE: u8 = 0x0A;

/// The command that moves the cursor to column `col` of row `row`, where
/// the second row begins 0x40 cells after the first.
pub open spec fn position_command(col: u8, row: u8) -> u8 {
    LCD_SETDDRAMADDR | ((col + if row == 0 {
        0x00
    } else {
        0x40int
    }) as u8)
}

/// The steps that bring the board up: the backlight controller's modes
/// and outputs, the display's function, oscillator, contrast and follower
/// settings, the 200 ms that the supply needs to settle, then normal
/// instructions, display on, and clear with its wait.
pub open spec fn init_plan<E>() -> Seq<Step<E>> {
    seq![
        register_frame(RGB_ADDRESS, 0x00, 0x00),
        register_frame(RGB_ADDRESS, 0x01, 0x00),
        register_frame(RGB_ADDRESS, 0x08, 0xAA),
        command_frame(0x38),
        command_frame(0x39),
        command_frame(0x14),
        command_frame(0x70),
        command_frame(0x56),
        command_frame(0x6C),
        Step::wait_ms(200),
        command_frame(0x38),
        command_frame(0x0C),
        command_frame(LCD_CLEARDISPLAY),
        Step::wait_ms(2),
    ]
}

/// The steps that print `bytes` when the cursor is `col` cells into a row.
/// A line feed is not sent: it moves the cursor to the start of the second
/// row. Any other byte is sent as data, and when that fills the sixteenth
/// column the cursor moves to the start of the second row as well.
pub open spec fn wrapped_plan<E>(bytes: Seq<u8>, col: int) -> Seq<Step<E>>
    decreases bytes.len(),
{
    if bytes.len() == 0 {
        Seq::empty()
    } else if bytes[0] == NEWLINE {
        seq![command_frame(position_command(0, 1))] + wrapped_plan(bytes.drop_first(), 0)
    } else if col + 1 >= COLUMNS {
        seq![data_frame(bytes[0]), command_frame(position_command(0, 1))] + wrapped_plan(
            bytes.drop_first(),
            0,
        )
    } else {
        seq![data_frame(bytes[0])] + wrapped_plan(bytes.drop_first(), col + 1)
    }
}

/// Minimal driver of a Grove LCD with RGB backlight on the bus `B`, with
/// the delay source `D`.
pub struct GroveLcdRgb<B: Bus, D: Delay> {
    link: Link<B, D>,
}

impl<B: Bus, D: Delay> GroveLcdRgb<B, D> {
    /// Everything the driver has done with its bus and its delay source,
    /// oldest first.
    pub closed spec fn history(&self) -> Seq<Step<B::Error>> {
        self.link.history()
    }

    /// The bus the driver holds.
    pub closed spec fn bus(&self) -> B {
        self.link.bus()
    }

    /// The delay source the driver holds.
    pub closed spec fn delay(&self) -> D {
        self.link.delay()
    }

    /// Takes the bus and the delay source and brings the board up. The
    /// driver is handed out only if every step of [`init_plan`] went through.
    /// Otherwise the run of the plan stopped at the write that the transport
    /// refused, the error of that write comes back, and the bus and the delay
    /// source are dropped.
    pub fn new(i2c: B, delay: D) -> (r: Result<Self, B::Error>)
        ensures
            r matches Ok(lcd) ==> lcd.history() == init_plan::<B::Error>(),
            r matches Err(e) ==> exists|history: Seq<Step<B::Error>>|
                ran(Seq::empty(), history, init_plan(), Some(e)),
    {
        let mut lcd = GroveLcdRgb { link: Link::new(i2c, delay) };
        let brought_up = lcd.init();
        assert(brought_up is Ok ==> lcd.history() =~= init_plan::<B::Error>());
        let ghost history = lcd.history();
        let r = lcd.handed_out(brought_up);
        assert(r matches Err(e) ==> ran(
            Seq::empty(),
            history,
            init_plan::<B::Error>(),
            Some(e),
        ));
        r
    }

    /// Decides what [`GroveLcdRgb::new`] returns once the board has been
    /// brought up with the outcome `brought_up`: the driver itself if every
    /// step went through, and otherwise the very error with which the transport
    /// refused a write, the driver being dropped.
    fn handed_out(self, brought_up: Result<(), B::Error>) -> (r: Result<Self, B::Error>)
        ensures
            brought_up is Ok ==> r == Ok::<Self, B::Error>(self),
            brought_up matches Err(e) ==> r == Err::<Self, B::Error>(e),
    {
        match brought_up {
            Ok(()) => Ok(self),
            Err(e) => Err(e),
        }
    }

    /// Sends one command byte to the display.
    fn lcd_command(&mut self, cmd: u8) -> (r: Result<(), B::Error>)
        ensures
            ran(old(self).history(), final(self).history(), seq![command_frame(cmd)], refusal(r)),
    {
        self.link.write_pair(LCD_ADDRESS, CONTROL_COMMAND, cmd)
    }

    /// Sends one byte of display data.
    fn lcd_write_char(&mut self, ch: u8) -> (r: Result<(), B::Error>)
        ensures
            ran(old(self).history(), final(self).history(), seq![data_frame(ch)], refusal(r)),
    {
        self.link.write_pair(LCD_ADDRESS, CONTROL_DATA, ch)
    }

    /// Sets one register of the backlight controller.
    fn rgb_write(&mut self, reg: u8, value: u8) -> (r: Result<(), B::Error>)
        ensures
            ran(
                old(self).history(),
                final(self).history(),
                seq![register_frame(RGB_ADDRESS, reg, value)],
                refusal(r),
            ),
    {
        self.link.write_pair(RGB_ADDRESS, reg, value)
    }

    /// Brings the board up.
    fn init(&mut self) -> (r: Result<(), B::Error>)
        ensures
            ran(old(self).history(), final(self).history(), init_plan(), refusal(r)),
    {
        let ghost before = self.history();
        let ghost plan = init_plan::<B::Error>();
        assert(self.history() =~= before + plan.take(0));
        if let Err(e) = self.register_step(0x00, 0x00, Ghost(before), Ghost(plan), Ghost(0)) {
            return Err(e);
        }
        if let Err(e) = self.register_step(0x01, 0x00, Ghost(before), Ghost(plan), Ghost(1)) {
            return Err(e);
        }
        if let Err(e) = self.register_step(0x08, 0xAA, Ghost(before), Ghost(plan), Ghost(2)) {
            return Err(e);
        }
        if let Err(e) = self.command_step(0x38, Ghost(before), Ghost(plan), Ghost(3)) {
            return Err(e);
        }
        if let Err(e) = self.command_step(0x39, Ghost(before), Ghost(plan), Ghost(4)) {
            return Err(e);
        }
        if let Err(e) = self.command_step(0x14, Ghost(before), Ghost(plan), Ghost(5)) {
            return Err(e);
        }
        if let Err(e) = self.command_step(0x70, Ghost(before), Ghost(plan), Ghost(6)) {
            return Err(e);
        }
        if let Err(e) = self.command_step(0x56, Ghost(before), Ghost(plan), Ghost(7)) {
            return Err(e);
        }
        if let Err(e) = self.command_step(0x6C, Ghost(before), Ghost(plan), Ghost(8)) {
            return Err(e);
        }
        self.link.delay_ms(200);
        assert(self.history() =~= before + plan.take(10));
        if let Err(e) = self.command_step(0x38, Ghost(before), Ghost(plan), Ghost(10)) {
            return Err(e);
        }
        if let Err(e) = self.command_step(0x0C, Ghost(before), Ghost(plan), Ghost(11)) {
            return Err(e);
        }
        if let Err(e) = self.command_step(LCD_CLEARDISPLAY, Ghost(before), Ghost(plan), Ghost(12)) {
            return Err(e);
        }
        self.link.delay_ms(2);
        assert(self.history() =~= before + plan);
        Ok(())
    }

    /// Sends the command `cmd` as step `index` of `plan`, of which the steps
    /// before it are behind since `before`.
    fn command_step(
        &mut self,
        cmd: u8,
        Ghost(before): Ghost<Seq<Step<B::Error>>>,
        Ghost(plan): Ghost<Seq<Step<B::Error>>>,
        Ghost(index): Ghost<int>,
    ) -> (r: Result<(), B::Error>)
        requires
            0 <= index < plan.len(),
            plan[index] == command_frame::<B::Error>(cmd),
            old(self).history() == before + plan.take(index),
        ensures
            r is Ok ==> final(self).history() == before + plan.take(index + 1),
            r is Err ==> ran(before, final(self).history(), plan, refusal(r)),
    {
        let r = self.lcd_command(cmd);
        proof {
            lemma_ran_step(before, old(self).history(), self.history(), plan, index, refusal(r));
        }
        r
    }

    /// Sends the data byte `ch` as step `index` of `plan`, of which the steps
    /// before it are behind since `before`.
    fn char_step(
        &mut self,
        ch: u8,
        Ghost(before): Ghost<Seq<Step<B::Error>>>,
        Ghost(plan): Ghost<Seq<Step<B::Error>>>,
        Ghost(index): Ghost<int>,
    ) -> (r: Result<(), B::Error>)
        requires
            0 <= index < plan.len(),
            plan[index] == data_frame::<B::Error>(ch),
            old(self).history() == before + plan.take(index),
        ensures
            r is Ok ==> final(self).history() == before + plan.take(index + 1),
            r is Err ==> ran(before, final(self).history(), plan, refusal(r)),
    {
        let r = self.lcd_write_char(ch);
        proof {
            lemma_ran_step(before, old(self).history(), self.history(), plan, index, refusal(r));
        }
        r
    }

    /// Sets a backlight register as step `index` of `plan`, of which the
    /// steps before it are behind since `before`.
    fn register_step(
        &mut self,
        reg: u8,
        value: u8,
        Ghost(before): Ghost<Seq<Step<B::Error>>>,
        Ghost(plan): Ghost<Seq<Step<B::Error>>>,
        Ghost(index): Ghost<int>,
    ) -> (r: Result<(), B::Error>)
        requires
            0 <= index < plan.len(),
            plan[index] == register_frame::<B::Error>(RGB_ADDRESS, reg, value),
            old(self).history() == before + plan.take(index),
        ensures
            r is Ok ==> final(self).history() == before + plan.take(index + 1),
            r is Err ==> ran(before, final(self).history(), plan, refusal(r)),
    {
        let r = self.rgb_write(reg, value);
        proof {
            lemma_ran_step(before, old(self).history(), self.history(), plan, index, refusal(r));
        }
        r
    }

    /// Clears the display and waits the 2 ms that the controller needs for
    /// it. If the command is refused the wait is skipped.
    pub fn clear(&mut self) -> (r: Result<(), B::Error>)
        ensures
            ran(
                old(self).history(),
                final(self).history(),
                seq![command_frame(LCD_CLEARDISPLAY), Step::wait_ms(2)],
                refusal(r),
            ),
    {
        let ghost before = self.history();
        let ghost plan = seq![
            command_frame::<B::Error>(LCD_CLEARDISPLAY),
            Step::wait_ms(2),
        ];
        assert(self.history() =~= before + plan.take(0));
        if let Err(e) = self.command_step(LCD_CLEARDISPLAY, Ghost(before), Ghost(plan), Ghost(0)) {
            return Err(e);
        }
        self.link.delay_ms(2);
        assert(self.history() =~= before + plan);
        Ok(())
    }

    /// Moves the cursor to column `col` of row `row`. There are two rows,
    /// and the cell must have an address that fits the command.
    pub fn set_cursor(&mut self, col: u8, row: u8) -> (r: Result<(), B::Error>)
        requires
            row < 2,
            col + row * 0x40 <= u8::MAX,
        ensures
            ran(
                old(self).history(),
                final(self).history(),
                seq![command_frame(position_command(col, row))],
                refusal(r),
            ),
    {
        let row_offsets: [u8; 2] = [0x00, 0x40];
        let offset: u8 = col + row_offsets[row as usize];
        self.lcd_command(LCD_SETDDRAMADDR | offset)
    }

    /// Prints `text` from the start of the first row, byte by byte of its
    /// UTF-8 form. A line feed, or a row filled to its sixteenth column, moves
    /// the cursor to the start of the second row. The first refused write ends
    /// the operation.
    pub fn print(&mut self, text: &str) -> (r: Result<(), B::Error>)
        ensures
            ran(
                old(self).history(),
                final(self).history(),
                wrapped_plan(text.spec_bytes(), 0),
                refusal(r),
            ),
    {
        let bytes = text.as_bytes();
        let ghost before = self.history();
        let ghost plan = wrapped_plan::<B::Error>(bytes@, 0);
        let ghost mut done: int = 0;
        let mut col: u8 = 0;
        let mut row: u8 = 0;
        let mut i: usize = 0;
        assert(self.history() =~= before + plan.take(0));
        assert(plan.skip(0) =~= plan);
        assert(bytes@.skip(0) =~= bytes@);
        while i < bytes.len()
            invariant
                before == old(self).history(),
                plan == wrapped_plan::<B::Error>(bytes@, 0),
                bytes@ == text.spec_bytes(),
                0 <= i <= bytes.len(),
                0 <= done <= plan.len(),
                col < COLUMNS,
                row < 2,
                self.history() == before + plan.take(done),
                plan.skip(done) == wrapped_plan::<B::Error>(bytes@.skip(i as int), col as int),
            decreases bytes.len() - i,
        {
            let b: u8 = bytes[i];
            proof {
                assert(bytes@.skip(i as int).drop_first() =~= bytes@.skip(i + 1));
                assert(bytes@.skip(i as int)[0] == b);
                let rest = wrapped_plan::<B::Error>(bytes@.skip(i + 1), 0);
                let next = wrapped_plan::<B::Error>(bytes@.skip(i + 1), col + 1);
                if b == NEWLINE {
                    let head = seq![command_frame::<B::Error>(position_command(0, 1))];
                    assert(plan.skip(done) == head + rest);
                    assert(plan[done] == plan.skip(done)[0]);
                    assert(plan.skip(done + 1) =~= plan.skip(done).skip(1));
                    assert((head + rest).skip(1) =~= rest);
                } else if col + 1 >= COLUMNS {
                    let head = seq![
                        data_frame::<B::Error>(b),
                        command_frame::<B::Error>(position_command(0, 1)),
                    ];
                    assert(plan.skip(done) == head + rest);
                    assert(plan[done] == plan.skip(done)[0]);
                    assert(plan[done + 1] == plan.skip(done)[1]);
                    assert(plan.skip(done + 2) =~= plan.skip(done).skip(2));
                    assert((head + rest).skip(2) =~= rest);
                } else {
                    let head = seq![data_frame::<B::Error>(b)];
                    assert(plan.skip(done) == head + next);
                    assert(plan[done] == plan.skip(done)[0]);
                    assert(plan.skip(done + 1) =~= plan.skip(done).skip(1));
                    assert((head + next).skip(1) =~= next);
                }
            }
            if b == NEWLINE {
                row = if row + 1 < 1 {
                    row + 1
                } else {
                    1
                };
                col = 0;
                let moved = self.cursor_step(col, row, Ghost(before), Ghost(plan), Ghost(done));
                if let Err(e) = moved {
                    return Err(e);
                }
                proof {
                    done = done + 1;
                }
                i += 1;
                continue ;
            }
            if let Err(e) = self.char_step(b, Ghost(before), Ghost(plan), Ghost(done)) {
                return Err(e);
            }
            proof {
                done = done + 1;
            }
            col += 1;
            if col >= COLUMNS {
                row = if row + 1 < 1 {
                    row + 1
                } else {
                    1
                };
                col = 0;
                let moved = self.cursor_step(col, row, Ghost(before), Ghost(plan), Ghost(done));
                if let Err(e) = moved {
                    return Err(e);
                }
                proof {
                    done = done + 1;
                }
            }
            i += 1;
        }
        assert(plan.skip(done).len() == 0);
        assert(plan.take(done) =~= plan);
        Ok(())
    }

    /// Moves the cursor as step `index` of `plan`, of which the steps before
    /// it are behind since `before`.
    fn cursor_step(
        &mut self,
        col: u8,
        row: u8,
        Ghost(before): Ghost<Seq<Step<B::Error>>>,
        Ghost(plan): Ghost<Seq<Step<B::Error>>>,
        Ghost(index): Ghost<int>,
    ) -> (r: Result<(), B::Error>)
        requires
            row < 2,
            col + row * 0x40 <= u8::MAX,
            0 <= index < plan.len(),
            plan[index] == command_frame::<B::Error>(position_command(col, row)),
            old(self).history() == before + plan.take(index),
        ensures
            r is Ok ==> final(self).history() == before + plan.take(index + 1),
            r is Err ==> ran(before, final(self).history(), plan, refusal(r)),
    {
        let r = self.set_cursor(col, row);
        proof {
            lemma_ran_step(before, old(self).history(), self.history(), plan, index, refusal(r));
        }
        r
    }

    /// Sets the backlight colour with three register writes: red, green,
    /// blue. The first refused write ends the operation.
    pub fn set_rgb(&mut self, r: u8, g: u8, b: u8) -> (result: Result<(), B::Error>)
        ensures
            ran(
                old(self).history(),
                final(self).history(),
                colour_plan(BacklightVariant::V4, r, g, b),
                refusal(result),
            ),
    {
        let ghost before = self.history();
        let ghost plan = colour_plan::<B::Error>(BacklightVariant::V4, r, g, b);
        assert(self.history() =~= before + plan.take(0));
        if let Err(e) = self.register_step(0x04, r, Ghost(before), Ghost(plan), Ghost(0)) {
            return Err(e);
        }
        if let Err(e) = self.register_step(0x03, g, Ghost(before), Ghost(plan), Ghost(1)) {
            return Err(e);
        }
        let last = self.register_step(0x02, b, Ghost(before), Ghost(plan), Ghost(2));
        assert(plan.take(3) =~= plan);
        last
    }

    /// Switches the display on, without cursor or blinking.
    pub fn display_on(&mut self) -> (r: Result<(), B::Error>)
        ensures
            ran(old(self).history(), final(self).history(), seq![command_frame(0x0C)], refusal(r)),
    {
        self.lcd_command(0x0C)
    }

    /// Switches the display off.
    pub fn display_off(&mut self) -> (r: Result<(), B::Error>)
        ensures
            ran(old(self).history(), final(self).history(), seq![command_frame(0x08)], refusal(r)),
    {
        self.lcd_command(0x08)
    }

    /// Hands the bus and the delay source back. Nothing is sent.
    pub fn free(self) -> (parts: (B, D))
        ensures
            parts.0 == self.bus(),
            parts.1 == self.delay(),
    {
        self.link.release()
    }
}

} // verus!
