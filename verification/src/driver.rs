//! The display handle: the shadow of the controller's write-only registers
//! and the operations that change them and talk to the hardware.

use vstd::prelude::*;

use crate::backlight::{
    colour_plan, probe, register_frame, wake_plan, BacklightVariant, REG_MODE1, REG_MODE2,
    REG_OUTPUT, REG_PWM_V5, REG_RESET_V5, RGB_ADDRESS, RGB_ADDRESS_V5,
};
use crate::bus::{Bus, Delay};
use crate::error::{cause, performed, LcdError};
use crate::history::{lemma_ran_short, lemma_ran_step, lemma_ran_then, ran, refusal, Step};
use crate::link::Link;
use crate::protocol::{
    character_codes, command_frame, cursor_address, cursor_command, data_frame, data_plan,
    function_flags, function_register, glyph_address, glyph_command, lemma_flags_within,
    lemma_initial_flags, switched, DotSize, CONTROL_COMMAND, CONTROL_DATA, CONTROL_FLAGS,
    ENTRY_FLAGS, LCD_8BITMODE, LCD_ADDRESS, LCD_BLINKON, LCD_CLEARDISPLAY, LCD_CURSORON,
    LCD_CURSORSHIFT, LCD_DISPLAYCONTROL, LCD_DISPLAYMOVE, LCD_DISPLAYON, LCD_ENTRYLEFT,
    LCD_ENTRYMODESET, LCD_ENTRYSHIFTINCREMENT, LCD_FUNCTIONSET, LCD_MOVELEFT, LCD_MOVERIGHT,
    LCD_RETURNHOME,
};

verus! {

/// What the driver remembers of the hardware, which cannot be read back.
pub struct Shadow {
    /// The function register: interface width, line count and dot size.
    /// It is zero until the display has been initialised.
    pub function: u8,
    /// The display-control register: display, cursor and blink.
    pub control: u8,
    /// The entry-mode register: text direction and autoscroll.
    pub mode: u8,
    /// The number of rows the display was initialised with; 0 before that.
    pub lines: u8,
    /// The row that initialisation left the cursor on.
    pub current_line: u8,
    /// The backlight controller that initialisation found.
    pub backlight: BacklightVariant,
}

impl Shadow {
    /// What holds of the shadow of every driver at all times. Each register
    /// holds flags of its own only, so that the command it is sent with is
    /// never taken for another. The function register is zero, with no row
    /// configured, as long as the display was never initialised; after that
    /// it is the one that belongs to the row count: eight bits wide, the
    /// two-line flag with more than one row, the tall font with one row at
    /// most. The cursor was left on the first row.
    pub open spec fn well_formed(self) -> bool {
        &&& {
            ||| self.function == 0 && self.lines == 0
            ||| self.function == function_flags(self.lines, DotSize::Dots5x8)
            ||| self.function == function_flags(self.lines, DotSize::Dots5x10)
        }
        &&& self.control & !CONTROL_FLAGS == 0
        &&& self.mode & !ENTRY_FLAGS == 0
        &&& self.current_line == 0
    }
}

/// The shadow as the driver holds it. It is well formed at all times.
struct Registers {
    function: u8,
    control: u8,
    mode: u8,
    lines: u8,
    current_line: u8,
    backlight: BacklightVariant,
}

impl View for Registers {
    type V = Shadow;

    closed spec fn view(&self) -> Shadow {
        Shadow {
            function: self.function,
            control: self.control,
            mode: self.mode,
            lines: self.lines,
            current_line: self.current_line,
            backlight: self.backlight,
        }
    }
}

impl Registers {
    #[verifier::type_invariant]
    spec fn is_well_formed(&self) -> bool {
        self@.well_formed()
    }
}

/// The place of the display-control command among the steps of an
/// initialisation, counted from 0.
pub const CONTROL_STEP: usize = 7;

/// The place of the entry-mode command among the steps of an
/// initialisation, counted from 0.
pub const ENTRY_STEP: usize = 10;

/// The number of steps that bring the display itself up, before the
/// backlight is looked for; the place of the probe, counted from 0.
pub const POWER_UP_STEPS: usize = 11;

/// The steps that bring the display up with `function` in its function
/// register: the settle time after power-on, the function set sent four
/// times with the waits that the controller asks for, display on, clear with
/// its wait, and the entry mode.
pub open spec fn power_up_plan<E>(function: u8) -> Seq<Step<E>> {
    seq![
        Step::wait_ms(50),
        command_frame(LCD_FUNCTIONSET | function),
        Step::wait_us(4500),
        command_frame(LCD_FUNCTIONSET | function),
        Step::wait_us(150),
        command_frame(LCD_FUNCTIONSET | function),
        command_frame(LCD_FUNCTIONSET | function),
        command_frame(LCD_DISPLAYCONTROL | LCD_DISPLAYON),
        command_frame(LCD_CLEARDISPLAY),
        Step::wait_ms(2),
        command_frame(LCD_ENTRYMODESET | LCD_ENTRYLEFT),
    ]
}

/// The steps that bring the backlight up when the probe of the v5 address
/// was answered with `answer`: the probe, the start-up writes of the
/// controller found, and full white.
pub open spec fn backlight_plan<E>(answer: Option<E>) -> Seq<Step<E>> {
    let variant = BacklightVariant::detected(answer is None);
    seq![probe(answer)] + wake_plan(variant) + colour_plan(variant, 255, 255, 255)
}

/// All the steps of an initialisation for `lines` rows and cells of
/// `dotsize`, when the probe was answered with `answer`.
pub open spec fn begin_plan<E>(lines: u8, dotsize: DotSize, answer: Option<E>) -> Seq<Step<E>> {
    power_up_plan(function_flags(lines, dotsize)) + backlight_plan(answer)
}

/// The answer to the probe of an initialisation that took the history from
/// `before` to `after`: the failure recorded with the probe, and none where
/// the initialisation ended before it came to the probe.
pub open spec fn probe_answer<E>(before: Seq<Step<E>>, after: Seq<Step<E>>) -> Option<E> {
    let at = before.len() + POWER_UP_STEPS;
    if at < after.len() {
        after[at].failure()
    } else {
        None
    }
}

/// The shadow that an initialisation leaves which recorded `steps` steps,
/// the last of them refused unless all went through. The function register
/// and the row count are set at once. The display-control register is set
/// when the function set has gone through, so that its command is tried; the
/// entry mode likewise when the display has been cleared; and the backlight
/// variant when the probe has been made, with `answered` telling whether a
/// device answered it.
pub open spec fn begin_shadow(
    old: Shadow,
    lines: u8,
    dotsize: DotSize,
    steps: int,
    answered: bool,
) -> Shadow {
    Shadow {
        function: function_flags(lines, dotsize),
        control: if steps > CONTROL_STEP {
            LCD_DISPLAYON
        } else {
            old.control
        },
        mode: if steps > ENTRY_STEP {
            LCD_ENTRYLEFT
        } else {
            old.mode
        },
        lines,
        current_line: 0,
        backlight: if steps > POWER_UP_STEPS {
            BacklightVariant::detected(answered)
        } else {
            old.backlight
        },
    }
}

/// Driver of a Grove LCD with RGB backlight on the bus `B`, with the delay
/// source `D`.
pub struct GroveLcd<B: Bus, D: Delay> {
    link: Link<B, D>,
    registers: Registers,
}

impl<B: Bus, D: Delay> View for GroveLcd<B, D> {
    type V = Shadow;

    closed spec fn view(&self) -> Shadow {
        self.registers@
    }
}

impl<B: Bus, D: Delay> GroveLcd<B, D> {
    /// Everything the driver has done with its bus and its delay source,
    /// oldest first.
    pub closed spec fn history(&self) -> Seq<Step<B::Error>> {
        self.link.history()
    }

    /// The bus the driver holds.
    pub closed spec fn bus(&self) -> B {
        self.link.bus()
    }

    /// The delay source the driver holds.
    pub closed spec fn delay(&self) -> D {
        self.link.delay()
    }

    /// Takes the bus and the delay source. Nothing is sent: the registers
    /// are zero, no row is configured, and the older backlight controller is
    /// assumed until initialisation has looked.
    pub fn new(i2c: B, delay: D) -> (lcd: Self)
        ensures
            lcd@ == (Shadow {
                function: 0,
                control: 0,
                mode: 0,
                lines: 0,
                current_line: 0,
                backlight: BacklightVariant::V4,
            }),
            lcd@.well_formed(),
            lcd.history() == Seq::<Step<B::Error>>::empty(),
            lcd.bus() == i2c,
            lcd.delay() == delay,
    {
        proof {
            lemma_initial_flags();
        }
        GroveLcd {
            link: Link::new(i2c, delay),
            registers: Registers {
                function: 0,
                control: 0,
                mode: 0,
                lines: 0,
                current_line: 0,
                backlight: BacklightVariant::V4,
            },
        }
    }

    /// Hands the bus and the delay source back. Nothing is sent.
    pub fn release(self) -> (parts: (B, D))
        ensures
            parts.0 == self.bus(),
            parts.1 == self.delay(),
    {
        self.link.release()
    }

    /// Writes `bytes` to `address`.
    fn transmit(&mut self, address: u8, bytes: &[u8]) -> (r: Result<(), B::Error>)
        ensures
            final(self)@ == old(self)@,
            final(self).history() == old(self).history().push(
                Step::write(address, bytes@, refusal(r)),
            ),
            final(self)@.well_formed(),
    {
        proof {
            use_type_invariant(&self.registers);
        }
        self.link.write(address, bytes)
    }

    /// Waits `ms` milliseconds.
    fn pause_ms(&mut self, ms: u32)
        ensures
            final(self)@ == old(self)@,
            final(self).history() == old(self).history().push(Step::wait_ms(ms)),
            final(self)@.well_formed(),
    {
        proof {
            use_type_invariant(&self.registers);
        }
        self.link.delay_ms(ms);
    }

    /// Waits `us` microseconds.
    fn pause_us(&mut self, us: u32)
        ensures
            final(self)@ == old(self)@,
            final(self).history() == old(self).history().push(Step::wait_us(us)),
            final(self)@.well_formed(),
    {
        proof {
            use_type_invariant(&self.registers);
        }
        self.link.delay_us(us);
    }

    /// Writes the two bytes `first`, `second` to `address`, and wraps the
    /// transport's error if it refuses them.
    fn write_pair(&mut self, address: u8, first: u8, second: u8) -> (r: Result<
        (),
        LcdError<B::Error>,
    >)
        ensures
            final(self)@ == old(self)@,
            performed(
                old(self).history(),
                final(self).history(),
                seq![Step::sent(address, seq![first, second])],
                r,
            ),
            final(self)@.well_formed(),
    {
        proof {
            use_type_invariant(&self.registers);
        }
        match self.link.write_pair(address, first, second) {
            Ok(()) => Ok(()),
            Err(e) => Err(LcdError::from(e)),
        }
    }

    /// Sends one command byte to the display.
    fn command(&mut self, value: u8) -> (r: Result<(), LcdError<B::Error>>)
        ensures
            final(self)@ == old(self)@,
            performed(old(self).history(), final(self).history(), seq![command_frame(value)], r),
            final(self)@.well_formed(),
    {
        self.write_pair(LCD_ADDRESS, CONTROL_COMMAND, value)
    }

    /// Sends one byte of display data.
    fn write_data(&mut self, value: u8) -> (r: Result<(), LcdError<B::Error>>)
        ensures
            final(self)@ == old(self)@,
            performed(old(self).history(), final(self).history(), seq![data_frame(value)], r),
            final(self)@.well_formed(),
    {
        self.write_pair(LCD_ADDRESS, CONTROL_DATA, value)
    }

    /// Sets one register of the backlight controller.
    fn set_reg(&mut self, reg: u8, value: u8) -> (r: Result<(), LcdError<B::Error>>)
        ensures
            final(self)@ == old(self)@,
            performed(
                old(self).history(),
                final(self).history(),
                seq![register_frame(old(self)@.backlight.address(), reg, value)],
                r,
            ),
            final(self)@.well_formed(),
    {
        let address: u8 = self.registers.backlight.address();
        self.write_pair(address, reg, value)
    }

    /// Clears the display and waits the 2 ms that the controller needs for
    /// it. If the command is refused the wait is skipped.
    pub fn clear(&mut self) -> (r: Result<(), LcdError<B::Error>>)
        ensures
            final(self)@ == old(self)@,
            performed(
                old(self).history(),
                final(self).history(),
                seq![command_frame(LCD_CLEARDISPLAY), Step::wait_ms(2)],
                r,
            ),
            final(self)@.well_formed(),
    {
        let ghost before = self.history();
        let ghost plan = seq![command_frame::<B::Error>(LCD_CLEARDISPLAY), Step::wait_ms(2)];
        assert(self.history() =~= before + plan.take(0));
        if let Err(e) = self.command_step(LCD_CLEARDISPLAY, Ghost(before), Ghost(plan), Ghost(0)) {
            return Err(e);
        }
        self.pause_ms(2);
        assert(self.history() =~= before + plan);
        Ok(())
    }

    /// Moves the cursor to the first cell and undoes any scrolling, then
    /// waits the 2 ms that the controller needs for it. If the command is
    /// refused the wait is skipped.
    pub fn home(&mut self) -> (r: Result<(), LcdError<B::Error>>)
        ensures
            final(self)@ == old(self)@,
            performed(
                old(self).history(),
                final(self).history(),
                seq![command_frame(LCD_RETURNHOME), Step::wait_ms(2)],
                r,
            ),
            final(self)@.well_formed(),
    {
        let ghost before = self.history();
        let ghost plan = seq![command_frame::<B::Error>(LCD_RETURNHOME), Step::wait_ms(2)];
        assert(self.history() =~= before + plan.take(0));
        if let Err(e) = self.command_step(LCD_RETURNHOME, Ghost(before), Ghost(plan), Ghost(0)) {
            return Err(e);
        }
        self.pause_ms(2);
        assert(self.history() =~= before + plan);
        Ok(())
    }

    /// Moves the cursor to column `col` of row `row`. A row beyond the last
    /// configured one is taken as the last; the column is not checked.
    pub fn set_cursor(&mut self, col: u8, row: u8) -> (r: Result<(), LcdError<B::Error>>)
        ensures
            final(self)@ == old(self)@,
            performed(
                old(self).history(),
                final(self).history(),
                seq![command_frame(cursor_command(col, row, old(self)@.lines))],
                r,
            ),
            final(self)@.well_formed(),
    {
        let value: u8 = cursor_address(col, row, self.registers.lines);
        self.command(value)
    }

    /// Switches the display off; what it shows stays in the controller's memory.
    pub fn no_display(&mut self) -> (r: Result<(), LcdError<B::Error>>)
        ensures
            final(self)@ == (Shadow {
                control: switched(old(self)@.control, LCD_DISPLAYON, false),
                ..old(self)@
            }),
            performed(
                old(self).history(),
                final(self).history(),
                seq![command_frame(LCD_DISPLAYCONTROL | final(self)@.control)],
                r,
            ),
            final(self)@.well_formed(),
    {
        proof {
            use_type_invariant(&self.registers);
            lemma_flags_within(self.registers.control, LCD_DISPLAYON, false);
        }
        self.registers.control &= !LCD_DISPLAYON;
        self.command(LCD_DISPLAYCONTROL | self.registers.control)
    }

    /// Switches the display on.
    pub fn display(&mut self) -> (r: Result<(), LcdError<B::Error>>)
        ensures
            final(self)@ == (Shadow {
                control: switched(old(self)@.control, LCD_DISPLAYON, true),
                ..old(self)@
            }),
            performed(
                old(self).history(),
                final(self).history(),
                seq![command_frame(LCD_DISPLAYCONTROL | final(self)@.control)],
                r,
            ),
            final(self)@.well_formed(),
    {
        proof {
            use_type_invariant(&self.registers);
            lemma_flags_within(self.registers.control, LCD_DISPLAYON, true);
        }
        self.registers.control |= LCD_DISPLAYON;
        self.command(LCD_DISPLAYCONTROL | self.registers.control)
    }

    /// Hides the underline cursor.
    pub fn no_cursor(&mut self) -> (r: Result<(), LcdError<B::Error>>)
        ensures
            final(self)@ == (Shadow {
                control: switched(old(self)@.control, LCD_CURSORON, false),
                ..old(self)@
            }),
            performed(
                old(self).history(),
                final(self).history(),
                seq![command_frame(LCD_DISPLAYCONTROL | final(self)@.control)],
                r,
            ),
            final(self)@.well_formed(),
    {
        proof {
            use_type_invariant(&self.registers);
            lemma_flags_within(self.registers.control, LCD_CURSORON, false);
        }
        self.registers.control &= !LCD_CURSORON;
        self.command(LCD_DISPLAYCONTROL | self.registers.control)
    }

    /// Shows the underline cursor.
    pub fn cursor(&mut self) -> (r: Result<(), LcdError<B::Error>>)
        ensures
            final(self)@ == (Shadow {
                control: switched(old(self)@.control, LCD_CURSORON, true),
                ..old(self)@
            }),
            performed(
                old(self).history(),
                final(self).history(),
                seq![command_frame(LCD_DISPLAYCONTROL | final(self)@.control)],
                r,
            ),
            final(self)@.well_formed(),
    {
        proof {
            use_type_invariant(&self.registers);
            lemma_flags_within(self.registers.control, LCD_CURSORON, true);
        }
        self.registers.control |= LCD_CURSORON;
        self.command(LCD_DISPLAYCONTROL | self.registers.control)
    }

    /// Stops the blinking of the cursor cell.
    pub fn no_blink(&mut self) -> (r: Result<(), LcdError<B::Error>>)
        ensures
            final(self)@ == (Shadow {
                control: switched(old(self)@.control, LCD_BLINKON, false),
                ..old(self)@
            }),
            performed(
                old(self).history(),
                final(self).history(),
                seq![command_frame(LCD_DISPLAYCONTROL | final(self)@.control)],
                r,
            ),
            final(self)@.well_formed(),
    {
        proof {
            use_type_invariant(&self.registers);
            lemma_flags_within(self.registers.control, LCD_BLINKON, false);
        }
        self.registers.control &= !LCD_BLINKON;
        self.command(LCD_DISPLAYCONTROL | self.registers.control)
    }

    /// Makes the cursor cell blink.
    pub fn blink(&mut self) -> (r: Result<(), LcdError<B::Error>>)
        ensures
            final(self)@ == (Shadow {
                control: switched(old(self)@.control, LCD_BLINKON, true),
                ..old(self)@
            }),
            performed(
                old(self).history(),
                final(self).history(),
                seq![command_frame(LCD_DISPLAYCONTROL | final(self)@.control)],
                r,
            ),
            final(self)@.well_formed(),
    {
        proof {
            use_type_invariant(&self.registers);
            lemma_flags_within(self.registers.control, LCD_BLINKON, true);
        }
        self.registers.control |= LCD_BLINKON;
        self.command(LCD_DISPLAYCONTROL | self.registers.control)
    }

    /// Shifts what the display shows one cell to the left. The controller's
    /// memory and the shadow registers stay as they are.
    pub fn scroll_display_left(&mut self) -> (r: Result<(), LcdError<B::Error>>)
        ensures
            final(self)@ == old(self)@,
            performed(
                old(self).history(),
                final(self).history(),
                seq![command_frame(LCD_CURSORSHIFT | LCD_DISPLAYMOVE | LCD_MOVELEFT)],
                r,
            ),
            final(self)@.well_formed(),
    {
        self.command(LCD_CURSORSHIFT | LCD_DISPLAYMOVE | LCD_MOVELEFT)
    }

    /// Shifts what the display shows one cell to the right. The controller's
    /// memory and the shadow registers stay as they are.
    pub fn scroll_display_right(&mut self) -> (r: Result<(), LcdError<B::Error>>)
        ensures
            final(self)@ == old(self)@,
            performed(
                old(self).history(),
                final(self).history(),
                seq![command_frame(LCD_CURSORSHIFT | LCD_DISPLAYMOVE | LCD_MOVERIGHT)],
                r,
            ),
            final(self)@.well_formed(),
    {
        self.command(LCD_CURSORSHIFT | LCD_DISPLAYMOVE | LCD_MOVERIGHT)
    }

    /// Makes text run from left to right.
    pub fn left_to_right(&mut self) -> (r: Result<(), LcdError<B::Error>>)
        ensures
            final(self)@ == (Shadow {
                mode: switched(old(self)@.mode, LCD_ENTRYLEFT, true),
                ..old(self)@
            }),
            performed(
                old(self).history(),
                final(self).history(),
                seq![command_frame(LCD_ENTRYMODESET | final(self)@.mode)],
                r,
            ),
            final(self)@.well_formed(),
    {
        proof {
            use_type_invariant(&self.registers);
            lemma_flags_within(self.registers.mode, LCD_ENTRYLEFT, true);
        }
        self.registers.mode |= LCD_ENTRYLEFT;
        self.command(LCD_ENTRYMODESET | self.registers.mode)
    }

    /// Makes text run from right to left.
    pub fn right_to_left(&mut self) -> (r: Result<(), LcdError<B::Error>>)
        ensures
            final(self)@ == (Shadow {
                mode: switched(old(self)@.mode, LCD_ENTRYLEFT, false),
                ..old(self)@
            }),
            performed(
                old(self).history(),
                final(self).history(),
                seq![command_frame(LCD_ENTRYMODESET | final(self)@.mode)],
                r,
            ),
            final(self)@.well_formed(),
    {
        proof {
            use_type_invariant(&self.registers);
            lemma_flags_within(self.registers.mode, LCD_ENTRYLEFT, false);
        }
        self.registers.mode &= !LCD_ENTRYLEFT;
        self.command(LCD_ENTRYMODESET | self.registers.mode)
    }

    /// Makes the display shift with every character written.
    pub fn autoscroll(&mut self) -> (r: Result<(), LcdError<B::Error>>)
        ensures
            final(self)@ == (Shadow {
                mode: switched(old(self)@.mode, LCD_ENTRYSHIFTINCREMENT, true),
                ..old(self)@
            }),
            performed(
                old(self).history(),
                final(self).history(),
                seq![command_frame(LCD_ENTRYMODESET | final(self)@.mode)],
                r,
            ),
            final(self)@.well_formed(),
    {
        proof {
            use_type_invariant(&self.registers);
            lemma_flags_within(self.registers.mode, LCD_ENTRYSHIFTINCREMENT, true);
        }
        self.registers.mode |= LCD_ENTRYSHIFTINCREMENT;
        self.command(LCD_ENTRYMODESET | self.registers.mode)
    }

    /// Stops the display from shifting with every character written.
    pub fn no_autoscroll(&mut self) -> (r: Result<(), LcdError<B::Error>>)
        ensures
            final(self)@ == (Shadow {
                mode: switched(old(self)@.mode, LCD_ENTRYSHIFTINCREMENT, false),
                ..old(self)@
            }),
            performed(
                old(self).history(),
                final(self).history(),
                seq![command_frame(LCD_ENTRYMODESET | final(self)@.mode)],
                r,
            ),
            final(self)@.well_formed(),
    {
        proof {
            use_type_invariant(&self.registers);
            lemma_flags_within(self.registers.mode, LCD_ENTRYSHIFTINCREMENT, false);
        }
        self.registers.mode &= !LCD_ENTRYSHIFTINCREMENT;
        self.command(LCD_ENTRYMODESET | self.registers.mode)
    }

    /// Writes one character code at the cursor.
    pub fn write(&mut self, value: u8) -> (r: Result<(), LcdError<B::Error>>)
        ensures
            final(self)@ == old(self)@,
            performed(old(self).history(), final(self).history(), seq![data_frame(value)], r),
            final(self)@.well_formed(),
    {
        self.write_data(value)
    }

    /// Sets the backlight colour with three register writes: red, green,
    /// blue. The first refused write ends the operation.
    pub fn set_rgb(&mut self, r: u8, g: u8, b: u8) -> (result: Result<(), LcdError<B::Error>>)
        ensures
            final(self)@ == old(self)@,
            performed(
                old(self).history(),
                final(self).history(),
                colour_plan(old(self)@.backlight, r, g, b),
                result,
            ),
            final(self)@.well_formed(),
    {
        let registers: (u8, u8, u8) = self.registers.backlight.colour_registers();
        let ghost before = self.history();
        let ghost plan = colour_plan::<B::Error>(self@.backlight, r, g, b);
        assert(self.history() =~= before + plan.take(0));
        if let Err(e) = self.register_step(registers.0, r, Ghost(before), Ghost(plan), Ghost(0)) {
            return Err(e);
        }
        if let Err(e) = self.register_step(registers.1, g, Ghost(before), Ghost(plan), Ghost(1)) {
            return Err(e);
        }
        let last = self.register_step(registers.2, b, Ghost(before), Ghost(plan), Ghost(2));
        assert(plan.take(3) =~= plan);
        last
    }

    /// Switches the backlight off: [`GroveLcd::set_rgb`] with all three
    /// levels at 0.
    pub fn backlight_off(&mut self) -> (r: Result<(), LcdError<B::Error>>)
        ensures
            final(self)@ == old(self)@,
            performed(
                old(self).history(),
                final(self).history(),
                colour_plan(old(self)@.backlight, 0, 0, 0),
                r,
            ),
            final(self)@.well_formed(),
    {
        self.set_rgb(0, 0, 0)
    }

    /// Sets the backlight to full white: [`GroveLcd::set_rgb`] with all
    /// three levels at 255.
    pub fn backlight_white(&mut self) -> (r: Result<(), LcdError<B::Error>>)
        ensures
            final(self)@ == old(self)@,
            performed(
                old(self).history(),
                final(self).history(),
                colour_plan(old(self)@.backlight, 255, 255, 255),
                r,
            ),
            final(self)@.well_formed(),
    {
        self.set_rgb(255, 255, 255)
    }

    /// Defines the glyph in slot `location & 7`: one command that points the
    /// controller at the slot, then the eight rows of `charmap` as data. The
    /// first refused write ends the operation.
    pub fn create_char(&mut self, location: u8, charmap: &[u8; 8]) -> (r: Result<
        (),
        LcdError<B::Error>,
    >)
        ensures
            final(self)@ == old(self)@,
            performed(
                old(self).history(),
                final(self).history(),
                seq![command_frame(glyph_command(location))] + data_plan(charmap@),
                r,
            ),
            final(self)@.well_formed(),
    {
        let ghost before = self.history();
        let ghost plan = seq![command_frame::<B::Error>(glyph_command(location))] + data_plan(
            charmap@,
        );
        assert(self.history() =~= before + plan.take(0));
        let slot: u8 = glyph_address(location);
        if let Err(e) = self.command_step(slot, Ghost(before), Ghost(plan), Ghost(0)) {
            return Err(e);
        }
        let mut i: usize = 0;
        while i < 8
            invariant
                0 <= i <= 8,
                plan == seq![command_frame::<B::Error>(glyph_command(location))] + data_plan(
                    charmap@,
                ),
                before == old(self).history(),
                self@ == old(self)@,
                self@.well_formed(),
                self.history() == before + plan.take(i + 1),
            decreases 8 - i,
        {
            if let Err(e) = self.data_step(charmap[i], Ghost(before), Ghost(plan), Ghost(i + 1)) {
                return Err(e);
            }
            i += 1;
        }
        assert(plan.take(9) =~= plan);
        Ok(())
    }

    /// Writes `s` at the cursor, character by character: of each character
    /// the display is sent the low eight bits of its code point. Nothing wraps
    /// at the end of a row, and the first refused write ends the operation.
    pub fn print(&mut self, s: &str) -> (r: Result<(), LcdError<B::Error>>)
        ensures
            final(self)@ == old(self)@,
            performed(
                old(self).history(),
                final(self).history(),
                data_plan(character_codes(s@)),
                r,
            ),
            final(self)@.well_formed(),
    {
        proof {
            use_type_invariant(&self.registers);
        }
        let ghost before = self.history();
        let ghost plan = data_plan::<B::Error>(character_codes(s@));
        assert(self.history() =~= before + plan.take(0));
        for c in it: s.chars()
            invariant
                plan == data_plan::<B::Error>(character_codes(s@)),
                it.seq() == s@,
                before == old(self).history(),
                self@ == old(self)@,
                self@.well_formed(),
                self.history() == before + plan.take(it.index() as int),
        {
            let sent = self.data_step(c as u8, Ghost(before), Ghost(plan), Ghost(it.index() as int));
            if let Err(e) = sent {
                return Err(e);
            }
        }
        assert(plan.take(s@.len() as int) =~= plan);
        Ok(())
    }

    /// Sends the data byte `value` as step `index` of `plan`, of which the
    /// steps before it are behind since `before`.
    fn data_step(
        &mut self,
        value: u8,
        Ghost(before): Ghost<Seq<Step<B::Error>>>,
        Ghost(plan): Ghost<Seq<Step<B::Error>>>,
        Ghost(index): Ghost<int>,
    ) -> (r: Result<(), LcdError<B::Error>>)
        requires
            0 <= index < plan.len(),
            plan[index] == data_frame::<B::Error>(value),
            old(self).history() == before + plan.take(index),
        ensures
            final(self)@ == old(self)@,
            r is Ok ==> final(self).history() == before + plan.take(index + 1),
            r is Err ==> performed(before, final(self).history(), plan, r),
            final(self)@.well_formed(),
    {
        let r = self.write_data(value);
        proof {
            lemma_ran_step(before, old(self).history(), self.history(), plan, index, cause(r));
        }
        r
    }

    /// Sends the command `value` as step `index` of `plan`, of which the
    /// steps before it are behind since `before`.
    fn command_step(
        &mut self,
        value: u8,
        Ghost(before): Ghost<Seq<Step<B::Error>>>,
        Ghost(plan): Ghost<Seq<Step<B::Error>>>,
        Ghost(index): Ghost<int>,
    ) -> (r: Result<(), LcdError<B::Error>>)
        requires
            0 <= index < plan.len(),
            plan[index] == command_frame::<B::Error>(value),
            old(self).history() == before + plan.take(index),
        ensures
            final(self)@ == old(self)@,
            r is Ok ==> final(self).history() == before + plan.take(index + 1),
            r is Err ==> performed(before, final(self).history(), plan, r),
            r is Err ==> final(self).history().len() == before.len() + index + 1,
            final(self)@.well_formed(),
    {
        let r = self.command(value);
        proof {
            lemma_ran_step(before, old(self).history(), self.history(), plan, index, cause(r));
        }
        r
    }

    /// Sets a backlight register as step `index` of `plan`, of which the
    /// steps before it are behind since `before`.
    fn register_step(
        &mut self,
        reg: u8,
        value: u8,
        Ghost(before): Ghost<Seq<Step<B::Error>>>,
        Ghost(plan): Ghost<Seq<Step<B::Error>>>,
        Ghost(index): Ghost<int>,
    ) -> (r: Result<(), LcdError<B::Error>>)
        requires
            0 <= index < plan.len(),
            plan[index] == register_frame::<B::Error>(old(self)@.backlight.address(), reg, value),
            old(self).history() == before + plan.take(index),
        ensures
            final(self)@ == old(self)@,
            r is Ok ==> final(self).history() == before + plan.take(index + 1),
            r is Err ==> performed(before, final(self).history(), plan, r),
            r is Err ==> final(self).history().len() == before.len() + index + 1,
            final(self)@.well_formed(),
    {
        let r = self.set_reg(reg, value);
        proof {
            lemma_ran_step(before, old(self).history(), self.history(), plan, index, cause(r));
        }
        r
    }

    /// Brings the display itself up.
    fn power_up(&mut self, lines: u8, dotsize: DotSize) -> (r: Result<(), LcdError<B::Error>>)
        ensures
            performed(
                old(self).history(),
                final(self).history(),
                power_up_plan(function_flags(lines, dotsize)),
                r,
            ),
            final(self)@ == begin_shadow(
                old(self)@,
                lines,
                dotsize,
                final(self).history().len() - old(self).history().len(),
                false,
            ),
            final(self).history().len() - old(self).history().len() <= POWER_UP_STEPS,
            final(self)@.well_formed(),
    {
        let ghost before = self.history();
        let ghost plan = power_up_plan::<B::Error>(function_flags(lines, dotsize));
        let function: u8 = function_register(lines, dotsize);
        proof {
            use_type_invariant(&self.registers);
        }
        self.registers = Registers { function, lines, current_line: 0, ..self.registers };

        self.pause_ms(50);
        assert(self.history() =~= before + plan.take(1));
        let function_set: u8 = LCD_FUNCTIONSET | function;
        if let Err(e) = self.command_step(function_set, Ghost(before), Ghost(plan), Ghost(1)) {
            return Err(e);
        }
        self.pause_us(4500);
        assert(self.history() =~= before + plan.take(3));
        if let Err(e) = self.command_step(function_set, Ghost(before), Ghost(plan), Ghost(3)) {
            return Err(e);
        }
        self.pause_us(150);
        assert(self.history() =~= before + plan.take(5));
        if let Err(e) = self.command_step(function_set, Ghost(before), Ghost(plan), Ghost(5)) {
            return Err(e);
        }
        if let Err(e) = self.command_step(function_set, Ghost(before), Ghost(plan), Ghost(6)) {
            return Err(e);
        }
        proof {
            use_type_invariant(&self.registers);
            lemma_initial_flags();
        }
        self.registers.control = LCD_DISPLAYON;
        if let Err(e) = self.command_step(
            LCD_DISPLAYCONTROL | self.registers.control,
            Ghost(before),
            Ghost(plan),
            Ghost(7),
        ) {
            return Err(e);
        }
        if let Err(e) = self.command_step(LCD_CLEARDISPLAY, Ghost(before), Ghost(plan), Ghost(8)) {
            return Err(e);
        }
        self.pause_ms(2);
        assert(self.history() =~= before + plan.take(10));

        proof {
            use_type_invariant(&self.registers);
            lemma_initial_flags();
        }
        self.registers.mode = LCD_ENTRYLEFT;
        if let Err(e) = self.command_step(
            LCD_ENTRYMODESET | self.registers.mode,
            Ghost(before),
            Ghost(plan),
            Ghost(10),
        ) {
            return Err(e);
        }
        assert(plan.take(11) =~= plan);
        Ok(())
    }

    /// Finds out which backlight controller is there and brings it up to
    /// full white. That no device answers the probe is no error: it means
    /// the older controller.
    fn start_backlight(&mut self) -> (r: Result<(), LcdError<B::Error>>)
        ensures
            old(self).history().len() < final(self).history().len(),
            ({
                let answer = final(self).history()[old(self).history().len() as int].failure();
                &&& performed(
                    old(self).history(),
                    final(self).history(),
                    backlight_plan(answer),
                    r,
                )
                &&& final(self)@ == (Shadow {
                    backlight: BacklightVariant::detected(answer is None),
                    ..old(self)@
                })
            }),
            final(self)@.well_formed(),
    {
        let ghost before = self.history();
        let nothing: [u8; 0] = [];
        assert(nothing@ =~= Seq::<u8>::empty());
        let answer = self.transmit(RGB_ADDRESS_V5, &nothing);
        let ghost plan = backlight_plan::<B::Error>(refusal(answer));
        assert(self.history() =~= before + plan.take(1));
        proof {
            use_type_invariant(&self.registers);
        }
        if answer.is_ok() {
            self.registers.backlight = BacklightVariant::V5;
            if let Err(e) = self.register_step(
                REG_RESET_V5,
                0x07,
                Ghost(before),
                Ghost(plan),
                Ghost(1),
            ) {
                return Err(e);
            }
            self.pause_us(200);
            assert(self.history() =~= before + plan.take(3));
            if let Err(e) = self.register_step(
                REG_PWM_V5,
                0x15,
                Ghost(before),
                Ghost(plan),
                Ghost(3),
            ) {
                return Err(e);
            }
        } else {
            self.registers.backlight = BacklightVariant::V4;
            if let Err(e) = self.register_step(
                REG_MODE1,
                0x00,
                Ghost(before),
                Ghost(plan),
                Ghost(1),
            ) {
                return Err(e);
            }
            if let Err(e) = self.register_step(
                REG_OUTPUT,
                0xFF,
                Ghost(before),
                Ghost(plan),
                Ghost(2),
            ) {
                return Err(e);
            }
            if let Err(e) = self.register_step(
                REG_MODE2,
                0x20,
                Ghost(before),
                Ghost(plan),
                Ghost(3),
            ) {
                return Err(e);
            }
        }
        let ghost woken = self.history();
        let white = self.set_rgb(255, 255, 255);
        proof {
            let colour = colour_plan::<B::Error>(self@.backlight, 255, 255, 255);
            assert(plan.take(4) + colour =~= plan);
            assert(ran(before, woken, plan.take(4), None));
            lemma_ran_then(before, woken, self.history(), plan.take(4), colour, cause(white));
        }
        white
    }

    /// Initialises the display for `lines` rows and cells of `dotsize`, and
    /// the backlight. `_cols` is not used.
    ///
    /// The steps are those of [`begin_plan`], in that order. A refused write
    /// ends the initialisation with the transport's error; only the probe for
    /// the backlight controller may be refused, which selects the older one.
    /// The shadow is updated as far as the initialisation came
    /// ([`begin_shadow`]).
    pub fn begin_with_dotsize(&mut self, _cols: u8, lines: u8, dotsize: DotSize) -> (r: Result<
        (),
        LcdError<B::Error>,
    >)
        ensures
            ({
                let answer = probe_answer(old(self).history(), final(self).history());
                &&& performed(
                    old(self).history(),
                    final(self).history(),
                    begin_plan(lines, dotsize, answer),
                    r,
                )
                &&& final(self)@ == begin_shadow(
                    old(self)@,
                    lines,
                    dotsize,
                    final(self).history().len() - old(self).history().len(),
                    answer is None,
                )
            }),
            final(self)@.well_formed(),
    {
        let ghost before = self.history();
        let ghost display = power_up_plan::<B::Error>(function_flags(lines, dotsize));
        if let Err(e) = self.power_up(lines, dotsize) {
            proof {
                lemma_ran_short(
                    before,
                    self.history(),
                    display,
                    backlight_plan::<B::Error>(None),
                    e->I2c_0,
                );
            }
            return Err(e);
        }
        let ghost up = self.history();
        let r = self.start_backlight();
        proof {
            let answer = probe_answer(before, self.history());
            lemma_ran_then(before, up, self.history(), display, backlight_plan(answer), cause(r));
        }
        r
    }

    /// Initialises the display for `rows` rows of 5x8 cells, and the
    /// backlight: [`GroveLcd::begin_with_dotsize`] with `DotSize::Dots5x8`.
    pub fn begin(&mut self, cols: u8, rows: u8) -> (r: Result<(), LcdError<B::Error>>)
        ensures
            ({
                let answer = probe_answer(old(self).history(), final(self).history());
                &&& performed(
                    old(self).history(),
                    final(self).history(),
                    begin_plan(rows, DotSize::Dots5x8, answer),
                    r,
                )
                &&& final(self)@ == begin_shadow(
                    old(self)@,
                    rows,
                    DotSize::Dots5x8,
                    final(self).history().len() - old(self).history().len(),
                    answer is None,
                )
            }),
            final(self)@.well_formed(),
    {
        self.begin_with_dotsize(cols, rows, DotSize::Dots5x8)
    }
}

/// With a well-formed shadow, the command that carries a register to the
/// display is a command of that register and of no other: the display-control
/// command lies in 0x08..=0x0F, the entry-mode command in 0x04..=0x07, and the
/// function set of an initialised display is 0x30, 0x34 or 0x38, always with
/// the eight-bit interface. It is 0x34, the tall font, only with one row, and
/// 0x38 with more than one row.
pub proof fn lemma_register_commands(shadow: Shadow)
    requires
        shadow.well_formed(),
    ensures
        0x08 <= LCD_DISPLAYCONTROL | shadow.control <= 0x0F,
        0x04 <= LCD_ENTRYMODESET | shadow.mode <= 0x07,
        LCD_FUNCTIONSET | shadow.function == if shadow.function == 0 {
            0x20u8
        } else if shadow.lines > 1 {
            0x38u8
        } else if shadow.function == 0x14 {
            0x34u8
        } else {
            0x30u8
        },
        shadow.function != 0 ==> shadow.function & LCD_8BITMODE == LCD_8BITMODE,
        shadow.function == 0x14 ==> shadow.lines == 1,
{
    let control = shadow.control;
    let mode = shadow.mode;
    assert(0x08 <= 0x08u8 | control <= 0x0F) by (bit_vector)
        requires
            control & !0x07u8 == 0,
    ;
    assert(0x04 <= 0x04u8 | mode <= 0x07) by (bit_vector)
        requires
            mode & !0x03u8 == 0,
    ;
    assert(0x20u8 | 0x18u8 == 0x38u8 && 0x18u8 & 0x10u8 == 0x10u8) by (bit_vector);
    assert(0x20u8 | 0x14u8 == 0x34u8 && 0x14u8 & 0x10u8 == 0x10u8) by (bit_vector);
    assert(0x20u8 | 0x10u8 == 0x30u8 && 0x10u8 & 0x10u8 == 0x10u8) by (bit_vector);
    assert(0x20u8 | 0x00u8 == 0x20u8) by (bit_vector);
}

/// What every operation but an initialisation ensures of the shadow before
/// and after it: at most the flags of the display-control register and of the
/// entry-mode register have changed.
pub open spec fn same_session(before: Shadow, after: Shadow) -> bool {
    &&& after.function == before.function
    &&& after.lines == before.lines
    &&& after.current_line == before.current_line
    &&& after.backlight == before.backlight
}

/// Within a session the backlight controller stays the one that the session
/// began with.
pub proof fn lemma_backlight_is_kept(session: Seq<Shadow>, at: int)
    requires
        0 <= at < session.len(),
        forall|i: int|
            0 <= i < session.len() - 1 ==> same_session(session[i], #[trigger] session[i + 1]),
    ensures
        session[at].backlight == session[0].backlight,
    decreases at,
{
    if at > 0 {
        lemma_backlight_is_kept(session, at - 1);
        assert(same_session(session[at - 1], session[at - 1 + 1]));
    }
}

/// The backlight colour goes to the controller that the probe found, in
/// every call that follows in the session. Let an initialisation have come to
/// the probe, and let `session` be the shadows that follow it, the first the
/// one that the initialisation left, each next one left by an operation other
/// than an initialisation. Then with each of them the three writes of
/// [`GroveLcd::set_rgb`] go to the v5 controller and its colour registers if
/// a device answered the probe, and to the older one and its colour registers
/// if none did.
pub proof fn lemma_colour_follows_probe<E>(
    old: Shadow,
    lines: u8,
    dotsize: DotSize,
    steps: int,
    answered: bool,
    session: Seq<Shadow>,
    at: int,
    colour: (u8, u8, u8),
)
    requires
        steps > POWER_UP_STEPS,
        0 <= at < session.len(),
        session[0] == begin_shadow(old, lines, dotsize, steps, answered),
        forall|i: int|
            0 <= i < session.len() - 1 ==> same_session(session[i], #[trigger] session[i + 1]),
    ensures
        session[at].backlight == if answered {
            BacklightVariant::V5
        } else {
            BacklightVariant::V4
        },
        colour_plan::<E>(session[at].backlight, colour.0, colour.1, colour.2) == if answered {
            seq![
                register_frame::<E>(RGB_ADDRESS_V5, 0x06, colour.0),
                register_frame::<E>(RGB_ADDRESS_V5, 0x07, colour.1),
                register_frame::<E>(RGB_ADDRESS_V5, 0x08, colour.2),
            ]
        } else {
            seq![
                register_frame::<E>(RGB_ADDRESS, 0x04, colour.0),
                register_frame::<E>(RGB_ADDRESS, 0x03, colour.1),
                register_frame::<E>(RGB_ADDRESS, 0x02, colour.2),
            ]
        },
{
    lemma_backlight_is_kept(session, at);
}

/// Setting full white twice in a row does the same thing twice. Given what
/// [`GroveLcd::backlight_white`] ensures of two calls, the second made where
/// the first left off: the shadow after both is the shadow before, and if
/// both went through, each added the same three writes to the history.
pub proof fn lemma_backlight_white_twice<E>(
    shadows: (Shadow, Shadow, Shadow),
    histories: (Seq<Step<E>>, Seq<Step<E>>, Seq<Step<E>>),
    first: Result<(), LcdError<E>>,
    second: Result<(), LcdError<E>>,
)
    requires
        shadows.1 == shadows.0,
        performed(histories.0, histories.1, colour_plan(shadows.0.backlight, 255, 255, 255), first),
        shadows.2 == shadows.1,
        performed(
            histories.1,
            histories.2,
            colour_plan(shadows.1.backlight, 255, 255, 255),
            second,
        ),
    ensures
        shadows.2 == shadows.0,
        first is Ok && second is Ok ==> {
            &&& histories.1.skip(histories.0.len() as int) == histories.2.skip(
                histories.1.len() as int,
            )
            &&& histories.1.skip(histories.0.len() as int) == colour_plan::<E>(
                shadows.0.backlight,
                255,
                255,
                255,
            )
        },
{
    if first is Ok && second is Ok {
        let plan = colour_plan::<E>(shadows.0.backlight, 255, 255, 255);
        assert(histories.1.skip(histories.0.len() as int) =~= plan);
        assert(histories.2.skip(histories.1.len() as int) =~= plan);
    }
}

} // verus!
