//! Addresses, command codes and flag bits of the display controller, the
//! framing of its two kinds of transaction, and the arithmetic of its
//! addresses.

use vstd::prelude::*;

use crate::history::Step;

verus! {

/// Bus address of the character display controller.
pub const LCD_ADDRESS: u8 = 0x3E;

/// Control byte that precedes a command.
pub const CONTROL_COMMAND: u8 = 0x80;

/// Control byte that precedes a byte of display data.
pub const CONTROL_DATA: u8 = 0x40;

// Commands.
pub const LCD_CLEARDISPLAY: u8 = 0x01;

pub const LCD_RETURNHOME: u8 = 0x02;

pub const LCD_ENTRYMODESET: u8 = 0x04;

pub const LCD_DISPLAYCONTROL: u8 = 0x08;

pub const LCD_CURSORSHIFT: u8 = 0x10;

pub const LCD_FUNCTIONSET: u8 = 0x20;

pub const LCD_SETCGRAMADDR: u8 = 0x40;

pub const LCD_SETDDRAMADDR: u8 = 0x80;

// Flags of the entry-mode register.
pub const LCD_ENTRYLEFT: u8 = 0x02;

pub const LCD_ENTRYSHIFTINCREMENT: u8 = 0x01;

/// All the flags of the entry-mode register.
pub const ENTRY_FLAGS: u8 = 0x03;

// Flags of the display-control register.
pub const LCD_DISPLAYON: u8 = 0x04;

pub const LCD_CURSORON: u8 = 0x02;

pub const LCD_BLINKON: u8 = 0x01;

/// All the flags of the display-control register.
pub const CONTROL_FLAGS: u8 = 0x07;

// Flags of the cursor-shift command.
pub const LCD_DISPLAYMOVE: u8 = 0x08;

pub const LCD_MOVERIGHT: u8 = 0x04;

pub const LCD_MOVELEFT: u8 = 0x00;

// Flags of the function register.
pub const LCD_8BITMODE: u8 = 0x10;

pub const LCD_2LINE: u8 = 0x08;

pub const LCD_5X10DOTS: u8 = 0x04;

/// DDRAM address command of the first cell of the second row.
pub const LCD_SECONDROW: u8 = 0xC0;

/// Height of a character cell.
#[derive(Debug, Clone, Copy)]
pub enum DotSize {
    /// 5x8 dots per character.
    Dots5x8,
    /// 5x10 dots per character; the controller offers it on one-row
    /// displays only.
    Dots5x10,
}

/// The transaction that carries the command `value` to the display.
pub open spec fn command_frame<E>(value: u8) -> Step<E> {
    Step::sent(LCD_ADDRESS, seq![CONTROL_COMMAND, value])
}

/// The transaction that carries the data byte `value` to the display.
pub open spec fn data_frame<E>(value: u8) -> Step<E> {
    Step::sent(LCD_ADDRESS, seq![CONTROL_DATA, value])
}

/// The transactions that carry `bytes` to the display as data, one byte
/// each, in order.
pub open spec fn data_plan<E>(bytes: Seq<u8>) -> Seq<Step<E>> {
    Seq::new(bytes.len(), |i: int| data_frame(bytes[i]))
}

/// The character codes that the display is sent for `text`: of each
/// character the low eight bits of its code point.
pub open spec fn character_codes(text: Seq<char>) -> Seq<u8> {
    Seq::new(text.len(), |i: int| text[i] as u8)
}

/// `register` with `flag` switched on or off and every other bit as it was.
pub open spec fn switched(register: u8, flag: u8, on: bool) -> u8 {
    if on {
        register | flag
    } else {
        register & !flag
    }
}

/// The function register for a display of `lines` rows and cells of
/// `dotsize`. The interface is always eight bits wide, so the register always
/// holds [`LCD_8BITMODE`]. To that comes [`LCD_2LINE`] for more than one row
/// (0x18), or [`LCD_5X10DOTS`], the tall font, where it is asked for and there
/// is exactly one row (0x14); otherwise nothing comes to it (0x10).
pub open spec fn function_flags(lines: u8, dotsize: DotSize) -> u8 {
    if lines > 1 {
        0x18
    } else if dotsize is Dots5x10 && lines == 1 {
        0x14
    } else {
        0x10
    }
}

/// The row that a request for `row` lands on when `lines` rows are
/// configured: the last row is the limit, and row 0 where none is configured.
pub open spec fn clamped_row(row: u8, lines: u8) -> u8 {
    let last: u8 = if lines == 0 {
        0
    } else {
        (lines - 1) as u8
    };
    if row < last {
        row
    } else {
        last
    }
}

/// The command that moves the cursor to column `col` of `row`, clamped to
/// the `lines` configured rows.
pub open spec fn cursor_command(col: u8, row: u8, lines: u8) -> u8 {
    if clamped_row(row, lines) == 0 {
        col | LCD_SETDDRAMADDR
    } else {
        col | LCD_SECONDROW
    }
}

/// The command that points the controller at glyph slot `location`, of
/// which only the low three bits count.
pub open spec fn glyph_command(location: u8) -> u8 {
    LCD_SETCGRAMADDR | ((location & 0x7) << 3)
}

/// Computes [`function_flags`] by setting the interface width, the line
/// flag and the dot flag one after the other.
pub fn function_register(lines: u8, dotsize: DotSize) -> (r: u8)
    ensures
        r == function_flags(lines, dotsize),
{
    let rows: u8 = if lines > 1 {
        LCD_2LINE
    } else {
        0
    };
    let dots: u8 = match dotsize {
        DotSize::Dots5x10 => if lines == 1 {
            LCD_5X10DOTS
        } else {
            0
        },
        DotSize::Dots5x8 => 0,
    };
    assert(0x10u8 | 0x08u8 | 0u8 == 0x18u8) by (bit_vector);
    assert(0x10u8 | 0u8 | 0x04u8 == 0x14u8) by (bit_vector);
    assert(0x10u8 | 0u8 | 0u8 == 0x10u8) by (bit_vector);
    LCD_8BITMODE | rows | dots
}

/// Computes [`cursor_command`]. For a column below 0x40 the command is the
/// first address of the row plus the column.
pub fn cursor_address(col: u8, row: u8, lines: u8) -> (r: u8)
    ensures
        r == cursor_command(col, row, lines),
        col < 0x40 ==> r == col + if clamped_row(row, lines) == 0 {
            LCD_SETDDRAMADDR
        } else {
            LCD_SECONDROW
        },
{
    let last: u8 = if lines == 0 {
        0
    } else {
        lines - 1
    };
    let row: u8 = if row < last {
        row
    } else {
        last
    };
    assert(col < 0x40 ==> col | 0x80 == col + 0x80 && col | 0xC0 == col + 0xC0) by (bit_vector);
    if row == 0 {
        col | LCD_SETDDRAMADDR
    } else {
        col | LCD_SECONDROW
    }
}

/// Computes [`glyph_command`]. Slot `n` of the eight lies eight addresses
/// after slot `n - 1`, and the slots repeat from 8 on.
pub fn glyph_address(location: u8) -> (r: u8)
    ensures
        r == glyph_command(location),
        r == LCD_SETCGRAMADDR + 8 * (location % 8),
{
    let slot: u8 = location & 0x7;
    assert(slot < 8 && 0x40u8 | (slot << 3) == 0x40 + 8 * (location % 8)) by (bit_vector)
        requires
            slot == location & 0x7,
    ;
    LCD_SETCGRAMADDR | (slot << 3)
}

/// Switching a flag of the display-control register, or of the entry-mode
/// register, leaves the register with flags of its own only.
pub proof fn lemma_flags_within(register: u8, flag: u8, on: bool)
    ensures
        register & !CONTROL_FLAGS == 0 && (flag == LCD_DISPLAYON || flag == LCD_CURSORON || flag
            == LCD_BLINKON) ==> switched(register, flag, on) & !CONTROL_FLAGS == 0,
        register & !ENTRY_FLAGS == 0 && (flag == LCD_ENTRYLEFT || flag == LCD_ENTRYSHIFTINCREMENT)
            ==> switched(register, flag, on) & !ENTRY_FLAGS == 0,
{
    assert(register & !0x07u8 == 0 && (flag == 0x04u8 || flag == 0x02u8 || flag == 0x01u8) ==> (
    register | flag) & !0x07u8 == 0 && (register & !flag) & !0x07u8 == 0) by (bit_vector);
    assert(register & !0x03u8 == 0 && (flag == 0x02u8 || flag == 0x01u8) ==> (register | flag)
        & !0x03u8 == 0 && (register & !flag) & !0x03u8 == 0) by (bit_vector);
}

/// A register without flags, and one with the single flag that
/// initialisation sets, hold flags of their own only.
pub proof fn lemma_initial_flags()
    ensures
        0u8 & !CONTROL_FLAGS == 0,
        0u8 & !ENTRY_FLAGS == 0,
        LCD_DISPLAYON & !CONTROL_FLAGS == 0,
        LCD_ENTRYLEFT & !ENTRY_FLAGS == 0,
{
    assert(0u8 & !0x07u8 == 0) by (bit_vector);
    assert(0u8 & !0x03u8 == 0) by (bit_vector);
    assert(0x04u8 & !0x07u8 == 0) by (bit_vector);
    assert(0x02u8 & !0x03u8 == 0) by (bit_vector);
}

/// A request to switch one flag of a register on or off.
pub struct Toggle {
    /// The bit of the flag.
    pub flag: u8,
    /// Whether the flag is to be on afterwards.
    pub on: bool,
}

/// Whether `flag` is a single bit of a register.
pub open spec fn is_flag(flag: u8) -> bool {
    flag == 0x01 || flag == 0x02 || flag == 0x04 || flag == 0x08 || flag == 0x10 || flag == 0x20
        || flag == 0x40 || flag == 0x80
}

/// `register` after the `toggles` have been applied to it one after the
/// other, each as [`switched`] applies it.
pub open spec fn switched_all(register: u8, toggles: Seq<Toggle>) -> u8
    decreases toggles.len(),
{
    if toggles.len() == 0 {
        register
    } else {
        let last = toggles.last();
        switched(switched_all(register, toggles.drop_last()), last.flag, last.on)
    }
}

/// What the last of the `toggles` that names `flag` asks for, if any of
/// them names it.
pub open spec fn last_request(toggles: Seq<Toggle>, flag: u8) -> Option<bool>
    decreases toggles.len(),
{
    if toggles.len() == 0 {
        None
    } else if toggles.last().flag == flag {
        Some(toggles.last().on)
    } else {
        last_request(toggles.drop_last(), flag)
    }
}

/// All the bits that the `toggles` name.
pub open spec fn touched(toggles: Seq<Toggle>) -> u8
    decreases toggles.len(),
{
    if toggles.len() == 0 {
        0
    } else {
        touched(toggles.drop_last()) | toggles.last().flag
    }
}

/// The bits that the `toggles` leave on: those that the last toggle to name
/// them switched on.
pub open spec fn left_on(toggles: Seq<Toggle>) -> u8
    decreases toggles.len(),
{
    if toggles.len() == 0 {
        0
    } else {
        switched(left_on(toggles.drop_last()), toggles.last().flag, toggles.last().on)
    }
}

/// A sequence of toggles acts on a register as two masks that do not depend
/// on the register: the bits that the toggles name are replaced by what the
/// toggles leave on, and every other bit of the register stays as it was.
pub proof fn lemma_toggles_as_masks(register: u8, toggles: Seq<Toggle>)
    ensures
        switched_all(register, toggles) == (register & !touched(toggles)) | left_on(toggles),
    decreases toggles.len(),
{
    if toggles.len() == 0 {
        assert(register == (register & !0u8) | 0u8) by (bit_vector);
    } else {
        let earlier = toggles.drop_last();
        lemma_toggles_as_masks(register, earlier);
        let named = touched(earlier);
        let on = left_on(earlier);
        let flag = toggles.last().flag;
        assert(((register & !named) | on) | flag == (register & !(named | flag)) | (on | flag))
            by (bit_vector);
        assert(((register & !named) | on) & !flag == (register & !(named | flag)) | (on & !flag))
            by (bit_vector);
    }
}

/// Switching one flag leaves every other flag as it was, and sets the flag
/// itself as asked.
pub proof fn lemma_switched_one(register: u8, toggled: u8, on: bool, flag: u8)
    requires
        is_flag(toggled),
        is_flag(flag),
    ensures
        switched(register, toggled, on) & flag == if toggled != flag {
            register & flag
        } else if on {
            flag
        } else {
            0
        },
{
    assert((register | toggled) & flag == if toggled != flag {
        register & flag
    } else {
        flag
    }) by (bit_vector)
        requires
            is_flag(toggled),
            is_flag(flag),
    ;
    assert((register & !toggled) & flag == if toggled != flag {
        register & flag
    } else {
        0
    }) by (bit_vector)
        requires
            is_flag(toggled),
            is_flag(flag),
    ;
}

/// Flags are toggled independently: after any sequence of toggles, in any
/// order, each flag of the register is what the last toggle of that very
/// flag asked for, and a flag that no toggle named is as it was at the
/// start. No toggle disturbs a flag other than its own.
pub proof fn lemma_toggles_independent(register: u8, toggles: Seq<Toggle>, flag: u8)
    requires
        is_flag(flag),
        forall|i: int| 0 <= i < toggles.len() ==> is_flag(#[trigger] toggles[i].flag),
    ensures
        switched_all(register, toggles) & flag == match last_request(toggles, flag) {
            Some(on) => if on {
                flag
            } else {
                0
            },
            None => register & flag,
        },
    decreases toggles.len(),
{
    if toggles.len() > 0 {
        let earlier = toggles.drop_last();
        assert forall|i: int| 0 <= i < earlier.len() implies is_flag(
            #[trigger] earlier[i].flag,
        ) by {
            assert(earlier[i] == toggles[i]);
        }
        lemma_toggles_independent(register, earlier, flag);
        lemma_switched_one(
            switched_all(register, earlier),
            toggles.last().flag,
            toggles.last().on,
            flag,
        );
    }
}

} // verus!
