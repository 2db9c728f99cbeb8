//! The two backlight controllers a board may carry, how the driver tells
//! them apart, and what it writes to each.

use vstd::prelude::*;

use crate::history::Step;

verus! {

/// Bus address of the backlight controller of the older boards.
pub const RGB_ADDRESS: u8 = 0x62;

/// Bus address of the backlight controller of the v5 boards.
pub const RGB_ADDRESS_V5: u8 = 0x30;

// Registers of the older controller.
pub const REG_MODE1: u8 = 0x00;

pub const REG_MODE2: u8 = 0x01;

pub const REG_OUTPUT: u8 = 0x08;

// Registers of the v5 controller.
pub const REG_RESET_V5: u8 = 0x00;

pub const REG_PWM_V5: u8 = 0x04;

// Colour registers of the older controller.
pub const REG_RED: u8 = 0x04;

pub const REG_GREEN: u8 = 0x03;

pub const REG_BLUE: u8 = 0x02;

// Colour registers of the v5 controller, as its documentation gives them.
pub const REG_RED_V5: u8 = 0x06;

pub const REG_GREEN_V5: u8 = 0x07;

pub const REG_BLUE_V5: u8 = 0x08;

/// Which backlight controller the board carries. It is found out once,
/// when the display is initialised, and every later write goes by it.
#[derive(Debug, Clone, Copy, PartialEq, Eq, Structural)]
pub enum BacklightVariant {
    /// The older controller, at [`RGB_ADDRESS`].
    V4,
    /// The controller of the v5 boards, at [`RGB_ADDRESS_V5`].
    V5,
}

impl BacklightVariant {
    /// The variant that a probe of the v5 address points to: `V5` if a
    /// device answered there, `V4` if none did.
    pub open spec fn detected(answered: bool) -> BacklightVariant {
        if answered {
            BacklightVariant::V5
        } else {
            BacklightVariant::V4
        }
    }

    /// The bus address of the controller.
    pub open spec fn spec_address(self) -> u8 {
        match self {
            BacklightVariant::V4 => RGB_ADDRESS,
            BacklightVariant::V5 => RGB_ADDRESS_V5,
        }
    }

    /// The registers that take the red, the green and the blue level. Each
    /// controller has its own: the older one takes them at 0x04, 0x03 and
    /// 0x02, the v5 controller at 0x06, 0x07 and 0x08, as its documentation
    /// gives them. On the v5 controller 0x04 is the register that enables
    /// the outputs, and takes no colour.
    pub open spec fn spec_colour_registers(self) -> (u8, u8, u8) {
        match self {
            BacklightVariant::V4 => (REG_RED, REG_GREEN, REG_BLUE),
            BacklightVariant::V5 => (REG_RED_V5, REG_GREEN_V5, REG_BLUE_V5),
        }
    }

    /// The bus address of the controller.
    #[verifier::when_used_as_spec(spec_address)]
    pub fn address(self) -> (r: u8)
        ensures
            r == self.spec_address(),
    {
        match self {
            BacklightVariant::V4 => RGB_ADDRESS,
            BacklightVariant::V5 => RGB_ADDRESS_V5,
        }
    }

    /// The registers that take the red, the green and the blue level.
    #[verifier::when_used_as_spec(spec_colour_registers)]
    pub fn colour_registers(self) -> (r: (u8, u8, u8))
        ensures
            r == self.spec_colour_registers(),
    {
        match self {
            BacklightVariant::V4 => (REG_RED, REG_GREEN, REG_BLUE),
            BacklightVariant::V5 => (REG_RED_V5, REG_GREEN_V5, REG_BLUE_V5),
        }
    }
}

/// The transaction that sets `register` of the device at `address` to
/// `value`.
pub open spec fn register_frame<E>(address: u8, register: u8, value: u8) -> Step<E> {
    Step::sent(address, seq![register, value])
}

/// The empty write to the v5 address by which the driver finds out which
/// controller is there, with the error that the transport gave if no device
/// answered.
pub open spec fn probe<E>(failure: Option<E>) -> Step<E> {
    Step::write(RGB_ADDRESS_V5, Seq::empty(), failure)
}

/// The writes that bring the controller out of reset.
pub open spec fn wake_plan<E>(variant: BacklightVariant) -> Seq<Step<E>> {
    match variant {
        BacklightVariant::V4 => seq![
            register_frame(RGB_ADDRESS, REG_MODE1, 0x00),
            register_frame(RGB_ADDRESS, REG_OUTPUT, 0xFF),
            register_frame(RGB_ADDRESS, REG_MODE2, 0x20),
        ],
        BacklightVariant::V5 => seq![
            register_frame(RGB_ADDRESS_V5, REG_RESET_V5, 0x07),
            Step::wait_us(200),
            register_frame(RGB_ADDRESS_V5, REG_PWM_V5, 0x15),
        ],
    }
}

/// The three writes that set the colour: red, then green, then blue.
pub open spec fn colour_plan<E>(variant: BacklightVariant, r: u8, g: u8, b: u8) -> Seq<Step<E>> {
    seq![
        register_frame(variant.address(), variant.colour_registers().0, r),
        register_frame(variant.address(), variant.colour_registers().1, g),
        register_frame(variant.address(), variant.colour_registers().2, b),
    ]
}

} // verus!
