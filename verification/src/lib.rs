//! Driver for the Grove LCD with RGB backlight: an HD44780-style character
//! display and a backlight controller that share one two-wire bus.
//!
//! [`GroveLcd`] is generic over the bus and the delay source it is given
//! ([`Bus`], [`Delay`]) and assumes nothing of them. It mirrors the
//! controller's write-only registers in a [`Shadow`], and records every bus
//! write and every delay it performs in a ghost history of [`Step`]s. Each
//! operation is specified by the shadow it leaves and by the steps it adds to
//! the history: all the steps of its plan if every write was accepted, and the
//! steps up to the first refused write otherwise.
//!
//! [`GroveLcdRgb`] is a smaller driver for the same board. The modules
//! [`thermostat`] and [`sensor`] hold the decisions of the thermostat that the
//! display was built into.

pub mod backlight;
pub mod bus;
pub mod driver;
pub mod error;
pub mod history;
pub mod minimal;
mod link;
pub mod protocol;
pub mod sensor;
pub mod thermostat;

pub use backlight::{BacklightVariant, RGB_ADDRESS, RGB_ADDRESS_V5};
pub use bus::{Bus, Delay};
pub use driver::{GroveLcd, Shadow};
pub use error::LcdError;
pub use history::Step;
pub use minimal::GroveLcdRgb;
pub use protocol::{DotSize, LCD_ADDRESS};
pub use thermostat::{OFF, ON};
