//! The decisions of a thermostat: what the furnace, the air conditioner and
//! the fan are asked to do, given the mode, the fan mode and where the
//! measured temperature lies relative to the set point. Measuring, comparing
//! temperatures and driving the relays are left to the caller.

use vstd::prelude::*;

verus! {

/// A relay that is closed, a unit that runs.
pub const ON: bool = true;

/// A relay that is open, a unit that rests.
pub const OFF: bool = false;

/// What the thermostat is set to do.
#[derive(Debug, Clone, Copy, PartialEq, Eq, Structural)]
pub enum Mode {
    /// Neither heat nor cool.
    Off,
    /// Heat when it is too cold.
    Heat,
    /// Cool when it is too warm.
    Cool,
    /// Heat when it is too cold and cool when it is too warm.
    Hold,
}

/// How the fan is run.
#[derive(Debug, Clone, Copy, PartialEq, Eq, Structural)]
pub enum FanMode {
    /// Always.
    On,
    /// Only while the furnace or the air conditioner runs.
    Auto,
}

/// Where the measured temperature lies relative to the band of one
/// hysteresis on either side of the set point. The three answers are those of
/// three comparisons and are taken as they come: with a temperature that
/// compares with nothing, none of them holds.
#[derive(Debug, Clone, Copy, PartialEq, Eq, Structural)]
pub struct Reading {
    /// The temperature is less than the set point minus the hysteresis.
    pub below: bool,
    /// The temperature is greater than the set point plus the hysteresis.
    pub above: bool,
    /// The temperature is at least the set point minus the hysteresis and
    /// at most the set point plus the hysteresis.
    pub within: bool,
}

/// What the last check before the relays are driven had to correct.
#[derive(Debug, Clone, Copy, PartialEq, Eq, Structural)]
pub struct SafetyReport {
    /// Furnace and air conditioner were both asked to run; both were
    /// switched off.
    pub conflict: bool,
    /// The furnace or the air conditioner was to run with the fan off; the
    /// fan was switched on.
    pub fan_forced: bool,
}

/// What the thermostat asks of the furnace, the air conditioner and the fan,
/// and the settings it decides by.
pub struct Thermostat {
    /// Whether the furnace is to run.
    pub heat: bool,
    /// Whether the air conditioner is to run.
    pub ac: bool,
    /// Whether the fan is to run.
    pub fan: bool,
    /// How the fan is run.
    pub fan_mode: FanMode,
    /// The temperature aimed at.
    pub set_point: i16,
    /// What the thermostat is set to do.
    pub mode: Mode,
    /// Whether the display's backlight is on.
    pub backlight: bool,
}

/// What `mode` asks of the furnace and of the air conditioner, in this
/// order, when they are at `heat` and `ac` and the temperature is at
/// `reading`. Off switches both off. Heat switches the furnace on below the
/// band and both off above it; Cool switches the air conditioner on above the
/// band and both off below it; Hold does the one below and the other above,
/// and switches both off within the band. Where none of these fits, they stay
/// as they are.
pub open spec fn hvac_action(mode: Mode, reading: Reading, heat: bool, ac: bool) -> (bool, bool) {
    match mode {
        Mode::Off => (OFF, OFF),
        Mode::Heat => if reading.below {
            (ON, OFF)
        } else if reading.above {
            (OFF, OFF)
        } else {
            (heat, ac)
        },
        Mode::Cool => if reading.above {
            (OFF, ON)
        } else if reading.below {
            (OFF, OFF)
        } else {
            (heat, ac)
        },
        Mode::Hold => if reading.below {
            (ON, OFF)
        } else if reading.above {
            (OFF, ON)
        } else if reading.within {
            (OFF, OFF)
        } else {
            (heat, ac)
        },
    }
}

/// Whether the fan is to run under `fan_mode` when the furnace and the air
/// conditioner are at `heat` and `ac`.
pub open spec fn fan_action(fan_mode: FanMode, heat: bool, ac: bool) -> bool {
    match fan_mode {
        FanMode::On => ON,
        FanMode::Auto => heat || ac,
    }
}

impl Thermostat {
    /// Decides what the furnace and the air conditioner are to do
    /// ([`hvac_action`]). Nothing else changes.
    pub fn determine_hvac_action(&mut self, reading: Reading)
        ensures
            (final(self).heat, final(self).ac) == hvac_action(
                old(self).mode,
                reading,
                old(self).heat,
                old(self).ac,
            ),
            final(self).fan == old(self).fan,
            final(self).fan_mode == old(self).fan_mode,
            final(self).set_point == old(self).set_point,
            final(self).mode == old(self).mode,
            final(self).backlight == old(self).backlight,
    {
        match self.mode {
            Mode::Off => {
                self.heat = OFF;
                self.ac = OFF;
            },
            Mode::Heat => {
                if reading.below {
                    self.heat = ON;
                    self.ac = OFF;
                } else if reading.above {
                    self.heat = OFF;
                    self.ac = OFF;
                }
            },
            Mode::Cool => {
                if reading.above {
                    self.ac = ON;
                    self.heat = OFF;
                } else if reading.below {
                    self.ac = OFF;
                    self.heat = OFF;
                }
            },
            Mode::Hold => {
                if reading.below {
                    self.heat = ON;
                    self.ac = OFF;
                } else if reading.above {
                    self.ac = ON;
                    self.heat = OFF;
                } else if reading.within {
                    self.heat = OFF;
                    self.ac = OFF;
                }
            },
        }
    }

    /// Decides whether the fan is to run ([`fan_action`]). Nothing else
    /// changes.
    pub fn control_fan(&mut self)
        ensures
            final(self).fan == fan_action(old(self).fan_mode, old(self).heat, old(self).ac),
            final(self).heat == old(self).heat,
            final(self).ac == old(self).ac,
            final(self).fan_mode == old(self).fan_mode,
            final(self).set_point == old(self).set_point,
            final(self).mode == old(self).mode,
            final(self).backlight == old(self).backlight,
    {
        match self.fan_mode {
            FanMode::On => {
                self.fan = ON;
            },
            FanMode::Auto => {
                if self.heat == ON || self.ac == ON {
                    self.fan = ON;
                } else {
                    self.fan = OFF;
                }
            },
        }
    }

    /// Makes what is asked of the three units safe to drive the relays
    /// with, and reports what had to be corrected. Furnace and air conditioner
    /// never run together: if both are asked for, both are switched off.
    /// Neither runs without the fan: if one of them is to run, the fan is
    /// switched on. Afterwards `heat`, `ac` and `fan` are the levels for the
    /// three relays.
    pub fn apply_hardware_states(&mut self) -> (report: SafetyReport)
        ensures
            report.conflict == (old(self).heat && old(self).ac),
            final(self).heat == (old(self).heat && !old(self).ac),
            final(self).ac == (old(self).ac && !old(self).heat),
            report.fan_forced == ((final(self).heat || final(self).ac) && !old(self).fan),
            final(self).fan == (old(self).fan || final(self).heat || final(self).ac),
            !(final(self).heat && final(self).ac),
            final(self).heat || final(self).ac ==> final(self).fan,
            final(self).fan_mode == old(self).fan_mode,
            final(self).set_point == old(self).set_point,
            final(self).mode == old(self).mode,
            final(self).backlight == old(self).backlight,
    {
        let mut report = SafetyReport { conflict: false, fan_forced: false };
        if self.heat == ON && self.ac == ON {
            self.heat = OFF;
            self.ac = OFF;
            report.conflict = true;
        }
        if (self.heat == ON || self.ac == ON) && self.fan == OFF {
            self.fan = ON;
            report.fan_forced = true;
        }
        report
    }
}

} // verus!
