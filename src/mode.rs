//! The simulation mode named in the configuration.
use vstd::prelude::*;

verus! {

/// Which couplings of the dynamics are active.
#[derive(Clone, Copy, Debug, PartialEq, Eq, Structural)]
pub enum Mode {
    /// Retarded feedback: the pressure comes from the reflected spectrum that
    /// reaches the sail after the light's round trip.
    Delay,
    /// Constant pressure rescaled once by `1 / (1 - alpha1 * alpha2)`.
    Lubin,
    /// Constant pressure, no feedback.
    Plain,
}

impl Mode {
    /// The mode named `name`: "delay", "lubin", or any other name for plain
    /// dynamics.
    pub fn from_name(name: &str) -> (r: Mode)
        ensures
            r == Mode::Delay <==> name@ == "delay"@,
            r == Mode::Lubin <==> name@ == "lubin"@,
    {
        proof {
            reveal_strlit("delay");
            reveal_strlit("lubin");
            assert("delay"@ != "lubin"@) by {
                assert("delay"@[0] != "lubin"@[0]);
            }
        }
        let given = name.to_owned();
        if given == "delay".to_owned() {
            Mode::Delay
        } else if given == "lubin".to_owned() {
            Mode::Lubin
        } else {
            Mode::Plain
        }
    }

    /// Whether the pressure is taken from the retarded feedback.
    pub fn feedback_active(&self) -> (r: bool)
        ensures
            r == (*self == Mode::Delay),
    {
        match self {
            Mode::Delay => true,
            _ => false,
        }
    }

    /// Whether the initial pressure is rescaled by the reflectivities.
    pub fn rescales_pressure(&self) -> (r: bool)
        ensures
            r == (*self == Mode::Lubin),
    {
        match self {
            Mode::Lubin => true,
            _ => false,
        }
    }
}

/// What one outer step does about the retarded feedback.
#[derive(Clone, Copy, Debug, PartialEq, Eq, Structural)]
pub enum Feedback {
    /// The pressure stays as it is.
    Hold,
    /// A new spectrum generation is propagated and the pressure is taken from it.
    Propagate,
    /// The retarded pressure is undefined; the pressure falls back to 1.
    UnitPressure,
}

/// The feedback of a step in `mode`. `at_start` holds at the initial time,
/// before anything has been recorded; `retarded_defined` tells whether the
/// pressure at the retarded time is a number.
pub fn feedback_step(mode: Mode, at_start: bool, retarded_defined: bool) -> (r: Feedback)
    ensures
        r == (if mode != Mode::Delay || at_start {
            Feedback::Hold
        } else if retarded_defined {
            Feedback::Propagate
        } else {
            Feedback::UnitPressure
        }),
{
    if !mode.feedback_active() || at_start {
        Feedback::Hold
    } else if retarded_defined {
        Feedback::Propagate
    } else {
        Feedback::UnitPressure
    }
}

} // verus!
