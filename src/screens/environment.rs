//! A screen that shows the latest CO2 and temperature readings.
use vstd::prelude::*;

use crate::geometry::{Colour, Size};
use crate::screens::{Screen, DEFAULT_DURATION_MS};

verus! {

/// From this CO2 concentration on (in ppm) the reading is shown in yellow.
pub const CO2_YELLOW_THRESHOLD: u32 = 1000;

/// From this CO2 concentration on (in ppm) the reading is shown in red.
pub const CO2_RED_THRESHOLD: u32 = 1200;

/// The digit characters, by value.
pub open spec fn digit_char(d: nat) -> char {
    seq!['0', '1', '2', '3', '4', '5', '6', '7', '8', '9'][d as int]
}

/// `n` written in decimal, without sign or leading zeros.
pub open spec fn decimal(n: nat) -> Seq<char>
    decreases n,
{
    if n < 10 {
        seq![digit_char(n)]
    } else {
        decimal(n / 10).push(digit_char(n % 10))
    }
}

/// What is shown in place of a reading that is absent.
pub open spec fn placeholder() -> Seq<char> {
    "--"@
}

/// The colour that a CO2 reading is shown in: green below the yellow
/// threshold, yellow below the red one, red from there on; white when absent.
pub open spec fn co2_tier(co2: Option<u32>) -> Colour {
    match co2 {
        None => Colour { r: 255, g: 255, b: 255 },
        Some(c) => if c < CO2_YELLOW_THRESHOLD {
            Colour { r: 0, g: 255, b: 0 }
        } else if c < CO2_RED_THRESHOLD {
            Colour { r: 255, g: 255, b: 0 }
        } else {
            Colour { r: 255, g: 0, b: 0 }
        },
    }
}

/// A screen that shows a CO2 reading and a temperature reading side by side.
///
/// The temperature is held as the text that shows it. Either reading may be
/// absent, and is then shown as a placeholder.
#[derive(Debug)]
pub struct EnvironmentScreen {
    temperature: Option<String>,
    co2: Option<u32>,
}

impl EnvironmentScreen {
    pub closed spec fn spec_temperature(self) -> Option<Seq<char>> {
        match self.temperature {
            Some(t) => Some(t@),
            None => None,
        }
    }

    pub closed spec fn spec_co2(self) -> Option<u32> {
        self.co2
    }

    /// Shows the given readings.
    pub fn new(temperature: Option<String>, co2: Option<u32>) -> (r: Self)
        ensures
            r.spec_co2() == co2,
            r.spec_temperature() == match temperature {
                Some(t) => Some(t@),
                None => None::<Seq<char>>,
            },
    {
        EnvironmentScreen { temperature, co2 }
    }

    /// The colour of the CO2 icon and reading.
    pub fn co2_colour(&self) -> (r: Colour)
        ensures
            r == co2_tier(self.spec_co2()),
    {
        match self.co2 {
            None => Colour::white(),
            Some(c) => if c < CO2_YELLOW_THRESHOLD {
                Colour::green()
            } else if c < CO2_RED_THRESHOLD {
                Colour::yellow()
            } else {
                Colour::red()
            },
        }
    }

    /// The text of the CO2 reading: its value in ppm, or the placeholder.
    pub fn co2_label(&self) -> (r: String)
        ensures
            r@ == match self.spec_co2() {
                Some(c) => decimal(c as nat),
                None => placeholder(),
            },
    {
        match self.co2 {
            Some(c) => decimal_text(c),
            None => placeholder_text(),
        }
    }

    /// The text of the temperature reading, or the placeholder.
    pub fn temperature_label(&self) -> (r: String)
        ensures
            r@ == match self.spec_temperature() {
                Some(t) => t,
                None => placeholder(),
            },
    {
        match &self.temperature {
            Some(t) => t.clone(),
            None => placeholder_text(),
        }
    }
}

/// The placeholder for an absent reading.
fn placeholder_text() -> (r: String)
    ensures
        r@ == placeholder(),
{
    "--".to_owned()
}

/// Relies on `ToString` through u32's `Display`, which writes the number in
/// decimal digits, without sign, padding or leading zeros.
#[verifier::external_body]
fn decimal_text(n: u32) -> (r: String)
    ensures
        r@ == decimal(n as nat),
{
    n.to_string()
}

impl Screen for EnvironmentScreen {
    open spec fn spec_id(&self) -> Seq<char> {
        "environment"@
    }

    open spec fn spec_duration(&self, display: Size) -> nat {
        DEFAULT_DURATION_MS as nat
    }

    open spec fn spec_paused(&self, for_ms: u64) -> Self {
        *self
    }

    open spec fn spec_should_remove(&self) -> bool {
        false
    }

    /// A fixed identifier, so that a new reading can replace the screen.
    fn id(&self) -> (r: &str) {
        "environment"
    }

    fn single_display_duration(&self, display: Size) -> (r: u128) {
        DEFAULT_DURATION_MS
    }

    fn paused(&mut self, for_ms: u64) {
    }

    /// Never leaves the rotation by itself.
    fn should_remove(&self) -> (r: bool) {
        false
    }
}

} // verus!
