//! Shared value types: window sizes, query results and errors.

use vstd::prelude::*;
use vstd::std_specs::convert::FromSpecImpl;
use vstd::std_specs::convert::TryFromSpecImpl;
use crate::domain::sample::Sample;

verus! {

/// The largest supported window, which is also what one series keeps in store.
pub const LONGEST_WINDOW: usize = 100_000_000;

/// A supported window length: `E1` is ten samples, each next one ten times more.
#[derive(Debug, Clone, Copy, PartialEq, Eq, Structural)]
pub enum WindowSize {
    E1,
    E2,
    E3,
    E4,
    E5,
    E6,
    E7,
    E8,
}

/// Ten to the power `k`.
pub open spec fn pow10(k: nat) -> nat
    decreases k,
{
    if k == 0 {
        1
    } else {
        10 * pow10((k - 1) as nat)
    }
}

impl WindowSize {
    /// The exponent `k` of the window, from 1 to 8.
    pub open spec fn exponent(self) -> nat {
        match self {
            WindowSize::E1 => 1,
            WindowSize::E2 => 2,
            WindowSize::E3 => 3,
            WindowSize::E4 => 4,
            WindowSize::E5 => 5,
            WindowSize::E6 => 6,
            WindowSize::E7 => 7,
            WindowSize::E8 => 8,
        }
    }

    /// The number of samples in the window, as a table.
    pub open spec fn length(self) -> nat {
        match self {
            WindowSize::E1 => 10,
            WindowSize::E2 => 100,
            WindowSize::E3 => 1_000,
            WindowSize::E4 => 10_000,
            WindowSize::E5 => 100_000,
            WindowSize::E6 => 1_000_000,
            WindowSize::E7 => 10_000_000,
            WindowSize::E8 => 100_000_000,
        }
    }

    /// The window with the given exponent, where there is one.
    pub open spec fn of_exponent(k: nat) -> Option<WindowSize> {
        if k == 1 {
            Some(WindowSize::E1)
        } else if k == 2 {
            Some(WindowSize::E2)
        } else if k == 3 {
            Some(WindowSize::E3)
        } else if k == 4 {
            Some(WindowSize::E4)
        } else if k == 5 {
            Some(WindowSize::E5)
        } else if k == 6 {
            Some(WindowSize::E6)
        } else if k == 7 {
            Some(WindowSize::E7)
        } else if k == 8 {
            Some(WindowSize::E8)
        } else {
            None
        }
    }

    /// The windows from the shortest to the longest.
    pub fn ascending() -> (sizes: [WindowSize; 8])
        ensures
            forall|i: int|
                0 <= i < 8 ==> WindowSize::of_exponent((i + 1) as nat) == Some(#[trigger] sizes[i]),
    {
        [
            WindowSize::E1,
            WindowSize::E2,
            WindowSize::E3,
            WindowSize::E4,
            WindowSize::E5,
            WindowSize::E6,
            WindowSize::E7,
            WindowSize::E8,
        ]
    }

    /// The table of lengths holds the powers of ten, and no window is longer
    /// than what a series keeps in store.
    pub proof fn length_is_power_of_ten(self)
        ensures
            self.length() == pow10(self.exponent()),
            10 <= self.length() <= LONGEST_WINDOW,
    {
        reveal_with_fuel(pow10, 9);
    }

    /// Windows are ordered by their exponent as by their length.
    pub proof fn length_grows_with_exponent(self, other: WindowSize)
        ensures
            self.exponent() < other.exponent() <==> self.length() < other.length(),
            self.exponent() == other.exponent() <==> self == other,
    {
    }

    /// Every window is found again by its exponent.
    pub proof fn exponent_round_trip(self)
        ensures
            WindowSize::of_exponent(self.exponent()) == Some(self),
    {
    }
}

impl From<WindowSize> for usize {
    fn from(value: WindowSize) -> (length: usize) {
        match value {
            WindowSize::E1 => 10,
            WindowSize::E2 => 100,
            WindowSize::E3 => 1_000,
            WindowSize::E4 => 10_000,
            WindowSize::E5 => 100_000,
            WindowSize::E6 => 1_000_000,
            WindowSize::E7 => 10_000_000,
            WindowSize::E8 => 100_000_000,
        }
    }
}

impl FromSpecImpl<WindowSize> for usize {
    open spec fn obeys_from_spec() -> bool {
        true
    }

    open spec fn from_spec(value: WindowSize) -> usize {
        value.length() as usize
    }
}

/// An exponent that names no window: only 1 to 8 do.
#[derive(Debug, Clone, Copy, PartialEq, Eq, Structural)]
pub struct OutOfRange {
    /// The exponent that was refused.
    pub value: u8,
}

impl OutOfRange {
    /// The error in words, with the range that is accepted.
    pub fn message(&self) -> (text: String)
        ensures
            text@ == "value should be in range [1, 8]"@,
    {
        "value should be in range [1, 8]".to_owned()
    }
}

impl TryFrom<u8> for WindowSize {
    type Error = OutOfRange;

    fn try_from(value: u8) -> (size: Result<WindowSize, OutOfRange>) {
        match value {
            1 => Ok(WindowSize::E1),
            2 => Ok(WindowSize::E2),
            3 => Ok(WindowSize::E3),
            4 => Ok(WindowSize::E4),
            5 => Ok(WindowSize::E5),
            6 => Ok(WindowSize::E6),
            7 => Ok(WindowSize::E7),
            8 => Ok(WindowSize::E8),
            _ => Err(OutOfRange { value }),
        }
    }
}

impl TryFromSpecImpl<u8> for WindowSize {
    open spec fn obeys_try_from_spec() -> bool {
        true
    }

    open spec fn try_from_spec(value: u8) -> Result<WindowSize, OutOfRange> {
        match WindowSize::of_exponent(value as nat) {
            Some(size) => Ok(size),
            None => Err(OutOfRange { value }),
        }
    }
}

/// What a query returns for one series and one window.
#[derive(Debug, Clone, Copy, PartialEq, Eq, Structural)]
pub struct Stats {
    /// The smallest sample of the window.
    pub min: Sample,
    /// The largest sample of the window.
    pub max: Sample,
    /// The newest sample of the window.
    pub last: Sample,
}

/// Why a query has no answer.
#[derive(Debug, Clone, Copy, PartialEq, Eq, Structural)]
pub enum StatsError {
    /// No batch was ever taken in under this name.
    NameNotFound,
    /// The series is still shorter than the window.
    WindowIsNotFilled,
}

impl StatsError {
    /// The error in words.
    pub fn message(&self) -> (text: String)
        ensures
            text@ == match *self {
                StatsError::NameNotFound => "Name not found"@,
                StatsError::WindowIsNotFilled => "Window doesn't have enough data"@,
            },
    {
        match self {
            StatsError::NameNotFound => "Name not found".to_owned(),
            StatsError::WindowIsNotFilled => "Window doesn't have enough data".to_owned(),
        }
    }
}

} // verus!
