//! Tick rates and intervals, held as the bit patterns of IEEE 754 binary64
//! numbers.

use vstd::prelude::*;

verus! {

/// A binary64 number by its bit pattern.
#[derive(Clone, Copy, Debug, PartialEq, Eq, Structural, Default)]
pub struct Rate {
    /// Sign bit, eleven exponent bits and fifty-two fraction bits, from the
    /// highest bit down.
    pub bits: u64,
}

impl Rate {
    /// The sign bit is set.
    pub open spec fn negative(self) -> bool {
        self.bits >= 0x8000_0000_0000_0000
    }

    /// Neither an infinity nor a NaN: not all exponent bits are set.
    pub open spec fn finite(self) -> bool {
        (self.bits as int / 0x10_0000_0000_0000) % 0x800 != 0x7ff
    }

    /// Either of the two zeros: no exponent or fraction bit is set.
    pub open spec fn zero(self) -> bool {
        self.bits as int % 0x8000_0000_0000_0000 == 0
    }

    /// A finite number that compares as at least zero.
    pub open spec fn finite_and_nonnegative(self) -> bool {
        self.finite() && (!self.negative() || self.zero())
    }
}

/// Positive zero.
pub open spec fn zero_rate() -> Rate {
    Rate { bits: 0 }
}

/// `value` where it is finite and not less than zero, zero otherwise.
pub open spec fn cleaned_rate(value: Rate) -> Rate {
    if value.finite_and_nonnegative() {
        value
    } else {
        zero_rate()
    }
}

/// Replaces what is not a finite number of at least zero by zero.
pub fn finite_nonnegative(value: Rate) -> (r: Rate)
    ensures
        r == cleaned_rate(value),
{
    let finite: bool = (value.bits / 0x10_0000_0000_0000) % 0x800 != 0x7ff;
    let below_zero: bool = value.bits > 0x8000_0000_0000_0000;
    if finite && !below_zero {
        value
    } else {
        Rate { bits: 0 }
    }
}

/// A cleaned rate is finite and not negative, and cleaning it again changes
/// nothing.
pub proof fn law_rate_cleaning(value: Rate)
    ensures
        cleaned_rate(value).finite_and_nonnegative(),
        cleaned_rate(cleaned_rate(value)) == cleaned_rate(value),
{
}

/// A rate is kept, bit for bit, where its pattern is that of a finite number
/// without a sign or of the negative zero; any other becomes positive zero.
pub proof fn law_valid_rates_are_kept(value: Rate)
    ensures
        value.bits < 0x7ff0_0000_0000_0000 || value.bits == 0x8000_0000_0000_0000
            ==> cleaned_rate(value).bits == value.bits,
        value.bits >= 0x7ff0_0000_0000_0000 && value.bits != 0x8000_0000_0000_0000
            ==> cleaned_rate(value).bits == 0,
{
}

} // verus!
