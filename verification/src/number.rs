//! Lengths of time, and numbers with a fraction by their bits.

use crate::text;
use crate::text::{decimal, digit};
use vstd::prelude::*;

verus! {

/// A single-precision number, kept by its bits. The library hands such numbers on and compares them;
/// it does not compute with them.
#[derive(Debug, Clone, Copy, PartialEq, Eq, Structural)]
pub struct Single {
    pub bits: u32,
}

/// A double-precision number, kept by its bits.
#[derive(Debug, Clone, Copy, PartialEq, Eq, Structural)]
pub struct Double {
    pub bits: u64,
}

/// The bit of a single-precision number that holds its sign.
pub const SINGLE_SIGN: u32 = 0x8000_0000;

/// The bit of a double-precision number that holds its sign.
pub const DOUBLE_SIGN: u64 = 0x8000_0000_0000_0000;

/// The bits of the single-precision number one.
pub const SINGLE_ONE: u32 = 0x3F80_0000;

/// The bits of the single-precision number two.
pub const SINGLE_TWO: u32 = 0x4000_0000;

/// The bits of the double-precision number one.
pub const DOUBLE_ONE: u64 = 0x3FF0_0000_0000_0000;

impl Single {
    /// Whether the number lies between zero and the number with the bits `top`, which is positive.
    /// Numbers without a sign are ordered as their bits are; the other zero has the sign bit alone.
    pub open spec fn up_to(self, top: u32) -> bool {
        self.bits <= top || self.bits == SINGLE_SIGN
    }

    /// Whether the number lies between minus and plus the number with the bits `top`.
    pub open spec fn within(self, top: u32) -> bool {
        self.bits <= top || (SINGLE_SIGN <= self.bits && self.bits - SINGLE_SIGN <= top)
    }

    /// Whether the number lies between zero and the positive number with the bits `top`.
    pub fn is_up_to(self, top: u32) -> (r: bool)
        ensures
            r == self.up_to(top),
    {
        self.bits <= top || self.bits == SINGLE_SIGN
    }

    /// Whether the number lies between minus and plus the positive number with the bits `top`.
    pub fn is_within(self, top: u32) -> (r: bool)
        ensures
            r == self.within(top),
    {
        self.bits <= top || (SINGLE_SIGN <= self.bits && self.bits - SINGLE_SIGN <= top)
    }
}

impl Double {
    /// Whether the number lies between zero and one.
    pub open spec fn is_share(self) -> bool {
        self.bits <= DOUBLE_ONE || self.bits == DOUBLE_SIGN
    }

    /// Whether the number lies between zero and one.
    pub fn is_fraction(self) -> (r: bool)
        ensures
            r == self.is_share(),
    {
        self.bits <= DOUBLE_ONE || self.bits == DOUBLE_SIGN
    }
}

/// A length of time in nanoseconds.
#[derive(Debug, Clone, Copy, PartialEq, Eq, Structural)]
pub struct Duration {
    pub nanos: u128,
}

/// The digits of a fraction, of which `scale` is the place of the first, up to the last that is not
/// zero.
pub open spec fn fraction(part: nat, scale: nat) -> Seq<char>
    decreases scale,
{
    if part == 0 || scale == 0 {
        Seq::empty()
    } else {
        seq![digit(part / scale)] + fraction(part % scale, scale / 10)
    }
}

/// An amount of a unit that has `size` parts, with as many decimals as it needs.
pub open spec fn amount(parts: nat, size: nat, unit: Seq<char>) -> Seq<char> {
    decimal(parts / size) + if parts % size == 0 {
        unit
    } else {
        "."@ + fraction(parts % size, size / 10) + unit
    }
}

/// A length of time as it is written: in the largest unit, up to seconds, of which it is at least one.
pub open spec fn time_text(nanos: nat) -> Seq<char> {
    if nanos >= 1_000_000_000 {
        amount(nanos, 1_000_000_000, "s"@)
    } else if nanos >= 1_000_000 {
        amount(nanos, 1_000_000, "ms"@)
    } else if nanos >= 1_000 {
        amount(nanos, 1_000, "µs"@)
    } else {
        amount(nanos, 1, "ns"@)
    }
}

/// The digits of a fraction.
fn write_fraction(part: u128, scale: u128) -> (r: Vec<char>)
    requires
        part < 10 * scale,
        is_place(scale),
    ensures
        r@ == fraction(part as nat, scale as nat),
{
    let mut out: Vec<char> = Vec::new();
    let mut rest: u128 = part;
    let mut place: u128 = scale;
    assert(out@ + fraction(part as nat, scale as nat) =~= fraction(part as nat, scale as nat));
    while rest > 0 && place > 0
        invariant
            rest < 10 * place || rest == 0,
            place == 0 || is_place(place),
            out@ + fraction(rest as nat, place as nat) == fraction(part as nat, scale as nat),
        decreases place,
    {
        assert(rest / place < 10) by (nonlinear_arith)
            requires
                rest < 10 * place,
                place > 0,
        ;
        assert(rest % place < place);
        let d: u8 = (rest / place) as u8;
        let ghost before = out@;
        let ghost left = fraction(rest as nat % place as nat, place as nat / 10);
        let c: char = (0x30u8 + d) as char;
        out.push(c);
        proof {
            assert(c == digit(rest as nat / place as nat));
            assert(before + (seq![c] + left) =~= out@ + left);
        }
        rest = rest % place;
        place = place / 10;
    }
    assert(out@ + Seq::<char>::empty() =~= out@);
    out
}

/// Whether a number is a power of ten up to a hundred million.
pub open spec fn is_place(n: u128) -> bool {
    n == 100_000_000 || n == 10_000_000 || n == 1_000_000 || n == 100_000 || n == 10_000 || n == 1_000
        || n == 100 || n == 10 || n == 1
}

/// An amount of a unit that has `size` parts.
fn write_amount(parts: u128, size: u128, unit: &str) -> (r: String)
    requires
        size == 1_000_000_000 || size == 1_000_000 || size == 1_000 || size == 1,
    ensures
        r@ == amount(parts as nat, size as nat, unit@),
{
    let mut out = text::string_of(text::decimal_of(parts / size).as_slice());
    if parts % size > 0 {
        let digits = write_fraction(parts % size, size / 10);
        let ghost whole = out@;
        out.append(".");
        out.append(text::string_of(digits.as_slice()).as_str());
        out.append(unit);
        assert(out@ =~= whole + ("."@ + digits@ + unit@));
    } else {
        out.append(unit);
    }
    out
}

impl Duration {
    /// A number of seconds.
    pub fn from_secs(secs: u64) -> (r: Duration)
        ensures
            r.nanos == secs * 1_000_000_000,
    {
        Duration { nanos: secs as u128 * 1_000_000_000 }
    }

    /// A number of milliseconds.
    pub fn from_millis(millis: u64) -> (r: Duration)
        ensures
            r.nanos == millis * 1_000_000,
    {
        Duration { nanos: millis as u128 * 1_000_000 }
    }

    /// The length of time as it is written.
    pub fn shown(&self) -> (r: String)
        ensures
            r@ == time_text(self.nanos as nat),
    {
        if self.nanos >= 1_000_000_000 {
            write_amount(self.nanos, 1_000_000_000, "s")
        } else if self.nanos >= 1_000_000 {
            write_amount(self.nanos, 1_000_000, "ms")
        } else if self.nanos >= 1_000 {
            write_amount(self.nanos, 1_000, "µs")
        } else {
            write_amount(self.nanos, 1, "ns")
        }
    }

    /// Whether no time passes.
    pub fn is_zero(&self) -> (r: bool)
        ensures
            r == (self.nanos == 0),
    {
        self.nanos == 0
    }
}

} // verus!
