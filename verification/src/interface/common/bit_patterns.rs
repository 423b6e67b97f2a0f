//! Marker types for the bit patterns a rank or select support structure
//! can be queried for.

use vstd::prelude::*;
use crate::text::decimal_digits;

verus! {

/// A bit pattern marker: a pattern value and the pattern's length in bits,
/// rendered into native code as `pattern, length`.
pub trait BitPattern {
    /// The pattern and its bit length, as the contracts see them.
    spec fn spec_pattern(&self) -> (int, int);

    /// The marker's name, as the contracts see it.
    spec fn spec_name(&self) -> Seq<char>;

    /// The pattern and its length in bits.
    fn bit_pattern(&self) -> (r: (u8, u8))
        ensures
            (r.0 as int, r.1 as int) == self.spec_pattern(),
    ;

    /// The marker's name.
    fn to_string(&self) -> (r: String)
        ensures
            r@ == self.spec_name(),
    ;

    /// The native code fragment of the pattern: the pattern value and its
    /// length, comma separated.
    fn c_code(&self) -> (r: String)
        ensures
            r@ == decimal_digits(self.spec_pattern().0 as nat) + ", "@ + decimal_digits(
                self.spec_pattern().1 as nat,
            ),
    ;
}

/// The all-zeros bit pattern.
pub struct P0 {}

/// The all-ones bit pattern.
pub struct P1 {}

/// The `10` bit pattern.
pub struct P10 {}

/// The `01` bit pattern.
pub struct P01 {}

/// Render `pattern, length`.
fn render_pattern(pattern: usize, length: usize) -> (r: String)
    ensures
        r@ == decimal_digits(pattern as nat) + ", "@ + decimal_digits(length as nat),
{
    let mut r = crate::text::format_usize(pattern);
    r.append(", ");
    let digits = crate::text::format_usize(length);
    r.append(digits.as_str());
    r
}

impl BitPattern for P0 {
    open spec fn spec_pattern(&self) -> (int, int) {
        (0, 1)
    }

    open spec fn spec_name(&self) -> Seq<char> {
        "P0"@
    }

    fn bit_pattern(&self) -> (r: (u8, u8)) {
        (0, 1)
    }

    fn to_string(&self) -> (r: String) {
        "P0".to_owned()
    }

    fn c_code(&self) -> (r: String) {
        render_pattern(0, 1)
    }
}

impl BitPattern for P1 {
    open spec fn spec_pattern(&self) -> (int, int) {
        (1, 1)
    }

    open spec fn spec_name(&self) -> Seq<char> {
        "P1"@
    }

    fn bit_pattern(&self) -> (r: (u8, u8)) {
        (1, 1)
    }

    fn to_string(&self) -> (r: String) {
        "P1".to_owned()
    }

    fn c_code(&self) -> (r: String) {
        render_pattern(1, 1)
    }
}

impl BitPattern for P10 {
    open spec fn spec_pattern(&self) -> (int, int) {
        (10, 2)
    }

    open spec fn spec_name(&self) -> Seq<char> {
        "P10"@
    }

    fn bit_pattern(&self) -> (r: (u8, u8)) {
        (10, 2)
    }

    fn to_string(&self) -> (r: String) {
        "P10".to_owned()
    }

    fn c_code(&self) -> (r: String) {
        render_pattern(10, 2)
    }
}

impl BitPattern for P01 {
    open spec fn spec_pattern(&self) -> (int, int) {
        (1, 2)
    }

    open spec fn spec_name(&self) -> Seq<char> {
        "P01"@
    }

    fn bit_pattern(&self) -> (r: (u8, u8)) {
        (1, 2)
    }

    fn to_string(&self) -> (r: String) {
        "P01".to_owned()
    }

    fn c_code(&self) -> (r: String) {
        render_pattern(1, 2)
    }
}

} // verus!
