//! Blood-glucose measurement library.
//!
//! Parses free-form textual blood-glucose readings ("5.7mmol", "100 mg",
//! "40") into a typed value tagged with its unit (mg/dL or mmol/L),
//! disambiguates readings whose unit is not stated, converts between the
//! two units, and derives estimated A1c values in three reporting scales
//! (DCCT %, IFCC mmol/mol, fructosamine).
//!
//! Fractional quantities are held as exact decimal numbers with six
//! fractional digits (integer counts of millionths); every operation that
//! leaves that grid rounds to the nearest representable value, ties away
//! from zero.

pub mod a1c;
pub mod decimal;
pub mod glucose;
pub mod rounding;
pub mod text;
