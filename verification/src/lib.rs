//! Hexadecimal colour codes: a colour value of four 8-bit channels, and the
//! conversion between such values and their textual form `#rrggbbaa` or
//! `#aarrggbb`.

pub mod color;
pub mod hex;
pub mod round_trip;
pub mod window;
