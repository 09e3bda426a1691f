//! Derivation of a VPN dial-in password from a compact password
//! specification and a periodically published numeric matrix.
//!
//! The specification encodes eight coordinate lookups into a 3x16 grid of
//! decimal digits plus a literal suffix; evaluating it against the current
//! grid yields the secret. The grid is parsed from page markup, the
//! specification from a fixed-width text encoding.

pub mod coord;
pub mod digits;
pub mod error;
pub mod matrix;
pub mod password;
