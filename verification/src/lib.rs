//! Decision logic of SECAM method 1 (quarter count-down) chroma restoration:
//! the D'R/D'B line-identity parity flywheel, the line-alternation tally, the
//! blanking-splice geometry and the field guards.

pub mod blanking;
pub mod field;
pub mod line_ident;
pub mod parity;
