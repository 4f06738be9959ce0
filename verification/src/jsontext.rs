//! How serde_json writes a number.

use vstd::prelude::*;
use crate::json::NumberV;
use crate::text::{dec, dec_int};

verus! {

/// A number as serde_json writes it (a float keeps the text it was read
/// with, which is serde_json's own rendering).
pub open spec fn number_text(n: NumberV) -> Seq<char> {
    match n {
        NumberV::PosInt(u) => dec(u as nat),
        NumberV::NegInt(i) => dec_int(i as int),
        NumberV::Float(t) => t,
    }
}

} // verus!
