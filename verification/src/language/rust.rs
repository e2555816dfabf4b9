//! rust-analyzer: asks for pull diagnostics.
use vstd::prelude::*;
use crate::json::{Json, JsonValue};
use crate::language::{capabilities_value, capabilities_with};

verus! {

/// rust-analyzer–specific initialization parameters.
pub fn client_capabilities() -> (r: Json)
    ensures
        r@ == capabilities_value(true),
{
    capabilities_with(true)
}

} // verus!
