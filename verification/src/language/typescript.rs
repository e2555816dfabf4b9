//! typescript-language-server: publishes diagnostics, so no pull diagnostics are asked for.
use vstd::prelude::*;
use crate::json::{Json, JsonValue};
use crate::language::{capabilities_value, capabilities_with};

verus! {

/// typescript-language-server capabilities.
pub fn client_capabilities() -> (r: Json)
    ensures
        r@ == capabilities_value(false),
{
    capabilities_with(false)
}

} // verus!
