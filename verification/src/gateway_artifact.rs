//! Stable fixture values for Julia gateway artifact checks.
use vstd::prelude::*;

verus! {

/// Returns the stable base URL used by Studio gateway artifact fixtures.
pub fn julia_gateway_artifact_base_url() -> (r: &'static str)
    ensures
        r@ == "http://127.0.0.1:18080"@,
{
    "http://127.0.0.1:18080"
}

/// Returns the stable schema version used by Studio gateway artifact fixtures.
pub fn julia_gateway_artifact_schema_version() -> (r: &'static str)
    ensures
        r@ == "v1"@,
{
    "v1"
}

/// Returns the stable selected transport used by Studio gateway artifact fixtures.
pub fn julia_gateway_artifact_selected_transport() -> (r: &'static str)
    ensures
        r@ == "arrow_flight"@,
{
    "arrow_flight"
}

} // verus!
