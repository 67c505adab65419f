//! Defaults of the server's configuration.
use vstd::prelude::*;

verus! {

/// The port that the server listens on unless configured otherwise.
pub fn default_port() -> (r: u16)
    ensures
        r == 8080,
{
    8080
}

} // verus!
