//! Access control settings as the session layer sees them.

use vstd::prelude::*;

verus! {

/// Access control by bearer tokens.
pub struct AccessControlConfig {
    pub enabled: bool,
    pub tokens: Vec<String>,
}

} // verus!
