//! The desktop companion's small verified core: its configuration
//! value, the stored-credential record, and the second-resolution
//! timestamp it writes.

use vstd::prelude::*;

verus! {

use crate::bytes::{spec_chars_of, spec_u64_digits};

/// The desktop companion's configuration.
#[derive(Clone, Debug)]
pub struct AppConfig {
    pub orchestrator_url: String,
    pub has_completed_setup: bool,
    pub deployment_mode: String,
}

impl Default for AppConfig {
    /// A local orchestrator, setup not yet completed.
    fn default() -> (r: Self)
        ensures
            r.orchestrator_url@ == "http://localhost:3000"@,
            !r.has_completed_setup,
            r.deployment_mode@ == "windows-wsl"@,
    {
        AppConfig {
            orchestrator_url: "http://localhost:3000".to_owned(),
            has_completed_setup: false,
            deployment_mode: "windows-wsl".to_owned(),
        }
    }
}

/// A provider credential at rest: always encrypted, never plain.
#[derive(Clone, Debug)]
pub struct StoredApiKey {
    pub provider: String,
    pub encrypted_key: String,
    pub created_at: String,
}

/// A point in time, in whole seconds since the epoch.
#[derive(Clone, Copy, Debug, PartialEq, Eq, Structural)]
pub struct DateTime {
    pub secs: u64,
}

/// Relies on `std::time::SystemTime::now` and the epoch duration: the
/// wall clock in whole seconds. Nothing can be promised of a clock
/// reading, so this carries no contract.
#[verifier::external_body]
pub fn now() -> (r: DateTime) {
    let secs = std::time::SystemTime::now().duration_since(std::time::UNIX_EPOCH).map(
        |d| d.as_secs(),
    ).unwrap_or(0);
    DateTime { secs }
}

impl DateTime {
    /// The timestamp's text: the seconds count in decimal.
    pub fn to_rfc3339(&self) -> (r: String)
        ensures
            r@ == spec_chars_of(spec_u64_digits(self.secs as int)),
    {
        crate::storage::seconds_stamp(self.secs)
    }
}

} // verus!
