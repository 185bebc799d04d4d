//! Settings records.

use std::path::PathBuf;
use vstd::prelude::*;

verus! {

/// `std::path::PathBuf`, an owned file path. It is carried and handed on,
/// never looked into.
#[verifier::external_type_specification]
#[verifier::external_body]
pub struct ExPathBuf(PathBuf);

/// Access control by bearer tokens.
#[derive(Debug, Clone)]
pub struct AccessControlConfig {
    pub enabled: bool,
    pub tokens: Vec<String>,
}

/// Settings of the DNSCrypt service.
#[derive(Debug, Clone)]
pub struct DNSCryptoConfig {
    pub enabled: Option<bool>,
    pub provider_name: String,
    pub key_cache_capacity: usize,
    pub dnssec: bool,
    pub no_filters: bool,
    pub no_logs: bool,
}

/// Where the filtering lists are kept.
#[derive(Debug, Clone)]
pub struct FilteringConfig {
    pub domain_blacklist: Option<PathBuf>,
    pub undelegated_list: Option<PathBuf>,
    pub ignored_unqualified_hostnames: Option<bool>,
}

} // verus!
