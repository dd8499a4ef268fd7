use vstd::prelude::*;

verus! {

/// The settings of the websocket relay: where it logs and records, and the
/// address it listens on.
#[derive(Debug, PartialEq, Clone)]
pub struct ApplicationConfig {
    pub log_dir: String,
    pub log_level: String,
    pub record_dir: String,
    pub host: String,
    pub port: u16,
}

} // verus!
