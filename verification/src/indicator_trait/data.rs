use vstd::prelude::*;

verus! {

/// A store that takes InfluxDB line-protocol records.
pub trait DB {
    type Error;

    fn send_db(&mut self, influx_query: &str) -> Result<(), Self::Error>;
}

/// A channel that shares JSON records with other processes.
pub trait SendShareData {
    type Error;

    fn send_share_data(&mut self, json: &str) -> Result<(), Self::Error>;
}

/// A channel that hands out records shared by other processes.
pub trait GetShareData {
    type Error;

    fn get_share_data(&mut self) -> Result<&[u8], Self::Error>;
}

} // verus!
