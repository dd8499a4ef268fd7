use vstd::prelude::*;

verus! {

/// A record that can be written as JSON.
pub trait Json {
    fn serialize(&self) -> String;
}

/// A record that can be written as an InfluxDB line-protocol line.
pub trait InfluxQuery {
    fn serialize(&self) -> String;
}

/// A record that can be written both as JSON and as a line-protocol line.
pub trait SerializeToJsonAndInfluxQuery: Json + InfluxQuery + Send + Sync {
    fn to_json_and_influx_query(&self) -> (String, String);
}

} // verus!
