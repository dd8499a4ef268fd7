use vstd::prelude::*;

use crate::indicator_trait::result::InfluxQuery;
use crate::util::string_tool::str_eq;

pub mod ichimoku_cloud;

verus! {

/// One result of a signal, with the place it is filed under.
pub struct Indicator<T> {
    pub table_name: String,
    pub exchange: String,
    pub market_type: String,
    pub msg_type: String,
    pub symbol: String,
    pub signer_type: String,
    pub data: T,
}

/// The tag set of a line-protocol record:
/// `exchange=..,market_type=..,msg_type=..,symbol=..`.
pub open spec fn tag_set(
    exchange: Seq<char>,
    market_type: Seq<char>,
    msg_type: Seq<char>,
    symbol: Seq<char>,
) -> Seq<char> {
    "exchange="@ + exchange + ",market_type="@ + market_type + ",msg_type="@ + msg_type
        + ",symbol="@ + symbol
}

/// The line-protocol record of an indicator whose data reads `data_line`:
/// `<table>,<tag set> <data_line>` and a line break.
pub open spec fn indicator_line<T>(ind: Indicator<T>, data_line: Seq<char>) -> Seq<char> {
    ind.table_name@ + ","@ + tag_set(ind.exchange@, ind.market_type@, ind.msg_type@, ind.symbol@)
        + " "@ + data_line + "\n"@
}

/// A line-protocol record `<table>,<tags> <fields> <timestamp>`.
pub open spec fn influx_query_line(
    table: Seq<char>,
    tags: Seq<char>,
    fields: Seq<char>,
    timestamp: Seq<char>,
) -> Seq<char> {
    table + ","@ + tags + " "@ + fields + " "@ + timestamp
}

/// Writes a line-protocol record `<table>,<tags> <fields> <timestamp>`.
pub fn influx_query(table: &str, tags: &str, fields: &str, timestamp: &str) -> (r: String)
    ensures
        r@ == influx_query_line(table@, tags@, fields@, timestamp@),
{
    let mut r = String::new();
    r.append(table);
    r.append(",");
    r.append(tags);
    r.append(" ");
    r.append(fields);
    r.append(" ");
    r.append(timestamp);
    r
}

impl<T> Indicator<T> {
    /// The line-protocol record of this indicator, given the line that its
    /// data writes.
    pub fn influx_line(&self, data_line: &str) -> (r: String)
        ensures
            r@ == indicator_line(*self, data_line@),
    {
        let mut r = String::new();
        r.append(self.table_name.as_str());
        r.append(",");
        r.append("exchange=");
        r.append(self.exchange.as_str());
        r.append(",market_type=");
        r.append(self.market_type.as_str());
        r.append(",msg_type=");
        r.append(self.msg_type.as_str());
        r.append(",symbol=");
        r.append(self.symbol.as_str());
        r.append(" ");
        r.append(data_line);
        r.append("\n");
        assert(r@ =~= indicator_line(*self, data_line@));
        r
    }
}

impl<T: InfluxQuery> InfluxQuery for Indicator<T> {
    /// The record of this indicator around the line that its data writes:
    /// `<table>,<tag set> <data line>` and a line break, where the data line
    /// is what `T`'s own `serialize` returns for the data.
    fn serialize(&self) -> (r: String)
        ensures
            exists|d: String|
                #[trigger] call_ensures(<T as InfluxQuery>::serialize, (&self.data,), d) && r@
                    == indicator_line(*self, d@),
    {
        let data_line = self.data.serialize();
        self.influx_line(data_line.as_str())
    }
}

/// The indicator under which an Ichimoku cloud result is filed.
pub fn ichimoku_cloud_indicator<T>(data: T) -> (r: Indicator<T>)
    ensures
        r.table_name@ == "kline_ichimoku_monitor_v4"@,
        r.exchange@ == "name"@,
        r.market_type@ == "sudo"@,
        r.msg_type@ == "ccc"@,
        r.symbol@ == "ccc"@,
        r.signer_type@ == "ichimoku_cloud"@,
        r.data == data,
{
    Indicator {
        table_name: String::from_str("kline_ichimoku_monitor_v4"),
        exchange: String::from_str("name"),
        market_type: String::from_str("sudo"),
        msg_type: String::from_str("ccc"),
        symbol: String::from_str("ccc"),
        signer_type: String::from_str("ichimoku_cloud"),
        data,
    }
}

/// The signals that this program can compute.
#[derive(PartialEq, Eq, Structural, Clone, Copy, Debug)]
pub enum SignerKind {
    IchimokuCloud,
}

/// The signal that a configuration entry names, if it is a known one.
pub fn signer_kind(signer_type: &str) -> (r: Option<SignerKind>)
    ensures
        r == (if signer_type@ == "ichimoku_cloud"@ {
            Some(SignerKind::IchimokuCloud)
        } else {
            None
        }),
{
    if str_eq(signer_type, "ichimoku_cloud") {
        Some(SignerKind::IchimokuCloud)
    } else {
        None
    }
}

} // verus!
