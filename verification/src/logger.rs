//! The rows that the trade log appends to its sheet.
use crate::text::texts;
use vstd::prelude::*;
use vstd::string::*;

verus! {

/// The range of the sheet that rows are appended to.
pub open spec fn log_range_spec() -> Seq<char> {
    "Logs!A:F"@
}

/// The range of the sheet that rows are appended to.
pub fn log_range() -> (r: String)
    ensures
        r@ == log_range_spec(),
{
    String::from_str("Logs!A:F")
}

/// The row that records a trade: time, market, side, price, size and status, in that order.
pub fn trade_row(timestamp: String, market_id: &str, side: &str, price: String, size: String, status: &str) -> (r: Vec<String>)
    ensures
        texts(r@) == seq![timestamp@, market_id@, side@, price@, size@, status@],
{
    let mut row: Vec<String> = Vec::new();
    row.push(timestamp);
    row.push(String::from_str(market_id));
    row.push(String::from_str(side));
    row.push(price);
    row.push(size);
    row.push(String::from_str(status));
    proof {
        assert(texts(row@) =~= seq![row@[0]@, row@[1]@, row@[2]@, row@[3]@, row@[4]@, row@[5]@]);
    }
    row
}

} // verus!
