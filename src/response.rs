//! The aggregated answer: priced pairs and the time the answer was made.
use vstd::prelude::*;

verus! {

/// One item in the final answer: a pair and its last price.
#[derive(Debug, Clone, Default)]
pub struct LtpItem {
    /// Crypto pair name.
    pub pair: String,
    /// Last price value.
    pub amount: String,
}

/// The list of priced pairs and the time at which it was started, taken
/// once, in RFC 3339 to the second.
#[derive(Debug, Clone)]
pub struct LtpListResponse {
    pub ltp: Vec<LtpItem>,
    pub date_time: String,
}

/// An item as a pair name and an amount.
pub open spec fn item_view(i: LtpItem) -> (Seq<char>, Seq<char>) {
    (i.pair@, i.amount@)
}

/// The items of a list as pair names and amounts.
pub open spec fn items_view(v: Seq<LtpItem>) -> Seq<(Seq<char>, Seq<char>)> {
    v.map_values(|i: LtpItem| item_view(i))
}

/// A decimal digit.
pub open spec fn is_digit(c: char) -> bool {
    '0' <= c && c <= '9'
}

/// `len` digits stand in `t` from position `from` on.
pub open spec fn digits_at(t: Seq<char>, from: int, len: int) -> bool {
    0 <= from && from + len <= t.len() && forall|j: int| from <= j < from + len ==> is_digit(#[trigger] t[j])
}

/// The offset at the end of an RFC 3339 time: `Z`, or a sign and `HH:MM`.
pub open spec fn offset_len(t: Seq<char>) -> int {
    if t.len() > 0 && t.last() == 'Z' {
        1
    } else {
        6
    }
}

/// An RFC 3339 date and time to the second, with its offset:
/// `YYYY-MM-DDTHH:MM:SS` (a year outside four digits is signed and has at
/// least four) followed by `Z` or `+HH:MM` / `-HH:MM`.
pub open spec fn rfc3339_seconds(t: Seq<char>) -> bool {
    let n = t.len() as int;
    let k = n - offset_len(t);
    let y = k - 15;
    &&& (t.last() == 'Z' || (n >= 6 && (t[n - 6] == '+' || t[n - 6] == '-') && digits_at(t, n - 5, 2)
        && t[n - 3] == ':' && digits_at(t, n - 2, 2)))
    &&& y >= 4
    &&& (y == 4 && digits_at(t, 0, 4) || (t[0] == '+' || t[0] == '-') && digits_at(t, 1, y - 1))
    &&& t[y] == '-' && digits_at(t, y + 1, 2)
    &&& t[y + 3] == '-' && digits_at(t, y + 4, 2)
    &&& t[y + 6] == 'T' && digits_at(t, y + 7, 2)
    &&& t[y + 9] == ':' && digits_at(t, y + 10, 2)
    &&& t[y + 12] == ':' && digits_at(t, y + 13, 2)
}

/// Relies on `chrono::Local::now` and `DateTime::to_rfc3339_opts` with whole
/// seconds and `Z` for a zero offset: the local time now, which chrono's
/// `write_rfc3339` writes as date, `T`, time to the second, and offset.
#[verifier::external_body]
fn current_timestamp() -> (r: String)
    ensures
        rfc3339_seconds(r@),
{
    chrono::Local::now().to_rfc3339_opts(chrono::SecondsFormat::Secs, true)
}

impl LtpItem {
    pub fn new(pair: String, amount: String) -> (r: Self)
        ensures
            r.pair == pair,
            r.amount == amount,
    {
        Self { pair, amount }
    }

    /// The pair name.
    pub fn pair(&self) -> (r: &String)
        ensures
            r == &self.pair,
    {
        &self.pair
    }

    /// The price.
    pub fn amount(&self) -> (r: &String)
        ensures
            r == &self.amount,
    {
        &self.amount
    }
}

impl LtpListResponse {
    /// Create a new response from the list, stamped with the time now.
    pub fn new(ltp: Vec<LtpItem>) -> (r: Self)
        ensures
            r.ltp == ltp,
            rfc3339_seconds(r.date_time@),
    {
        Self { ltp, date_time: current_timestamp() }
    }

    /// Create an empty response with room for `capacity` items, stamped with
    /// the time now.
    pub fn new_with_capacity(capacity: usize) -> (r: Self)
        ensures
            r.ltp@.len() == 0,
            rfc3339_seconds(r.date_time@),
    {
        Self { ltp: Vec::with_capacity(capacity), date_time: current_timestamp() }
    }

    /// Add one more item into a list.
    pub fn add_item(&mut self, item: LtpItem)
        ensures
            final(self).ltp@ == old(self).ltp@.push(item),
            final(self).date_time == old(self).date_time,
    {
        self.ltp.push(item);
    }

    /// The priced pairs, in the order they were added.
    pub fn ltp(&self) -> (r: &Vec<LtpItem>)
        ensures
            r == &self.ltp,
    {
        &self.ltp
    }

    /// The time at which the response was started.
    pub fn date_time(&self) -> (r: &String)
        ensures
            r == &self.date_time,
    {
        &self.date_time
    }
}

impl Default for LtpListResponse {
    fn default() -> (r: Self)
        ensures
            r.ltp@.len() == 0,
            rfc3339_seconds(r.date_time@),
    {
        Self { ltp: Vec::new(), date_time: current_timestamp() }
    }
}

} // verus!
