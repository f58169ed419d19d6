//! The exchange's ticker envelope and the extraction of a last trade price.
use vstd::prelude::*;
use crate::decimal::{amount_of, amount_text};

verus! {

/// Access to the error list that every exchange response carries.
pub trait KrakenBaseError {
    /// The error messages that the response carries.
    spec fn error_list(&self) -> Seq<String>;

    /// The error messages of the response; empty where it reports none.
    fn error(&self) -> (r: Vec<String>)
        ensures
            r@ == self.error_list(),
    ;
}

/// Ticker data for one trading pair: levels of the order book and the trades.
#[derive(Debug, Clone)]
pub struct KrakenTradeItem {
    pub ask_price: Vec<String>,
    pub bid_price: Vec<String>,
    pub last_trade_close_price: Vec<String>,
    pub today_trade_volume: Vec<String>,
}

/// A value of the result mapping: a structured record or, for some pairs, a
/// bare string.
#[derive(Debug, Clone)]
pub enum TradeResultTypes {
    String(String),
    TradeData(KrakenTradeItem),
}

/// The response envelope for one pair: error messages and, optionally, the
/// result entries, keyed by the exchange's pair name, in the order received.
#[derive(Debug, Clone)]
pub struct KrakenTrade {
    pub error: Vec<String>,
    pub result: Option<Vec<(String, TradeResultTypes)>>,
}

impl KrakenBaseError for KrakenTrade {
    open spec fn error_list(&self) -> Seq<String> {
        self.error@
    }

    fn error(&self) -> (r: Vec<String>) {
        let mut r: Vec<String> = Vec::with_capacity(self.error.len());
        let mut i: usize = 0;
        while i < self.error.len()
            invariant
                i <= self.error@.len(),
                r@ == self.error@.take(i as int),
            decreases self.error@.len() - i,
        {
            r.push(self.error[i].clone());
            i += 1;
            assert(r@ =~= self.error@.take(i as int));
        }
        assert(self.error@.take(self.error@.len() as int) =~= self.error@);
        r
    }
}

/// The price that a last-trade-close sequence gives: none where it has fewer
/// than two levels or its first level is empty, else the first level as an
/// amount.
pub open spec fn close_price(c: Seq<String>) -> Option<Seq<char>> {
    if c.len() < 2 || c[0]@.len() == 0 {
        None
    } else {
        Some(amount_text(c[0]@))
    }
}

/// The last trade price of an envelope: read from the first result entry
/// alone, where that entry is a structured record.
pub open spec fn last_price(t: KrakenTrade) -> Option<Seq<char>> {
    match t.result {
        None => None,
        Some(entries) => if entries@.len() == 0 {
            None
        } else {
            match entries@[0].1 {
                TradeResultTypes::String(_) => None,
                TradeResultTypes::TradeData(item) => close_price(item.last_trade_close_price@),
            }
        },
    }
}

/// The view of an optional text.
pub open spec fn opt_view(o: Option<String>) -> Option<Seq<char>> {
    match o {
        Some(s) => Some(s@),
        None => None,
    }
}

impl KrakenTrade {
    /// Result keys are pairwise distinct, as in a mapping.
    pub open spec fn wf(&self) -> bool {
        self.result matches Some(entries) ==> forall|i: int, j: int|
            0 <= i < j < entries@.len() ==> entries@[i].0@ != entries@[j].0@
    }

    /// Return last trade price from the Trade object.
    pub fn get_last_price(&self) -> (r: Option<String>)
        ensures
            opt_view(r) == last_price(*self),
    {
        match &self.result {
            None => None,
            Some(entries) => {
                if entries.len() == 0 {
                    return None;
                }
                match &entries[0].1 {
                    TradeResultTypes::String(_) => None,
                    TradeResultTypes::TradeData(item) => {
                        let c = &item.last_trade_close_price;
                        if c.len() < 2 || c[0].as_str().is_empty() {
                            None
                        } else {
                            Some(amount_of(c[0].as_str()))
                        }
                    },
                }
            },
        }
    }
}

/// Extracting a price depends on the envelope alone: equal envelopes give
/// equal prices.
pub proof fn lemma_last_price_pure(a: KrakenTrade, b: KrakenTrade)
    requires
        a == b,
    ensures
        last_price(a) == last_price(b),
{
}

} // verus!
