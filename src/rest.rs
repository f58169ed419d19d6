//! The client side of one ticker request: the address asked for and how a
//! transport outcome settles into a result.
use vstd::prelude::*;
use vstd::string::*;
use crate::errors::{ClientResult, Error};
use crate::kraken_trade::KrakenTrade;

verus! {

/// Host name for api calls.
pub const KRAKEN_REST_API_HOST: &'static str = "https://api.kraken.com";

/// Path for getting last trade info for pair.
pub const GET_TICKER_PATH: &'static str = "/0/public/Ticker";

/// The query that names the pair.
pub const PAIR_QUERY: &'static str = "?pair=";

/// Separator between the two currencies of a pair name.
pub const PAIR_SEPARATOR: char = '/';

/// Component for making rest api calls and turning exchange responses into
/// values.
#[derive(Debug, Clone, Copy)]
pub struct RestClient;

/// What the transport made of one request.
#[derive(Debug, Clone)]
pub enum Fetched {
    /// The remote host could not be reached; the transport's message.
    Unreachable(String),
    /// A response came but its body is no envelope; the decoder's message.
    Unreadable(String),
    /// The decoded envelope.
    Received(KrakenTrade),
}

/// `s` without its separator characters.
pub open spec fn strip_separator(s: Seq<char>) -> Seq<char>
    decreases s.len(),
{
    if s.len() == 0 {
        seq![]
    } else {
        let rest = strip_separator(s.drop_last());
        if s.last() == PAIR_SEPARATOR {
            rest
        } else {
            rest.push(s.last())
        }
    }
}

/// The ticker address for a pair name.
pub open spec fn ticker_url_text(pair: Seq<char>) -> Seq<char> {
    KRAKEN_REST_API_HOST@ + GET_TICKER_PATH@ + PAIR_QUERY@ + strip_separator(pair)
}

/// Error messages joined by a comma and a space.
pub open spec fn joined(errs: Seq<String>) -> Seq<char>
    decreases errs.len(),
{
    if errs.len() == 0 {
        seq![]
    } else if errs.len() == 1 {
        errs[0]@
    } else {
        joined(errs.drop_last()) + ", "@ + errs.last()@
    }
}

/// How an outcome settles: a transport failure is a connection error, an
/// undecodable body a fetch failure, an envelope with errors an incorrect
/// response carrying them, and any other envelope a success.
pub open spec fn settles_as(f: Fetched, r: ClientResult<KrakenTrade>) -> bool {
    match f {
        Fetched::Unreachable(m) => r == Err::<KrakenTrade, Error>(Error::Connect(m)),
        Fetched::Unreadable(m) => r == Err::<KrakenTrade, Error>(Error::FetchFailed(m)),
        Fetched::Received(t) => if t.error@.len() == 0 {
            r == Ok::<KrakenTrade, Error>(t)
        } else {
            r matches Err(Error::IncorrectResponse(e)) && e@ == joined(t.error@)
        },
    }
}

/// Joins error messages by a comma and a space.
pub fn join_errors(errs: &Vec<String>) -> (r: String)
    ensures
        r@ == joined(errs@),
{
    let mut r = String::new();
    let mut i: usize = 0;
    while i < errs.len()
        invariant
            i <= errs@.len(),
            r@ == joined(errs@.take(i as int)),
        decreases errs@.len() - i,
    {
        assert(errs@.take(i as int + 1).drop_last() =~= errs@.take(i as int));
        if i > 0 {
            r.append(", ");
        }
        r.append(errs[i].as_str());
        i += 1;
    }
    assert(errs@.take(errs@.len() as int) =~= errs@);
    r
}

/// Removes the separator characters from a pair name.
pub fn strip_pair_separator(pair: &str) -> (r: String)
    ensures
        r@ == strip_separator(pair@),
{
    let n = pair.unicode_len();
    let mut r = String::new();
    let mut i: usize = 0;
    while i < n
        invariant
            n == pair@.len(),
            i <= n,
            r@ == strip_separator(pair@.take(i as int)),
        decreases n - i,
    {
        assert(pair@.take(i as int + 1).drop_last() =~= pair@.take(i as int));
        if pair.get_char(i) != PAIR_SEPARATOR {
            let one = pair.substring_char(i, i + 1);
            assert(one@ =~= seq![pair@[i as int]]);
            r.append(one);
        }
        assert(r@ =~= strip_separator(pair@.take(i as int + 1)));
        i += 1;
    }
    assert(pair@.take(n as int) =~= pair@);
    r
}

impl RestClient {
    /// create new client for accessing remote rest api
    pub fn new() -> (r: Self)
        ensures
            r == (RestClient {}),
    {
        RestClient {}
    }

    /// The address that asks for the ticker of a pair: host, path and the
    /// pair name without its separator.
    pub fn ticker_url(&self, pair: &str) -> (r: String)
        ensures
            r@ == ticker_url_text(pair@),
    {
        let mut r = String::new();
        r.append(KRAKEN_REST_API_HOST);
        r.append(GET_TICKER_PATH);
        r.append(PAIR_QUERY);
        let stripped = strip_pair_separator(pair);
        r.append(stripped.as_str());
        r
    }

    /// Settles the outcome of one request into the envelope or an error.
    pub fn settle(&self, fetched: Fetched) -> (r: ClientResult<KrakenTrade>)
        ensures
            settles_as(fetched, r),
    {
        match fetched {
            Fetched::Unreachable(m) => Err(Error::Connect(m)),
            Fetched::Unreadable(m) => Err(Error::FetchFailed(m)),
            Fetched::Received(t) => {
                if t.error.len() == 0 {
                    Ok(t)
                } else {
                    let msg = join_errors(&t.error);
                    Err(Error::IncorrectResponse(msg))
                }
            },
        }
    }
}

impl Default for RestClient {
    fn default() -> (r: Self)
        ensures
            r == (RestClient {}),
    {
        Self::new()
    }
}

} // verus!
