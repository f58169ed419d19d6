//! Folding the per-pair outcomes of one round of requests into an answer.
use vstd::prelude::*;
use crate::decimal::{
    cents, decimal_text, digits, mantissa_bound, parsed_decimal, pow10, zero_pad, DecimalParts,
};
use crate::errors::ClientResult;
use crate::kraken_trade::{last_price, KrakenTrade, TradeResultTypes};
use crate::response::{item_view, items_view, rfc3339_seconds, LtpItem, LtpListResponse};
use crate::rest::{settles_as, Fetched};

verus! {

/// What one pair contributes to the answer: its name and price where the
/// request succeeded and a price could be extracted, else nothing.
pub open spec fn priced_item(pair: Seq<char>, outcome: ClientResult<KrakenTrade>) -> Option<
    (Seq<char>, Seq<char>),
> {
    match outcome {
        Ok(t) => match last_price(t) {
            Some(p) => Some((pair, p)),
            None => None,
        },
        Err(_) => None,
    }
}

/// The contributions of all outcomes, in the order of the outcomes.
pub open spec fn collected(s: Seq<(String, ClientResult<KrakenTrade>)>) -> Seq<
    (Seq<char>, Seq<char>),
>
    decreases s.len(),
{
    if s.len() == 0 {
        seq![]
    } else {
        let rest = collected(s.drop_last());
        match priced_item(s.last().0@, s.last().1) {
            Some(x) => rest.push(x),
            None => rest,
        }
    }
}

/// The pair names of the outcomes are pairwise distinct.
pub open spec fn distinct_pairs(s: Seq<(String, ClientResult<KrakenTrade>)>) -> bool {
    forall|i: int, j: int| 0 <= i < j < s.len() ==> s[i].0@ != s[j].0@
}

/// Makes the item that one pair contributes, if any.
pub fn price_item(pair: &String, outcome: &ClientResult<KrakenTrade>) -> (r: Option<LtpItem>)
    ensures
        match r {
            Some(i) => priced_item(pair@, *outcome) == Some(item_view(i)),
            None => priced_item(pair@, *outcome) is None,
        },
{
    match outcome {
        Ok(t) => {
            let p = t.get_last_price();
            match p {
                Some(amount) => Some(LtpItem::new(pair.clone(), amount)),
                None => None,
            }
        },
        Err(_) => None,
    }
}

/// Appends the priced pairs of a round of outcomes to an answer already
/// started, in the order given; its timestamp is left as it was.
pub fn collect_into(r: &mut LtpListResponse, outcomes: &Vec<(String, ClientResult<KrakenTrade>)>)
    ensures
        items_view(final(r).ltp@) == items_view(old(r).ltp@) + collected(outcomes@),
        final(r).date_time == old(r).date_time,
{
    let ghost start = items_view(r.ltp@);
    let mut i: usize = 0;
    while i < outcomes.len()
        invariant
            i <= outcomes@.len(),
            items_view(r.ltp@) == start + collected(outcomes@.take(i as int)),
            r.date_time == old(r).date_time,
        decreases outcomes@.len() - i,
    {
        assert(outcomes@.take(i as int + 1).drop_last() =~= outcomes@.take(i as int));
        let ghost before = r.ltp@;
        match price_item(&outcomes[i].0, &outcomes[i].1) {
            Some(item) => {
                r.add_item(item);
                assert(items_view(r.ltp@) =~= items_view(before).push(item_view(item)));
                assert(start + collected(outcomes@.take(i as int + 1)) =~= (start + collected(
                    outcomes@.take(i as int),
                )).push(item_view(item)));
            },
            None => {},
        }
        i += 1;
    }
    assert(outcomes@.take(outcomes@.len() as int) =~= outcomes@);
}

/// Collects the priced pairs of a round of outcomes, in the order given,
/// under one timestamp taken before the first is added.
pub fn collect_prices(outcomes: &Vec<(String, ClientResult<KrakenTrade>)>) -> (r: LtpListResponse)
    ensures
        items_view(r.ltp@) == collected(outcomes@),
        rfc3339_seconds(r.date_time@),
{
    let mut r = LtpListResponse::new_with_capacity(outcomes.len());
    collect_into(&mut r, outcomes);
    assert(items_view(r.ltp@) =~= collected(outcomes@));
    r
}

/// How many entries of `r` name the pair `p`.
pub open spec fn pair_count(r: Seq<(Seq<char>, Seq<char>)>, p: Seq<char>) -> nat
    decreases r.len(),
{
    if r.len() == 0 {
        0
    } else {
        pair_count(r.drop_last(), p) + if r.last().0 == p {
            1nat
        } else {
            0nat
        }
    }
}

/// How many outcomes name the pair `p` and yield a price.
pub open spec fn priced_count(s: Seq<(String, ClientResult<KrakenTrade>)>, p: Seq<char>) -> nat
    decreases s.len(),
{
    if s.len() == 0 {
        0
    } else {
        priced_count(s.drop_last(), p) + if s.last().0@ == p && priced_item(
            s.last().0@,
            s.last().1,
        ) is Some {
            1nat
        } else {
            0nat
        }
    }
}

proof fn lemma_collected_count(s: Seq<(String, ClientResult<KrakenTrade>)>, p: Seq<char>)
    ensures
        pair_count(collected(s), p) == priced_count(s, p),
    decreases s.len(),
{
    if s.len() > 0 {
        lemma_collected_count(s.drop_last(), p);
        let rest = collected(s.drop_last());
        match priced_item(s.last().0@, s.last().1) {
            Some(x) => {
                assert(rest.push(x).drop_last() =~= rest);
            },
            None => {},
        }
    }
}

proof fn lemma_collected_members(s: Seq<(String, ClientResult<KrakenTrade>)>, k: int)
    requires
        0 <= k < collected(s).len(),
    ensures
        exists|j: int|
            0 <= j < s.len() && priced_item(s[j].0@, s[j].1) == Some(#[trigger] collected(s)[k]),
    decreases s.len(),
{
    let rest = collected(s.drop_last());
    if k < rest.len() {
        lemma_collected_members(s.drop_last(), k);
        let j = choose|j: int|
            0 <= j < s.drop_last().len() && priced_item(s.drop_last()[j].0@, s.drop_last()[j].1)
                == Some(#[trigger] rest[k]);
        assert(s[j] == s.drop_last()[j]);
        assert(collected(s)[k] == rest[k]);
    } else {
        assert(priced_item(s[s.len() - 1].0@, s[s.len() - 1].1) == Some(collected(s)[k]));
    }
}

proof fn lemma_priced_count_distinct(s: Seq<(String, ClientResult<KrakenTrade>)>, i: int)
    requires
        0 <= i < s.len(),
        distinct_pairs(s),
    ensures
        priced_count(s, s[i].0@) == if priced_item(s[i].0@, s[i].1) is Some {
            1nat
        } else {
            0nat
        },
    decreases s.len(),
{
    let p = s[i].0@;
    if i < s.len() - 1 {
        let t = s.drop_last();
        assert(t[i] == s[i]);
        lemma_priced_count_distinct(t, i);
        assert(s.last().0@ != p);
    } else {
        lemma_priced_count_zero(s.drop_last(), p);
    }
}

proof fn lemma_priced_count_zero(s: Seq<(String, ClientResult<KrakenTrade>)>, p: Seq<char>)
    requires
        forall|j: int| 0 <= j < s.len() ==> s[j].0@ != p,
    ensures
        priced_count(s, p) == 0,
    decreases s.len(),
{
    if s.len() > 0 {
        lemma_priced_count_zero(s.drop_last(), p);
    }
}

proof fn lemma_pair_count_zero(r: Seq<(Seq<char>, Seq<char>)>, p: Seq<char>, k: int)
    requires
        pair_count(r, p) == 0,
        0 <= k < r.len(),
    ensures
        r[k].0 != p,
    decreases r.len(),
{
    if k < r.len() - 1 {
        lemma_pair_count_zero(r.drop_last(), p, k);
    }
}

proof fn lemma_pair_count_positive(r: Seq<(Seq<char>, Seq<char>)>, p: Seq<char>)
    requires
        pair_count(r, p) > 0,
    ensures
        exists|k: int| 0 <= k < r.len() && (#[trigger] r[k]).0 == p,
    decreases r.len(),
{
    if r.last().0 != p {
        lemma_pair_count_positive(r.drop_last(), p);
        let k = choose|k: int| 0 <= k < r.drop_last().len() && (#[trigger] r.drop_last()[k]).0 == p;
        assert(r[k] == r.drop_last()[k]);
    } else {
        assert(r[r.len() - 1].0 == p);
    }
}

/// A pair whose request failed contributes nothing: where the pair names of
/// the outcomes are distinct, no collected entry names a pair whose outcome is
/// an error.
pub proof fn lemma_failed_pair_absent(s: Seq<(String, ClientResult<KrakenTrade>)>, i: int)
    requires
        0 <= i < s.len(),
        distinct_pairs(s),
        s[i].1 is Err,
    ensures
        forall|k: int| 0 <= k < collected(s).len() ==> (#[trigger] collected(s)[k]).0 != s[i].0@,
{
    let p = s[i].0@;
    lemma_priced_count_distinct(s, i);
    lemma_collected_count(s, p);
    assert forall|k: int| 0 <= k < collected(s).len() implies (#[trigger] collected(s)[k]).0 != p by {
        lemma_pair_count_zero(collected(s), p, k);
    }
}

/// Whatever way a fetch fails (no connection, an undecodable body, or an
/// envelope that reports errors), the settled outcome is an error and the pair
/// contributes nothing.
pub proof fn lemma_failed_fetch_contributes_nothing(
    pair: Seq<char>,
    f: Fetched,
    r: ClientResult<KrakenTrade>,
)
    requires
        settles_as(f, r),
        match f {
            Fetched::Received(t) => t.error@.len() > 0,
            _ => true,
        },
    ensures
        r is Err,
        priced_item(pair, r) is None,
{
}

/// The entries of `r` that do not name the pair `p`, in order.
pub open spec fn without_pair(r: Seq<(Seq<char>, Seq<char>)>, p: Seq<char>) -> Seq<
    (Seq<char>, Seq<char>),
>
    decreases r.len(),
{
    if r.len() == 0 {
        seq![]
    } else if r.last().0 == p {
        without_pair(r.drop_last(), p)
    } else {
        without_pair(r.drop_last(), p).push(r.last())
    }
}

proof fn lemma_without_absent_pair(r: Seq<(Seq<char>, Seq<char>)>, p: Seq<char>)
    requires
        forall|k: int| 0 <= k < r.len() ==> (#[trigger] r[k]).0 != p,
    ensures
        without_pair(r, p) == r,
    decreases r.len(),
{
    if r.len() > 0 {
        assert(r[r.len() - 1].0 != p);
        lemma_without_absent_pair(r.drop_last(), p);
        assert(r.drop_last().push(r.last()) =~= r);
    }
}

proof fn lemma_collected_has_no_other_pair(s: Seq<(String, ClientResult<KrakenTrade>)>, p: Seq<char>)
    requires
        forall|j: int| 0 <= j < s.len() ==> (#[trigger] s[j]).0@ != p,
    ensures
        forall|k: int| 0 <= k < collected(s).len() ==> (#[trigger] collected(s)[k]).0 != p,
{
    assert forall|k: int| 0 <= k < collected(s).len() implies (#[trigger] collected(s)[k]).0 != p by {
        lemma_collected_members(s, k);
        let j = choose|j: int|
            0 <= j < s.len() && priced_item(s[j].0@, s[j].1) == Some(#[trigger] collected(s)[k]);
        assert(s[j].0@ != p);
    }
}

/// One pair's failure takes that pair out and nothing else: where the pair
/// names are distinct, and `s2` is the round `s` with the outcome of the
/// `i`-th pair turned into an error, the answer for `s2` is the answer for
/// `s` without the entries of that pair, the others unchanged and in order.
pub proof fn lemma_failure_removes_only_its_pair(
    s: Seq<(String, ClientResult<KrakenTrade>)>,
    s2: Seq<(String, ClientResult<KrakenTrade>)>,
    i: int,
)
    requires
        distinct_pairs(s),
        0 <= i < s.len(),
        s2.len() == s.len(),
        forall|j: int| 0 <= j < s.len() && j != i ==> s2[j] == s[j],
        s2[i].0@ == s[i].0@,
        s2[i].1 is Err,
    ensures
        collected(s2) == without_pair(collected(s), s[i].0@),
    decreases s.len(),
{
    let p = s[i].0@;
    let n = s.len() - 1;
    let t = s.drop_last();
    let t2 = s2.drop_last();
    if i == n {
        assert(t2 =~= t);
        assert forall|j: int| 0 <= j < t.len() implies (#[trigger] t[j]).0@ != p by {
            assert(t[j] == s[j]);
        }
        lemma_collected_has_no_other_pair(t, p);
        lemma_without_absent_pair(collected(t), p);
        match priced_item(s.last().0@, s.last().1) {
            Some(x) => {
                assert(collected(t).push(x).drop_last() =~= collected(t));
            },
            None => {},
        }
    } else {
        assert forall|a: int, b: int| 0 <= a < b < t.len() implies t[a].0@ != t[b].0@ by {
            assert(t[a] == s[a] && t[b] == s[b]);
        }
        assert(t[i] == s[i] && t2[i] == s2[i]);
        lemma_failure_removes_only_its_pair(t, t2, i);
        assert(s2.last() == s.last());
        assert(s.last().0@ != p);
        match priced_item(s.last().0@, s.last().1) {
            Some(x) => {
                assert(collected(t).push(x).drop_last() =~= collected(t));
            },
            None => {},
        }
    }
}

/// Every entry of `collected` for a pair whose outcome is the `i`-th one
/// carries that outcome's price.
proof fn lemma_entry_from(s: Seq<(String, ClientResult<KrakenTrade>)>, i: int, k: int)
    requires
        0 <= i < s.len(),
        distinct_pairs(s),
        0 <= k < collected(s).len(),
        collected(s)[k].0 == s[i].0@,
    ensures
        priced_item(s[i].0@, s[i].1) == Some(collected(s)[k]),
{
    lemma_collected_members(s, k);
    let j = choose|j: int|
        0 <= j < s.len() && priced_item(s[j].0@, s[j].1) == Some(#[trigger] collected(s)[k]);
    assert(s[j].0@ == collected(s)[k].0);
}

/// The point of a text stands third from its end.
pub open spec fn two_fraction_digits(t: Seq<char>) -> bool {
    t.len() >= 4 && t[t.len() - 3] == '.'
}

proof fn lemma_zero_pad_len(ds: Seq<char>, width: nat)
    ensures
        zero_pad(ds, width).len() >= width,
        zero_pad(ds, width).len() >= ds.len(),
{
}

/// A decimal rounded to cents, where the rounding reached two fractional
/// digits, is written with exactly two of them.
pub proof fn lemma_cents_text(d: DecimalParts)
    requires
        d.wf(),
        d.scale >= 2 || (d.mantissa as nat) * 100 < mantissa_bound(),
    ensures
        cents(d).scale == 2,
        two_fraction_digits(decimal_text(cents(d))),
{
    let m = d.mantissa as nat;
    let s = d.scale as nat;
    assert(pow10(0) == 1);
    assert(pow10(1) == 10) by {
        reveal_with_fuel(pow10, 2);
    }
    assert(pow10(2) == 100) by {
        reveal_with_fuel(pow10, 3);
    }
    if m != 0 && s <= 2 {
        if s == 2 {
            assert(m * pow10((2 - s) as nat) == m) by (nonlinear_arith)
                requires pow10((2 - s) as nat) == 1;
        } else if s == 1 {
            assert(m * pow10((2 - s) as nat) <= m * 100) by (nonlinear_arith)
                requires pow10((2 - s) as nat) == 10;
        }
    }
    let c = cents(d);
    lemma_zero_pad_len(digits(c.mantissa as nat), 2);
    let ds = zero_pad(digits(c.mantissa as nat), 2);
    let w = ds.len() - 2;
    assert(ds.skip(w).len() == 2);
}

/// A pair whose request succeeded with a usable close price contributes
/// exactly one entry: where the pair names of the outcomes are distinct, one
/// collected entry names it, it carries the amount of the first close level,
/// and that amount has exactly two fractional digits.
pub proof fn lemma_priced_pair_once(
    s: Seq<(String, ClientResult<KrakenTrade>)>,
    i: int,
    t: KrakenTrade,
    d: DecimalParts,
)
    requires
        0 <= i < s.len(),
        distinct_pairs(s),
        s[i].1 == Ok::<KrakenTrade, crate::errors::Error>(t),
        t.result matches Some(entries) && entries@.len() > 0 && (entries@[0].1 matches TradeResultTypes::TradeData(item)
            && item.last_trade_close_price@.len() >= 2
            && item.last_trade_close_price@[0]@.len() > 0
            && parsed_decimal(item.last_trade_close_price@[0]@) == Some(d)),
        d.wf(),
        d.scale >= 2 || (d.mantissa as nat) * 100 < mantissa_bound(),
    ensures
        exists|k: int|
            0 <= k < collected(s).len() && (#[trigger] collected(s)[k]).0 == s[i].0@
                && Some(collected(s)[k].1) == last_price(t) && two_fraction_digits(
                collected(s)[k].1,
            ),
        forall|k1: int, k2: int|
            0 <= k1 < collected(s).len() && 0 <= k2 < collected(s).len() && (#[trigger] collected(
                s,
            )[k1]).0 == s[i].0@ && (#[trigger] collected(s)[k2]).0 == s[i].0@ ==> k1 == k2,
{
    let p = s[i].0@;
    let r = collected(s);
    lemma_cents_text(d);
    assert(priced_item(p, s[i].1) is Some);
    lemma_priced_count_distinct(s, i);
    lemma_collected_count(s, p);
    lemma_pair_count_positive(r, p);
    let k = choose|k: int| 0 <= k < r.len() && (#[trigger] r[k]).0 == p;
    lemma_entry_from(s, i, k);
    assert forall|k1: int, k2: int|
        0 <= k1 < r.len() && 0 <= k2 < r.len() && (#[trigger] r[k1]).0 == p && (#[trigger] r[k2]).0 == p
        implies k1 == k2 by {
        if k1 != k2 {
            lemma_pair_count_two(r, p, k1, k2);
        }
    }
}

proof fn lemma_pair_count_two(r: Seq<(Seq<char>, Seq<char>)>, p: Seq<char>, k1: int, k2: int)
    requires
        0 <= k1 < r.len(),
        0 <= k2 < r.len(),
        k1 != k2,
        r[k1].0 == p,
        r[k2].0 == p,
    ensures
        pair_count(r, p) >= 2,
    decreases r.len(),
{
    let last = r.len() - 1;
    if k1 < last && k2 < last {
        lemma_pair_count_two(r.drop_last(), p, k1, k2);
    } else {
        let other = if k1 == last { k2 } else { k1 };
        lemma_pair_count_one(r.drop_last(), p, other);
    }
}

proof fn lemma_pair_count_one(r: Seq<(Seq<char>, Seq<char>)>, p: Seq<char>, k: int)
    requires
        0 <= k < r.len(),
        r[k].0 == p,
    ensures
        pair_count(r, p) >= 1,
    decreases r.len(),
{
    if k < r.len() - 1 {
        lemma_pair_count_one(r.drop_last(), p, k);
    }
}

} // verus!
