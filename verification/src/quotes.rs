//! Quote Provider support: the transient quote record providers hand back,
//! and the date-selection and series-assembly logic shared by the provider
//! variants. Fetching and decoding a provider's wire format stay with the
//! network code; the functions here work on the decoded values.

use vstd::prelude::*;

verus! {

/// One quote as a provider reports it, before currency conversion: ticker,
/// day number, fixed-point raw price, raw currency code, and the provider
/// identifier it came from.
#[derive(Debug)]
pub struct QuoteData {
    pub ticker: String,
    pub date: i64,
    pub price: i64,
    pub currency: String,
    pub source: String,
}

impl QuoteData {
    /// A quote record from its parts.
    pub fn new(ticker: String, date: i64, price: i64, currency: String, source: String) -> (q:
        Self)
        ensures
            q == (QuoteData { ticker, date, price, currency, source }),
    {
        QuoteData { ticker, date, price, currency, source }
    }
}

impl Clone for QuoteData {
    /// A copy equal to the original.
    fn clone(&self) -> (r: Self)
        ensures
            r == *self,
    {
        QuoteData {
            ticker: self.ticker.clone(),
            date: self.date,
            price: self.price,
            currency: self.currency.clone(),
            source: self.source.clone(),
        }
    }
}

/// The first quote of the series dated exactly `d`, if any.
pub open spec fn first_quote_on(qs: Seq<QuoteData>, d: i64) -> Option<QuoteData>
    decreases qs.len(),
{
    if qs.len() == 0 {
        None
    } else {
        let earlier = first_quote_on(qs.drop_last(), d);
        if earlier is Some {
            earlier
        } else if qs.last().date == d {
            Some(qs.last())
        } else {
            None
        }
    }
}

/// The chronologically last quote of the series, if any; of several quotes
/// sharing the latest day, the one listed last.
pub open spec fn latest_quote(qs: Seq<QuoteData>) -> Option<QuoteData>
    decreases qs.len(),
{
    if qs.len() == 0 {
        None
    } else {
        match latest_quote(qs.drop_last()) {
            None => Some(qs.last()),
            Some(m) => if qs.last().date >= m.date {
                Some(qs.last())
            } else {
                Some(m)
            },
        }
    }
}

/// Pick one quote out of a fetched series: the quote dated exactly
/// `quote_date` when a date is given, else the chronologically last one.
pub fn select_quote(quotes: &Vec<QuoteData>, quote_date: Option<i64>) -> (r: Option<QuoteData>)
    ensures
        r == match quote_date {
            Some(d) => first_quote_on(quotes@, d),
            None => latest_quote(quotes@),
        },
{
    let n = quotes.len();
    match quote_date {
        Some(d) => {
            let mut found: Option<usize> = None;
            let mut i: usize = 0;
            while i < n
                invariant
                    n == quotes@.len(),
                    i <= n,
                    match found {
                        None => first_quote_on(quotes@.take(i as int), d) is None,
                        Some(ix) => ix < i && first_quote_on(quotes@.take(i as int), d) == Some(
                            quotes@[ix as int],
                        ),
                    },
                decreases n - i,
            {
                proof {
                    assert(quotes@.take(i as int + 1).drop_last() =~= quotes@.take(i as int));
                    assert(quotes@.take(i as int + 1).last() == quotes@[i as int]);
                }
                if found.is_none() && quotes[i].date == d {
                    found = Some(i);
                }
                i = i + 1;
            }
            proof {
                assert(quotes@.take(n as int) =~= quotes@);
            }
            match found {
                Some(ix) => Some(quotes[ix].clone()),
                None => None,
            }
        },
        None => {
            let mut best: Option<usize> = None;
            let mut i: usize = 0;
            while i < n
                invariant
                    n == quotes@.len(),
                    i <= n,
                    match best {
                        None => latest_quote(quotes@.take(i as int)) is None,
                        Some(ix) => ix < i && latest_quote(quotes@.take(i as int)) == Some(
                            quotes@[ix as int],
                        ),
                    },
                decreases n - i,
            {
                proof {
                    assert(quotes@.take(i as int + 1).drop_last() =~= quotes@.take(i as int));
                    assert(quotes@.take(i as int + 1).last() == quotes@[i as int]);
                }
                let replace = match best {
                    None => true,
                    Some(ix) => quotes[i].date >= quotes[ix].date,
                };
                if replace {
                    best = Some(i);
                }
                i = i + 1;
            }
            proof {
                assert(quotes@.take(n as int) =~= quotes@);
            }
            match best {
                Some(ix) => Some(quotes[ix].clone()),
                None => None,
            }
        },
    }
}

/// The quote series assembled from parallel day and closing-price columns:
/// one quote per day that carries a price, in column order.
pub open spec fn series_spec(
    ticker: String,
    days: Seq<i64>,
    closes: Seq<Option<i64>>,
    currency: String,
    source: String,
) -> Seq<QuoteData>
    decreases days.len(),
{
    if days.len() == 0 {
        Seq::<QuoteData>::empty()
    } else {
        let rest = series_spec(ticker, days.drop_last(), closes.drop_last(), currency, source);
        match closes.last() {
            Some(c) => rest.push(
                QuoteData {
                    ticker,
                    date: days.last(),
                    price: c,
                    currency,
                    source,
                },
            ),
            None => rest,
        }
    }
}

/// Assemble a quote series from parallel day and closing-price columns, as
/// a history provider reports them; days without a price are skipped.
pub fn build_quote_series(
    ticker: &String,
    days: &Vec<i64>,
    closes: &Vec<Option<i64>>,
    currency: &String,
    source: &String,
) -> (r: Vec<QuoteData>)
    requires
        days@.len() == closes@.len(),
    ensures
        r@ == series_spec(*ticker, days@, closes@, *currency, *source),
{
    let n = days.len();
    let mut r: Vec<QuoteData> = Vec::new();
    let mut i: usize = 0;
    while i < n
        invariant
            n == days@.len(),
            days@.len() == closes@.len(),
            i <= n,
            r@ == series_spec(
                *ticker,
                days@.take(i as int),
                closes@.take(i as int),
                *currency,
                *source,
            ),
        decreases n - i,
    {
        proof {
            assert(days@.take(i as int + 1).drop_last() =~= days@.take(i as int));
            assert(days@.take(i as int + 1).last() == days@[i as int]);
            assert(closes@.take(i as int + 1).drop_last() =~= closes@.take(i as int));
            assert(closes@.take(i as int + 1).last() == closes@[i as int]);
        }
        if let Some(c) = closes[i] {
            r.push(QuoteData::new(
                ticker.clone(),
                days[i],
                c,
                currency.clone(),
                source.clone(),
            ));
        }
        i = i + 1;
    }
    proof {
        assert(days@.take(n as int) =~= days@);
        assert(closes@.take(n as int) =~= closes@);
    }
    r
}

} // verus!
