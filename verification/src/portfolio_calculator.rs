//! Development Calculator: merges the movement ledger and the quote series
//! into a gap-filled daily valuation series per instrument.
//!
//! For every (instrument, day) pair that carries a transaction or a quote,
//! the calculator emits one [`Development`] holding the cumulative quantity
//! held on that day, a resolved price, and their product as the position's
//! value. Prices resolve in strict priority order: the day's quote, else the
//! day's mean transaction price, else the price of the previous emitted
//! entry of the same instrument; a day with none of these is skipped.

use vstd::prelude::*;

use crate::models::{
    InvestmentPrice, Movement, ACTION_BUY, ACTION_SELL, LEN_LIMIT, PRICE_LIMIT, PRICE_SCALE,
    VALUE_LIMIT,
};

verus! {

/// A computed valuation point; never stored.
///
/// `quantity` and `price` are fixed-point with [`PRICE_SCALE`] steps per
/// unit; `value` is their exact product, so it carries
/// `PRICE_SCALE * PRICE_SCALE` steps per unit.
#[derive(Debug, Clone, Copy, PartialEq, Eq, Structural)]
pub struct Development {
    pub investment: i64,
    pub date: i64,
    pub price: i64,
    pub quantity: i64,
    pub value: i128,
}

/// The magnitude of a machine integer, as a mathematical integer.
pub open spec fn abs64(x: i64) -> int {
    if x < 0 {
        -(x as int)
    } else {
        x as int
    }
}

/// A movement within the magnitude bounds the engine accepts.
pub open spec fn valid_movement(m: Movement) -> bool {
    &&& (m.quantity matches Some(q) ==> -VALUE_LIMIT <= q <= VALUE_LIMIT)
    &&& (m.amount matches Some(a) ==> -VALUE_LIMIT <= a <= VALUE_LIMIT)
}

/// A ledger the engine accepts: bounded length, bounded magnitudes.
pub open spec fn valid_movements(ms: Seq<Movement>) -> bool {
    &&& ms.len() <= LEN_LIMIT
    &&& forall|i: int| 0 <= i < ms.len() ==> valid_movement(#[trigger] ms[i])
}

/// A stored quote within the magnitude bounds the engine accepts.
pub open spec fn valid_price(p: InvestmentPrice) -> bool {
    p.price matches Some(x) ==> -PRICE_LIMIT <= x <= PRICE_LIMIT
}

/// A quote series the engine accepts: bounded length, bounded magnitudes.
pub open spec fn valid_prices(ps: Seq<InvestmentPrice>) -> bool {
    &&& ps.len() <= LEN_LIMIT
    &&& forall|i: int| 0 <= i < ps.len() ==> valid_price(#[trigger] ps[i])
}

/// Whether a movement carries everything needed to imply a transaction
/// price: an instrument, a date, an amount, and a non-zero quantity.
pub open spec fn movement_priced(m: Movement) -> bool {
    &&& m.investment_id is Some
    &&& m.date is Some
    &&& m.amount is Some
    &&& m.quantity is Some
    &&& m.quantity != Some(0i64)
}

/// Whether a movement implies a transaction price for (`inv`, `d`).
pub open spec fn txn_matches(m: Movement, inv: i64, d: i64) -> bool {
    &&& movement_priced(m)
    &&& m.investment_id == Some(inv)
    &&& m.date == Some(d)
}

/// The transaction price a single movement implies: |amount| / |quantity|,
/// scaled to fixed point (rounded down).
pub open spec fn txn_price_of(m: Movement) -> int
    recommends
        movement_priced(m),
{
    abs64(m.amount->Some_0) * (PRICE_SCALE as int) / abs64(m.quantity->Some_0)
}

/// Sum of the individual transaction prices implied for (`inv`, `d`).
pub open spec fn txn_price_sum(ms: Seq<Movement>, inv: i64, d: i64) -> int
    decreases ms.len(),
{
    if ms.len() == 0 {
        0
    } else {
        txn_price_sum(ms.drop_last(), inv, d) + if txn_matches(ms.last(), inv, d) {
            txn_price_of(ms.last())
        } else {
            0
        }
    }
}

/// How many movements imply a transaction price for (`inv`, `d`).
pub open spec fn txn_count(ms: Seq<Movement>, inv: i64, d: i64) -> nat
    decreases ms.len(),
{
    if ms.len() == 0 {
        0
    } else {
        txn_count(ms.drop_last(), inv, d) + if txn_matches(ms.last(), inv, d) {
            1nat
        } else {
            0nat
        }
    }
}

/// The day's transaction price: the arithmetic mean (rounded down) of the
/// prices implied by that day's movements, if there are any.
pub open spec fn txn_day_price(ms: Seq<Movement>, inv: i64, d: i64) -> Option<int> {
    if txn_count(ms, inv, d) > 0 {
        Some(txn_price_sum(ms, inv, d) / txn_count(ms, inv, d) as int)
    } else {
        None
    }
}

/// Whether a movement's quantity counts towards the holding of `inv` on day
/// `d` under action code `action`.
pub open spec fn quantity_matches(m: Movement, action: i64, inv: i64, d: i64) -> bool {
    &&& m.action_id == Some(action)
    &&& m.investment_id == Some(inv)
    &&& m.quantity is Some
    &&& m.date matches Some(dd) && dd <= d
}

/// Sum of the quantities moved for `inv` by movements with action code
/// `action` dated on or before `d`.
pub open spec fn quantity_sum(ms: Seq<Movement>, action: i64, inv: i64, d: i64) -> int
    decreases ms.len(),
{
    if ms.len() == 0 {
        0
    } else {
        quantity_sum(ms.drop_last(), action, inv, d) + if quantity_matches(
            ms.last(),
            action,
            inv,
            d,
        ) {
            ms.last().quantity->Some_0 as int
        } else {
            0
        }
    }
}

/// Cumulative quantity of `inv` held at the end of day `d`: everything
/// bought minus everything sold, over the full ledger.
pub open spec fn held_quantity(ms: Seq<Movement>, inv: i64, d: i64) -> int {
    quantity_sum(ms, ACTION_BUY, inv, d) - quantity_sum(ms, ACTION_SELL, inv, d)
}

/// Whether a stored quote row addresses (`inv`, `d`), priced or not.
pub open spec fn quote_key_matches(p: InvestmentPrice, inv: i64, d: i64) -> bool {
    &&& p.investment_id == Some(inv)
    &&& p.date == Some(d)
}

/// Whether a stored quote row carries a price for (`inv`, `d`).
pub open spec fn quote_priced_matches(p: InvestmentPrice, inv: i64, d: i64) -> bool {
    &&& quote_key_matches(p, inv, d)
    &&& p.price is Some
}

/// The quote price used for (`inv`, `d`): of the rows that carry a price for
/// that key, the one read last wins.
pub open spec fn quote_price_at(ps: Seq<InvestmentPrice>, inv: i64, d: i64) -> Option<i64>
    decreases ps.len(),
{
    if ps.len() == 0 {
        None
    } else if quote_priced_matches(ps.last(), inv, d) {
        Some(ps.last().price->Some_0)
    } else {
        quote_price_at(ps.drop_last(), inv, d)
    }
}

/// Whether some movement implies a transaction price for (`inv`, `d`).
pub open spec fn has_txn(ms: Seq<Movement>, inv: i64, d: i64) -> bool {
    exists|i: int| 0 <= i < ms.len() && txn_matches(#[trigger] ms[i], inv, d)
}

/// Whether some quote row addresses (`inv`, `d`).
pub open spec fn has_quote_key(ps: Seq<InvestmentPrice>, inv: i64, d: i64) -> bool {
    exists|i: int| 0 <= i < ps.len() && quote_key_matches(#[trigger] ps[i], inv, d)
}

/// An "interesting" day: (`inv`, `d`) appears in the ledger with a
/// transaction price or in the quote series. Only such pairs can emit a
/// Development; no days are synthesized between them.
pub open spec fn is_key(
    ms: Seq<Movement>,
    ps: Seq<InvestmentPrice>,
    inv: i64,
    d: i64,
) -> bool {
    has_txn(ms, inv, d) || has_quote_key(ps, inv, d)
}

/// Strict ordering of (instrument, day) keys: instrument ascending, then day
/// ascending.
pub open spec fn key_lt(inv1: i64, d1: i64, inv2: i64, d2: i64) -> bool {
    inv1 < inv2 || (inv1 == inv2 && d1 < d2)
}

/// Whether day `d` lies inside the requested window.
pub open spec fn in_window(d: i64, start: Option<i64>, end: Option<i64>) -> bool {
    &&& (start matches Some(s) ==> d >= s)
    &&& (end matches Some(e) ==> d <= e)
}

/// Whether the series holds an entry for (`inv`, `d`).
pub open spec fn emitted(devs: Seq<Development>, inv: i64, d: i64) -> bool {
    exists|j: int| 0 <= j < devs.len() && #[trigger] devs[j].investment == inv && devs[j].date == d
}

/// Whether the series holds an entry for instrument `inv` on a day strictly
/// before `d` — the condition under which a price can be carried forward.
pub open spec fn emitted_before(devs: Seq<Development>, inv: i64, d: i64) -> bool {
    exists|j: int| 0 <= j < devs.len() && #[trigger] devs[j].investment == inv && devs[j].date < d
}

/// Entry `j` of the series is correct for the given inputs: its key is an
/// interesting day inside the window, its quantity is the cumulative held
/// quantity, its value is quantity times price, and its price is the day's
/// quote, else the day's mean transaction price, else carried forward from
/// the previous entry, which then belongs to the same instrument.
pub open spec fn dev_entry_ok(
    ms: Seq<Movement>,
    ps: Seq<InvestmentPrice>,
    start: Option<i64>,
    end: Option<i64>,
    devs: Seq<Development>,
    j: int,
) -> bool
    recommends
        0 <= j < devs.len(),
{
    let dv = devs[j];
    &&& is_key(ms, ps, dv.investment, dv.date)
    &&& in_window(dv.date, start, end)
    &&& dv.quantity == held_quantity(ms, dv.investment, dv.date)
    &&& dv.value == dv.quantity * dv.price
    &&& -PRICE_LIMIT <= dv.price <= PRICE_LIMIT
    &&& match quote_price_at(ps, dv.investment, dv.date) {
        Some(q) => dv.price == q,
        None => match txn_day_price(ms, dv.investment, dv.date) {
            Some(t) => dv.price == t,
            None => j > 0 && devs[j - 1].investment == dv.investment && dv.price == devs[j
                - 1].price,
        },
    }
}

/// Whether (`inv`, `d`) must emit an entry: it is an interesting day inside
/// the window, and a price is available for it — a quote, a transaction
/// price, or an earlier entry of the same instrument to carry forward from.
pub open spec fn must_emit(
    ms: Seq<Movement>,
    ps: Seq<InvestmentPrice>,
    start: Option<i64>,
    end: Option<i64>,
    devs: Seq<Development>,
    inv: i64,
    d: i64,
) -> bool {
    &&& is_key(ms, ps, inv, d)
    &&& in_window(d, start, end)
    &&& (quote_price_at(ps, inv, d) is Some || txn_day_price(ms, inv, d) is Some
        || emitted_before(devs, inv, d))
}

/// Full characterization of the valuation series for the given ledger,
/// quote series and window: entries are strictly sorted by (instrument,
/// day), each entry is correct ([`dev_entry_ok`]), and every interesting day
/// with an available price emits exactly one entry.
pub open spec fn developments_correct(
    ms: Seq<Movement>,
    ps: Seq<InvestmentPrice>,
    start: Option<i64>,
    end: Option<i64>,
    devs: Seq<Development>,
) -> bool {
    &&& forall|j1: int, j2: int|
        0 <= j1 < j2 < devs.len() ==> key_lt(
            #[trigger] devs[j1].investment,
            devs[j1].date,
            #[trigger] devs[j2].investment,
            devs[j2].date,
        )
    &&& forall|j: int| 0 <= j < devs.len() ==> dev_entry_ok(ms, ps, start, end, devs, j)
    &&& forall|inv: i64, d: i64|
        must_emit(ms, ps, start, end, devs, inv, d) ==> emitted(devs, inv, d)
}

/// Whether the key list holds (`inv`, `d`).
pub open spec fn key_in(keys: Seq<(i64, i64)>, inv: i64, d: i64) -> bool {
    exists|t: int| 0 <= t < keys.len() && #[trigger] keys[t] == (inv, d)
}

/// The key list is strictly sorted: instrument ascending, then day ascending.
pub open spec fn keys_sorted(keys: Seq<(i64, i64)>) -> bool {
    forall|t1: int, t2: int|
        #![trigger keys[t1], keys[t2]]
        0 <= t1 < t2 < keys.len() ==> key_lt(keys[t1].0, keys[t1].1, keys[t2].0, keys[t2].1)
}

/// The magnitude of `x`, as a machine integer.
fn abs_val(x: i64) -> (r: i64)
    requires
        x > i64::MIN,
    ensures
        r == abs64(x),
{
    if x < 0 {
        -x
    } else {
        x
    }
}

/// Sum of the quantities moved for `investment_id` by movements with action
/// code `action` dated on or before `up_to`.
fn sum_quantities(
    movements: &Vec<Movement>,
    action: i64,
    investment_id: i64,
    up_to: i64,
) -> (total: i64)
    requires
        valid_movements(movements@),
    ensures
        total == quantity_sum(movements@, action, investment_id, up_to),
        -(movements@.len() as int) * (VALUE_LIMIT as int) <= total <= (movements@.len() as int) * (
        VALUE_LIMIT as int),
{
    let n = movements.len();
    let mut total: i64 = 0;
    let mut i: usize = 0;
    while i < n
        invariant
            n == movements@.len(),
            i <= n,
            valid_movements(movements@),
            total == quantity_sum(movements@.take(i as int), action, investment_id, up_to),
            -(i as int) * (VALUE_LIMIT as int) <= total <= (i as int) * (VALUE_LIMIT as int),
        decreases n - i,
    {
        proof {
            assert(movements@.take(i as int + 1).drop_last() =~= movements@.take(i as int));
            assert(movements@.take(i as int + 1).last() == movements@[i as int]);
            assert(valid_movement(movements@[i as int]));
        }
        let m = &movements[i];
        if let (Some(a), Some(iv), Some(q), Some(dd)) = (m.action_id, m.investment_id, m.quantity, m.date) {
            if a == action && iv == investment_id && dd <= up_to {
                total = total + q;
            }
        }
        i = i + 1;
    }
    proof {
        assert(movements@.take(n as int) =~= movements@);
    }
    total
}

/// The transaction price one movement implies: |amount| / |quantity|, in
/// fixed point, rounded down.
fn transaction_price(amount: i64, quantity: i64) -> (r: i64)
    requires
        -VALUE_LIMIT <= amount <= VALUE_LIMIT,
        -VALUE_LIMIT <= quantity <= VALUE_LIMIT,
        quantity != 0,
    ensures
        r == abs64(amount) * (PRICE_SCALE as int) / abs64(quantity),
        0 <= r <= PRICE_LIMIT,
{
    let a = abs_val(amount) as u128;
    let q = abs_val(quantity) as u128;
    let scaled = a * (PRICE_SCALE as u128);
    let p = scaled / q;
    proof {
        assert(scaled / q <= scaled) by (nonlinear_arith)
            requires
                q >= 1,
                scaled >= 0,
        ;
    }
    p as i64
}

/// The day's transaction price for (`investment_id`, `date`): the mean of
/// the prices implied by that day's movements, if there are any.
fn day_transaction_price(movements: &Vec<Movement>, investment_id: i64, date: i64) -> (r: Option<
    i64,
>)
    requires
        valid_movements(movements@),
    ensures
        match r {
            Some(t) => txn_day_price(movements@, investment_id, date) == Some(t as int) && 0 <= t
                <= PRICE_LIMIT,
            None => txn_day_price(movements@, investment_id, date) is None,
        },
{
    let n = movements.len();
    let mut sum: u128 = 0;
    let mut count: usize = 0;
    let mut i: usize = 0;
    while i < n
        invariant
            n == movements@.len(),
            i <= n,
            valid_movements(movements@),
            sum == txn_price_sum(movements@.take(i as int), investment_id, date),
            count == txn_count(movements@.take(i as int), investment_id, date),
            count <= i,
            sum <= count * (PRICE_LIMIT as int),
        decreases n - i,
    {
        proof {
            assert(movements@.take(i as int + 1).drop_last() =~= movements@.take(i as int));
            assert(movements@.take(i as int + 1).last() == movements@[i as int]);
            assert(valid_movement(movements@[i as int]));
        }
        let m = &movements[i];
        if let (Some(iv), Some(dd), Some(am), Some(q)) = (m.investment_id, m.date, m.amount, m.quantity) {
            if q != 0 && iv == investment_id && dd == date {
                let p = transaction_price(am, q);
                sum = sum + p as u128;
                count = count + 1;
            }
        }
        i = i + 1;
    }
    proof {
        assert(movements@.take(n as int) =~= movements@);
    }
    if count == 0 {
        None
    } else {
        let mean = sum / (count as u128);
        proof {
            assert(sum / (count as u128) <= PRICE_LIMIT) by (nonlinear_arith)
                requires
                    1 <= count,
                    0 <= sum <= count * (PRICE_LIMIT as int),
            ;
        }
        Some(mean as i64)
    }
}

/// The quote price for (`investment_id`, `date`): of the rows that carry a
/// price for that key, the one read last wins.
fn day_quote_price(prices: &Vec<InvestmentPrice>, investment_id: i64, date: i64) -> (r: Option<
    i64,
>)
    requires
        valid_prices(prices@),
    ensures
        r == quote_price_at(prices@, investment_id, date),
        r matches Some(v) ==> -PRICE_LIMIT <= v <= PRICE_LIMIT,
{
    let n = prices.len();
    let mut found: Option<i64> = None;
    let mut i: usize = 0;
    while i < n
        invariant
            n == prices@.len(),
            i <= n,
            valid_prices(prices@),
            found == quote_price_at(prices@.take(i as int), investment_id, date),
            found matches Some(v) ==> -PRICE_LIMIT <= v <= PRICE_LIMIT,
        decreases n - i,
    {
        proof {
            assert(prices@.take(i as int + 1).drop_last() =~= prices@.take(i as int));
            assert(prices@.take(i as int + 1).last() == prices@[i as int]);
            assert(valid_price(prices@[i as int]));
        }
        let p = &prices[i];
        if let (Some(iv), Some(dd), Some(pr)) = (p.investment_id, p.date, p.price) {
            if iv == investment_id && dd == date {
                found = Some(pr);
            }
        }
        i = i + 1;
    }
    proof {
        assert(prices@.take(n as int) =~= prices@);
    }
    found
}

/// The position where (`inv`, `d`) belongs in the key list: the first index
/// whose key is not strictly below it.
fn find_insert_pos(keys: &Vec<(i64, i64)>, inv: i64, d: i64) -> (pos: usize)
    ensures
        pos <= keys@.len(),
        forall|t: int| 0 <= t < pos ==> key_lt(#[trigger] keys@[t].0, keys@[t].1, inv, d),
        pos < keys@.len() ==> !key_lt(keys@[pos as int].0, keys@[pos as int].1, inv, d),
{
    let n = keys.len();
    let mut idx: usize = 0;
    while idx < n
        invariant
            n == keys@.len(),
            idx <= n,
            forall|t: int| 0 <= t < idx ==> key_lt(#[trigger] keys@[t].0, keys@[t].1, inv, d),
        decreases n - idx,
    {
        let k = keys[idx];
        if !(k.0 < inv || (k.0 == inv && k.1 < d)) {
            return idx;
        }
        idx = idx + 1;
    }
    idx
}

/// Insert (`inv`, `d`) into the strictly sorted key list, keeping it sorted
/// and dropping the duplicate if the key is already present.
fn insert_key(keys: &mut Vec<(i64, i64)>, inv: i64, d: i64)
    requires
        keys_sorted(old(keys)@),
        old(keys)@.len() < LEN_LIMIT + LEN_LIMIT,
    ensures
        keys_sorted(final(keys)@),
        forall|a: i64, b: i64|
            #[trigger] key_in(final(keys)@, a, b) <==> (key_in(old(keys)@, a, b) || (a == inv && b
                == d)),
        final(keys)@.len() <= old(keys)@.len() + 1,
{
    let n = keys.len();
    let idx = find_insert_pos(keys, inv, d);
    if idx < n {
        let k = keys[idx];
        if k.0 == inv && k.1 == d {
            proof {
                assert(key_in(keys@, inv, d));
                assert forall|a: i64, b: i64| #[trigger]
                    key_in(keys@, a, b) <==> (key_in(old(keys)@, a, b) || (a == inv && b
                        == d)) by {}
            }
            return ;
        }
    }
    let ghost pre = keys@;
    keys.insert(idx, (inv, d));
    proof {
        pre.insert_ensures(idx as int, (inv, d));
        // Strict sortedness around the insertion point.
        assert forall|t1: int, t2: int|
            #![trigger keys@[t1], keys@[t2]]
            0 <= t1 < t2 < keys@.len() implies key_lt(
            keys@[t1].0,
            keys@[t1].1,
            keys@[t2].0,
            keys@[t2].1,
        ) by {
            if t1 == idx {
                assert(keys@[t2] == pre[t2 - 1]);
                assert(!key_lt(pre[idx as int].0, pre[idx as int].1, inv, d));
                assert(pre[idx as int] != (inv, d));
            } else if t2 == idx {
                assert(keys@[t1] == pre[t1]);
            } else if t1 < idx && t2 > idx {
                assert(keys@[t1] == pre[t1]);
                assert(keys@[t2] == pre[t2 - 1]);
            }
        }
        // Membership: the new list holds exactly the old keys plus (inv, d).
        assert forall|a: i64, b: i64| #[trigger]
            key_in(keys@, a, b) <==> (key_in(pre, a, b) || (a == inv && b == d)) by {
            if key_in(keys@, a, b) {
                let t = choose|t: int| 0 <= t < keys@.len() && #[trigger] keys@[t] == (a, b);
                if t < idx {
                    assert(pre[t] == (a, b));
                } else if t > idx {
                    assert(pre[t - 1] == (a, b));
                }
            }
            if key_in(pre, a, b) {
                let t = choose|t: int| 0 <= t < pre.len() && #[trigger] pre[t] == (a, b);
                if t < idx {
                    assert(keys@[t] == (a, b));
                } else {
                    assert(keys@[t + 1] == (a, b));
                }
            }
            if a == inv && b == d {
                assert(keys@[idx as int] == (a, b));
            }
        }
    }
}

/// Whether one of the first `i` movements implies a transaction price for
/// (`a`, `b`).
spec fn txn_key_upto(ms: Seq<Movement>, i: int, a: i64, b: i64) -> bool {
    exists|t: int| 0 <= t < i && txn_matches(#[trigger] ms[t], a, b)
}

/// Whether one of the first `i` quote rows addresses (`a`, `b`).
spec fn quote_key_upto(ps: Seq<InvestmentPrice>, i: int, a: i64, b: i64) -> bool {
    exists|t: int| 0 <= t < i && quote_key_matches(#[trigger] ps[t], a, b)
}

/// Collect every (instrument, day) pair that carries a transaction price or
/// a quote, sorted by instrument then day, without duplicates.
fn collect_all_dates(movements: &Vec<Movement>, prices: &Vec<InvestmentPrice>) -> (keys: Vec<
    (i64, i64),
>)
    requires
        movements@.len() <= LEN_LIMIT,
        prices@.len() <= LEN_LIMIT,
    ensures
        keys_sorted(keys@),
        forall|a: i64, b: i64|
            #[trigger] key_in(keys@, a, b) <==> is_key(movements@, prices@, a, b),
        keys@.len() <= movements@.len() + prices@.len(),
{
    let mut keys: Vec<(i64, i64)> = Vec::new();
    let nm = movements.len();
    let mut i: usize = 0;
    while i < nm
        invariant
            nm == movements@.len(),
            movements@.len() <= LEN_LIMIT,
            i <= nm,
            keys_sorted(keys@),
            keys@.len() <= i,
            forall|a: i64, b: i64|
                #[trigger] key_in(keys@, a, b) <==> txn_key_upto(movements@, i as int, a, b),
        decreases nm - i,
    {
        let m = &movements[i];
        if let (Some(iv), Some(dd), Some(_am), Some(q)) = (m.investment_id, m.date, m.amount, m.quantity) {
            if q != 0 {
                insert_key(&mut keys, iv, dd);
                proof {
                    assert forall|a: i64, b: i64| #[trigger]
                        key_in(keys@, a, b) <==> txn_key_upto(movements@, i as int + 1, a, b) by {
                        if key_in(keys@, a, b) {
                            if a == iv && b == dd {
                                assert(txn_matches(movements@[i as int], a, b));
                            }
                        }
                        if txn_key_upto(movements@, i as int + 1, a, b) {
                            let t = choose|t: int|
                                0 <= t < i as int + 1 && txn_matches(
                                    #[trigger] movements@[t],
                                    a,
                                    b,
                                );
                            if t < i {
                                assert(txn_key_upto(movements@, i as int, a, b));
                            }
                        }
                    }
                }
            } else {
                proof {
                    assert forall|a: i64, b: i64| #[trigger]
                        key_in(keys@, a, b) <==> txn_key_upto(movements@, i as int + 1, a, b) by {
                        if txn_key_upto(movements@, i as int + 1, a, b) {
                            let t = choose|t: int|
                                0 <= t < i as int + 1 && txn_matches(
                                    #[trigger] movements@[t],
                                    a,
                                    b,
                                );
                            assert(t < i);
                        }
                    }
                }
            }
        } else {
            proof {
                assert forall|a: i64, b: i64| #[trigger]
                    key_in(keys@, a, b) <==> txn_key_upto(movements@, i as int + 1, a, b) by {
                    if txn_key_upto(movements@, i as int + 1, a, b) {
                        let t = choose|t: int|
                            0 <= t < i as int + 1 && txn_matches(#[trigger] movements@[t], a, b);
                        assert(t < i);
                    }
                }
            }
        }
        i = i + 1;
    }
    let np = prices.len();
    let mut k: usize = 0;
    while k < np
        invariant
            np == prices@.len(),
            movements@.len() <= LEN_LIMIT,
            prices@.len() <= LEN_LIMIT,
            k <= np,
            keys_sorted(keys@),
            keys@.len() <= movements@.len() + k,
            forall|a: i64, b: i64|
                #[trigger] key_in(keys@, a, b) <==> (has_txn(movements@, a, b) || quote_key_upto(
                    prices@,
                    k as int,
                    a,
                    b,
                )),
        decreases np - k,
    {
        let p = &prices[k];
        if let (Some(iv), Some(dd)) = (p.investment_id, p.date) {
            insert_key(&mut keys, iv, dd);
            proof {
                assert forall|a: i64, b: i64| #[trigger]
                    key_in(keys@, a, b) <==> (has_txn(movements@, a, b) || quote_key_upto(
                        prices@,
                        k as int + 1,
                        a,
                        b,
                    )) by {
                    if key_in(keys@, a, b) {
                        if a == iv && b == dd {
                            assert(quote_key_matches(prices@[k as int], a, b));
                        }
                    }
                    if quote_key_upto(prices@, k as int + 1, a, b) {
                        let t = choose|t: int|
                            0 <= t < k as int + 1 && quote_key_matches(
                                #[trigger] prices@[t],
                                a,
                                b,
                            );
                        if t < k {
                            assert(quote_key_upto(prices@, k as int, a, b));
                        }
                    }
                }
            }
        } else {
            proof {
                assert forall|a: i64, b: i64| #[trigger]
                    key_in(keys@, a, b) <==> (has_txn(movements@, a, b) || quote_key_upto(
                        prices@,
                        k as int + 1,
                        a,
                        b,
                    )) by {
                    if quote_key_upto(prices@, k as int + 1, a, b) {
                        let t = choose|t: int|
                            0 <= t < k as int + 1 && quote_key_matches(
                                #[trigger] prices@[t],
                                a,
                                b,
                            );
                        assert(t < k);
                    }
                }
            }
        }
        k = k + 1;
    }
    keys
}

/// The Development Calculator: a stateless, reentrant service over the
/// caller-supplied ledger and quote series.
pub struct PortfolioCalculator {}

impl PortfolioCalculator {
    /// A calculator instance; it keeps no state between calls.
    pub fn new() -> (s: Self) {
        PortfolioCalculator {  }
    }

    /// Calculate portfolio developments combining the movement ledger and
    /// the quote series.
    ///
    /// For each interesting (instrument, day) pair inside the requested
    /// window the result holds one entry with the cumulative quantity held,
    /// a resolved price (the day's quote, else the day's mean transaction
    /// price, else carried forward), and their product as the position's
    /// value; see [`developments_correct`] for the full statement. Movements
    /// outside the window still count towards the cumulative quantity of
    /// days inside it. A window that excludes all activity yields an empty
    /// sequence, not an error.
    pub fn calculate_developments(
        &self,
        movements: &Vec<Movement>,
        prices: &Vec<InvestmentPrice>,
        start_date: Option<i64>,
        end_date: Option<i64>,
    ) -> (devs: Vec<Development>)
        requires
            valid_movements(movements@),
            valid_prices(prices@),
        ensures
            developments_correct(movements@, prices@, start_date, end_date, devs@),
    {
        let keys = collect_all_dates(movements, prices);
        let nk = keys.len();
        let mut devs: Vec<Development> = Vec::new();
        let mut i: usize = 0;
        while i < nk
            invariant
                nk == keys@.len(),
                i <= nk,
                valid_movements(movements@),
                valid_prices(prices@),
                keys_sorted(keys@),
                forall|a: i64, b: i64|
                    #[trigger] key_in(keys@, a, b) <==> is_key(movements@, prices@, a, b),
                forall|j1: int, j2: int|
                    0 <= j1 < j2 < devs@.len() ==> key_lt(
                        #[trigger] devs@[j1].investment,
                        devs@[j1].date,
                        #[trigger] devs@[j2].investment,
                        devs@[j2].date,
                    ),
                forall|j: int|
                    0 <= j < devs@.len() ==> dev_entry_ok(
                        movements@,
                        prices@,
                        start_date,
                        end_date,
                        devs@,
                        j,
                    ),
                forall|j: int|
                    0 <= j < devs@.len() ==> exists|t: int|
                        0 <= t < i && #[trigger] keys@[t] == (
                            #[trigger] devs@[j].investment,
                            devs@[j].date,
                        ),
                forall|t: int|
                    0 <= t < i && must_emit(
                        movements@,
                        prices@,
                        start_date,
                        end_date,
                        devs@,
                        #[trigger] keys@[t].0,
                        keys@[t].1,
                    ) ==> emitted(devs@, keys@[t].0, keys@[t].1),
            decreases nk - i,
        {
            let inv = keys[i].0;
            let d = keys[i].1;
            proof {
                assert(keys@[i as int] == (inv, d));
                assert(key_in(keys@, inv, d));
            }
            let in_win = (match start_date {
                Some(s) => d >= s,
                None => true,
            }) && (match end_date {
                Some(e) => d <= e,
                None => true,
            });
            proof {
                assert(in_win == in_window(d, start_date, end_date));
            }
            if in_win {
                let quote = day_quote_price(prices, inv, d);
                let price_opt: Option<i64> = match quote {
                    Some(q) => Some(q),
                    None => match day_transaction_price(movements, inv, d) {
                        Some(t) => Some(t),
                        None => {
                            if devs.len() > 0 {
                                let lastd = &devs[devs.len() - 1];
                                if lastd.investment == inv {
                                    Some(lastd.price)
                                } else {
                                    None
                                }
                            } else {
                                None
                            }
                        },
                    },
                };
                match price_opt {
                    Some(price) => {
                        let qb = sum_quantities(movements, ACTION_BUY, inv, d);
                        let qs = sum_quantities(movements, ACTION_SELL, inv, d);
                        proof {
                            assert((LEN_LIMIT as int) * (VALUE_LIMIT as int)
                                == 1000000000000000000int);
                            assert(-1000000000000000000int <= qb <= 1000000000000000000int);
                            assert(-1000000000000000000int <= qs <= 1000000000000000000int);
                        }
                        let quantity = qb - qs;
                        proof {
                            if devs@.len() > 0 {
                                assert(dev_entry_ok(
                                    movements@,
                                    prices@,
                                    start_date,
                                    end_date,
                                    devs@,
                                    devs@.len() - 1,
                                ));
                            }
                            assert(-PRICE_LIMIT <= price <= PRICE_LIMIT);
                            assert(-40000000000000000000000000000000000int <= (quantity as int)
                                * (price as int) <= 40000000000000000000000000000000000int)
                                by (nonlinear_arith)
                                requires
                                    -2000000000000000000int <= quantity <= 2000000000000000000int,
                                    -10000000000000000int <= price <= 10000000000000000int,
                            ;
                        }
                        let value = (quantity as i128) * (price as i128);
                        let dv = Development { investment: inv, date: d, price, quantity, value };
                        let ghost pre = devs@;
                        devs.push(dv);
                        proof {
                            let post = devs@;
                            let jn = pre.len() as int;
                            assert(post[jn] == dv);
                            // Sortedness: the new entry's key is strictly
                            // above every processed key.
                            assert forall|j1: int, j2: int|
                                0 <= j1 < j2 < post.len() implies key_lt(
                                #[trigger] post[j1].investment,
                                post[j1].date,
                                #[trigger] post[j2].investment,
                                post[j2].date,
                            ) by {
                                if j2 < jn {
                                    assert(post[j1] == pre[j1]);
                                    assert(post[j2] == pre[j2]);
                                } else {
                                    assert(post[j1] == pre[j1]);
                                    let t = choose|t: int|
                                        0 <= t < i && #[trigger] keys@[t] == (
                                            pre[j1].investment,
                                            pre[j1].date,
                                        );
                                    assert(key_lt(keys@[t].0, keys@[t].1, inv, d));
                                }
                            }
                            // Every entry, including the new one, is correct.
                            assert forall|j: int|
                                0 <= j < post.len() implies dev_entry_ok(
                                movements@,
                                prices@,
                                start_date,
                                end_date,
                                post,
                                j,
                            ) by {
                                if j < jn {
                                    assert(post[j] == pre[j]);
                                    if j > 0 {
                                        assert(post[j - 1] == pre[j - 1]);
                                    }
                                    assert(dev_entry_ok(
                                        movements@,
                                        prices@,
                                        start_date,
                                        end_date,
                                        pre,
                                        j,
                                    ));
                                } else {
                                    if jn > 0 {
                                        assert(post[jn - 1] == pre[jn - 1]);
                                    }
                                }
                            }
                            // Every entry's key was processed.
                            assert forall|j: int| 0 <= j < post.len() implies exists|t: int|
                                0 <= t < i + 1 && #[trigger] keys@[t] == (
                                    #[trigger] post[j].investment,
                                    post[j].date,
                                ) by {
                                if j < jn {
                                    assert(post[j] == pre[j]);
                                    let t = choose|t: int|
                                        0 <= t < i && #[trigger] keys@[t] == (
                                            pre[j].investment,
                                            pre[j].date,
                                        );
                                    assert(0 <= t < i + 1 && keys@[t] == (
                                        post[j].investment,
                                        post[j].date,
                                    ));
                                } else {
                                    assert(keys@[i as int] == (post[j].investment, post[j].date));
                                }
                            }
                            // Completeness over the processed keys.
                            assert forall|t: int|
                                0 <= t < i + 1 && must_emit(
                                    movements@,
                                    prices@,
                                    start_date,
                                    end_date,
                                    post,
                                    #[trigger] keys@[t].0,
                                    keys@[t].1,
                                ) implies emitted(post, keys@[t].0, keys@[t].1) by {
                                let a = keys@[t].0;
                                let b = keys@[t].1;
                                if t == i {
                                    assert(post[jn].investment == a && post[jn].date == b);
                                } else {
                                    if must_emit(
                                        movements@,
                                        prices@,
                                        start_date,
                                        end_date,
                                        pre,
                                        a,
                                        b,
                                    ) {
                                        assert(emitted(pre, a, b));
                                        let j = choose|j: int|
                                            0 <= j < pre.len() && #[trigger] pre[j].investment == a
                                                && pre[j].date == b;
                                        assert(post[j] == pre[j]);
                                        assert(emitted(post, a, b));
                                    } else {
                                        // The price can only have become
                                        // available through the new entry,
                                        // whose key lies above keys[t].
                                        assert(emitted_before(post, a, b));
                                        let j = choose|j: int|
                                            0 <= j < post.len() && #[trigger] post[j].investment
                                                == a && post[j].date < b;
                                        if j < jn {
                                            assert(post[j] == pre[j]);
                                            assert(emitted_before(pre, a, b));
                                        } else {
                                            assert(key_lt(a, b, inv, d));
                                        }
                                        assert(false);
                                    }
                                }
                            }
                        }
                    },
                    None => {
                        proof {
                            // No quote, no transaction price, and no earlier
                            // entry of this instrument: the key must not
                            // emit. An earlier entry of this instrument
                            // would have to be the last entry, because keys
                            // are processed in sorted order.
                            assert forall|t: int|
                                0 <= t < i + 1 && must_emit(
                                    movements@,
                                    prices@,
                                    start_date,
                                    end_date,
                                    devs@,
                                    #[trigger] keys@[t].0,
                                    keys@[t].1,
                                ) implies emitted(devs@, keys@[t].0, keys@[t].1) by {
                                if t == i {
                                    assert(emitted_before(devs@, inv, d));
                                    let j = choose|j: int|
                                        0 <= j < devs@.len() && #[trigger] devs@[j].investment
                                            == inv && devs@[j].date < d;
                                    let l = devs@.len() - 1;
                                    if j < l {
                                        assert(key_lt(
                                            devs@[j].investment,
                                            devs@[j].date,
                                            devs@[l].investment,
                                            devs@[l].date,
                                        ));
                                    }
                                    let tl = choose|tt: int|
                                        0 <= tt < i && #[trigger] keys@[tt] == (
                                            devs@[l].investment,
                                            devs@[l].date,
                                        );
                                    assert(key_lt(keys@[tl].0, keys@[tl].1, inv, d));
                                    assert(devs@[l].investment == inv);
                                    assert(false);
                                }
                            }
                        }
                    },
                }
            } else {
                proof {
                    assert forall|t: int|
                        0 <= t < i + 1 && must_emit(
                            movements@,
                            prices@,
                            start_date,
                            end_date,
                            devs@,
                            #[trigger] keys@[t].0,
                            keys@[t].1,
                        ) implies emitted(devs@, keys@[t].0, keys@[t].1) by {}
                }
            }
            i = i + 1;
        }
        proof {
            assert forall|a: i64, b: i64|
                must_emit(
                    movements@,
                    prices@,
                    start_date,
                    end_date,
                    devs@,
                    a,
                    b,
                ) implies emitted(devs@, a, b) by {
                assert(is_key(movements@, prices@, a, b));
                assert(key_in(keys@, a, b));
                let t = choose|t: int| 0 <= t < keys@.len() && #[trigger] keys@[t] == (a, b);
                assert(must_emit(
                    movements@,
                    prices@,
                    start_date,
                    end_date,
                    devs@,
                    keys@[t].0,
                    keys@[t].1,
                ));
            }
        }
        devs
    }
}

} // verus!
