//! Laws of the Development Calculator: properties every valuation series
//! satisfying [`developments_correct`] has, stated and proved once for all
//! inputs.

use vstd::prelude::*;

use crate::models::{InvestmentPrice, Movement, ACTION_BUY, ACTION_SELL};
use crate::portfolio_calculator::{
    developments_correct, dev_entry_ok, emitted, emitted_before, has_quote_key, has_txn,
    held_quantity,
    in_window, is_key, key_lt, movement_priced, must_emit, quantity_matches, quantity_sum,
    quote_key_matches, quote_price_at, quote_priced_matches, txn_count, txn_day_price,
    txn_matches, txn_price_of, txn_price_sum, valid_movement, Development,
};

verus! {

/// A ledger holding exactly one priced Buy movement and no quotes yields
/// exactly one Development: its quantity is the movement's quantity, its
/// price the movement's transaction price |amount| / |quantity|, and its
/// value their product.
pub proof fn lemma_single_buy(m: Movement, devs: Seq<Development>)
    requires
        valid_movement(m),
        movement_priced(m),
        m.action_id == Some(ACTION_BUY),
        developments_correct(seq![m], Seq::<InvestmentPrice>::empty(), None, None, devs),
    ensures
        devs.len() == 1,
        devs[0].investment == m.investment_id->Some_0,
        devs[0].date == m.date->Some_0,
        devs[0].quantity == m.quantity->Some_0,
        devs[0].price == txn_price_of(m),
        devs[0].value == devs[0].quantity * devs[0].price,
{
    let ms = seq![m];
    let ps = Seq::<InvestmentPrice>::empty();
    let inv = m.investment_id->Some_0;
    let d = m.date->Some_0;
    assert(ms.drop_last() =~= Seq::<Movement>::empty());
    assert(ms.last() == m);
    assert(txn_count(Seq::<Movement>::empty(), inv, d) == 0);
    assert(txn_price_sum(Seq::<Movement>::empty(), inv, d) == 0);
    assert(quantity_sum(Seq::<Movement>::empty(), ACTION_BUY, inv, d) == 0);
    assert(quantity_sum(Seq::<Movement>::empty(), ACTION_SELL, inv, d) == 0);
    assert(txn_matches(m, inv, d));
    assert(ms[0] == m);
    assert(is_key(ms, ps, inv, d));
    assert(txn_count(ms, inv, d) == 1);
    assert(txn_price_sum(ms, inv, d) == txn_price_of(m));
    assert(txn_price_of(m) / 1 == txn_price_of(m));
    assert(txn_day_price(ms, inv, d) == Some(txn_price_of(m)));
    assert(quote_price_at(ps, inv, d) is None);
    assert(must_emit(ms, ps, None, None, devs, inv, d));
    assert(emitted(devs, inv, d));
    let j0 = choose|j: int|
        0 <= j < devs.len() && #[trigger] devs[j].investment == inv && devs[j].date == d;
    // Every entry sits on an interesting key, and the only one is (inv, d).
    assert forall|j: int| 0 <= j < devs.len() implies devs[j].investment == inv && devs[j].date
        == d by {
        assert(dev_entry_ok(ms, ps, None, None, devs, j));
        assert(is_key(ms, ps, devs[j].investment, devs[j].date));
        let t = choose|t: int|
            0 <= t < ms.len() && txn_matches(#[trigger] ms[t], devs[j].investment, devs[j].date);
        assert(ms[t] == m);
    }
    // Two entries on the same key would break the strict ordering.
    if devs.len() >= 2 {
        assert(key_lt(devs[0].investment, devs[0].date, devs[1].investment, devs[1].date));
        assert(false);
    }
    assert(devs.len() == 1);
    assert(j0 == 0);
    assert(dev_entry_ok(ms, ps, None, None, devs, 0));
    // The held quantity on day d is the single buy's quantity.
    assert(quantity_matches(m, ACTION_BUY, inv, d));
    assert(quantity_sum(ms, ACTION_BUY, inv, d) == m.quantity->Some_0);
    assert(!quantity_matches(m, ACTION_SELL, inv, d));
    assert(quantity_sum(ms, ACTION_SELL, inv, d) == 0);
    assert(held_quantity(ms, inv, d) == m.quantity->Some_0);
}

/// A Buy followed by a Sell of the same instrument on a later day yields
/// two Developments: the bought quantity then the remainder, each priced
/// from its own day's transaction price.
pub proof fn lemma_buy_then_sell(m1: Movement, m2: Movement, devs: Seq<Development>)
    requires
        valid_movement(m1),
        valid_movement(m2),
        movement_priced(m1),
        movement_priced(m2),
        m1.action_id == Some(ACTION_BUY),
        m2.action_id == Some(ACTION_SELL),
        m1.investment_id == m2.investment_id,
        m1.date->Some_0 < m2.date->Some_0,
        developments_correct(seq![m1, m2], Seq::<InvestmentPrice>::empty(), None, None, devs),
    ensures
        devs.len() == 2,
        devs[0].investment == m1.investment_id->Some_0,
        devs[0].date == m1.date->Some_0,
        devs[0].quantity == m1.quantity->Some_0,
        devs[0].price == txn_price_of(m1),
        devs[1].investment == m1.investment_id->Some_0,
        devs[1].date == m2.date->Some_0,
        devs[1].quantity == m1.quantity->Some_0 - m2.quantity->Some_0,
        devs[1].price == txn_price_of(m2),
{
    let ms = seq![m1, m2];
    let ps = Seq::<InvestmentPrice>::empty();
    let inv = m1.investment_id->Some_0;
    let d1 = m1.date->Some_0;
    let d2 = m2.date->Some_0;
    assert(ms.drop_last() =~= seq![m1]);
    assert(ms.last() == m2);
    assert(seq![m1].drop_last() =~= Seq::<Movement>::empty());
    assert(seq![m1].last() == m1);
    assert(ms[0] == m1 && ms[1] == m2);
    assert(txn_count(Seq::<Movement>::empty(), inv, d1) == 0);
    assert(txn_count(Seq::<Movement>::empty(), inv, d2) == 0);
    assert(txn_price_sum(Seq::<Movement>::empty(), inv, d1) == 0);
    assert(txn_price_sum(Seq::<Movement>::empty(), inv, d2) == 0);
    assert(quantity_sum(Seq::<Movement>::empty(), ACTION_BUY, inv, d1) == 0);
    assert(quantity_sum(Seq::<Movement>::empty(), ACTION_BUY, inv, d2) == 0);
    assert(quantity_sum(Seq::<Movement>::empty(), ACTION_SELL, inv, d1) == 0);
    assert(quantity_sum(Seq::<Movement>::empty(), ACTION_SELL, inv, d2) == 0);
    assert(txn_matches(m1, inv, d1));
    assert(txn_matches(m2, inv, d2));
    assert(is_key(ms, ps, inv, d1));
    assert(is_key(ms, ps, inv, d2));
    // Day 1: only the buy contributes a transaction price.
    assert(!txn_matches(m2, inv, d1));
    assert(txn_count(seq![m1], inv, d1) == 1);
    assert(txn_count(ms, inv, d1) == 1);
    assert(txn_price_sum(seq![m1], inv, d1) == txn_price_of(m1));
    assert(txn_price_sum(ms, inv, d1) == txn_price_of(m1));
    assert(txn_price_of(m1) / 1 == txn_price_of(m1));
    assert(txn_day_price(ms, inv, d1) == Some(txn_price_of(m1)));
    // Day 2: only the sell contributes a transaction price.
    assert(!txn_matches(m1, inv, d2));
    assert(txn_count(seq![m1], inv, d2) == 0);
    assert(txn_count(ms, inv, d2) == 1);
    assert(txn_price_sum(seq![m1], inv, d2) == 0);
    assert(txn_price_sum(ms, inv, d2) == txn_price_of(m2));
    assert(txn_price_of(m2) / 1 == txn_price_of(m2));
    assert(txn_day_price(ms, inv, d2) == Some(txn_price_of(m2)));
    assert(quote_price_at(ps, inv, d1) is None);
    assert(quote_price_at(ps, inv, d2) is None);
    // Both days emit.
    assert(must_emit(ms, ps, None, None, devs, inv, d1));
    assert(must_emit(ms, ps, None, None, devs, inv, d2));
    assert(emitted(devs, inv, d1));
    assert(emitted(devs, inv, d2));
    let ja = choose|j: int|
        0 <= j < devs.len() && #[trigger] devs[j].investment == inv && devs[j].date == d1;
    let jb = choose|j: int|
        0 <= j < devs.len() && #[trigger] devs[j].investment == inv && devs[j].date == d2;
    // Every entry sits on one of the two keys.
    assert forall|j: int| 0 <= j < devs.len() implies devs[j].investment == inv && (devs[j].date
        == d1 || devs[j].date == d2) by {
        assert(dev_entry_ok(ms, ps, None, None, devs, j));
        assert(is_key(ms, ps, devs[j].investment, devs[j].date));
        let t = choose|t: int|
            0 <= t < ms.len() && txn_matches(#[trigger] ms[t], devs[j].investment, devs[j].date);
        assert(ms[t] == m1 || ms[t] == m2);
    }
    // Strict ordering pins the length to two and the order to (d1, d2).
    if devs.len() >= 3 {
        assert(key_lt(devs[0].investment, devs[0].date, devs[1].investment, devs[1].date));
        assert(key_lt(devs[1].investment, devs[1].date, devs[2].investment, devs[2].date));
        assert(false);
    }
    assert(ja != jb);
    assert(devs.len() == 2);
    if devs[0].date == d2 {
        assert(key_lt(devs[0].investment, devs[0].date, devs[1].investment, devs[1].date));
        assert(false);
    }
    assert(devs[0].date == d1 && devs[1].date == d2);
    assert(dev_entry_ok(ms, ps, None, None, devs, 0));
    assert(dev_entry_ok(ms, ps, None, None, devs, 1));
    // Held quantities: q1 after the buy, q1 - q2 after the sell.
    assert(quantity_matches(m1, ACTION_BUY, inv, d1));
    assert(!quantity_matches(m2, ACTION_SELL, inv, d1));
    assert(!quantity_matches(m2, ACTION_BUY, inv, d1));
    assert(quantity_sum(seq![m1], ACTION_BUY, inv, d1) == m1.quantity->Some_0);
    assert(quantity_sum(ms, ACTION_BUY, inv, d1) == m1.quantity->Some_0);
    assert(quantity_sum(seq![m1], ACTION_SELL, inv, d1) == 0);
    assert(quantity_sum(ms, ACTION_SELL, inv, d1) == 0);
    assert(held_quantity(ms, inv, d1) == m1.quantity->Some_0);
    assert(quantity_matches(m1, ACTION_BUY, inv, d2));
    assert(quantity_matches(m2, ACTION_SELL, inv, d2));
    assert(!quantity_matches(m2, ACTION_BUY, inv, d2));
    assert(!quantity_matches(m1, ACTION_SELL, inv, d2));
    assert(quantity_sum(seq![m1], ACTION_BUY, inv, d2) == m1.quantity->Some_0);
    assert(quantity_sum(ms, ACTION_BUY, inv, d2) == m1.quantity->Some_0);
    assert(quantity_sum(seq![m1], ACTION_SELL, inv, d2) == 0);
    assert(quantity_sum(ms, ACTION_SELL, inv, d2) == m2.quantity->Some_0);
    assert(held_quantity(ms, inv, d2) == m1.quantity->Some_0 - m2.quantity->Some_0);
}

/// Price resolution: whenever a day has its own signal, that signal is used
/// — the quote strictly wins over the transaction price, the transaction
/// price over the carried-forward value; only a day with neither takes the
/// previous entry's price, which then belongs to the same instrument.
pub proof fn lemma_price_resolution(
    ms: Seq<Movement>,
    ps: Seq<InvestmentPrice>,
    start: Option<i64>,
    end: Option<i64>,
    devs: Seq<Development>,
)
    requires
        developments_correct(ms, ps, start, end, devs),
    ensures
        forall|j: int|
            0 <= j < devs.len() && quote_price_at(
                ps,
                #[trigger] devs[j].investment,
                devs[j].date,
            ) is Some ==> devs[j].price == quote_price_at(
                ps,
                devs[j].investment,
                devs[j].date,
            )->Some_0,
        forall|j: int|
            0 <= j < devs.len() && quote_price_at(
                ps,
                #[trigger] devs[j].investment,
                devs[j].date,
            ) is None && txn_day_price(ms, devs[j].investment, devs[j].date) is Some
                ==> devs[j].price == txn_day_price(ms, devs[j].investment, devs[j].date)->Some_0,
        forall|j: int|
            0 <= j < devs.len() && quote_price_at(
                ps,
                #[trigger] devs[j].investment,
                devs[j].date,
            ) is None && txn_day_price(ms, devs[j].investment, devs[j].date) is None ==> j > 0
                && devs[j - 1].investment == devs[j].investment && devs[j].price == devs[j
                - 1].price,
{
    assert forall|j: int|
        0 <= j < devs.len() && quote_price_at(
            ps,
            #[trigger] devs[j].investment,
            devs[j].date,
        ) is Some implies devs[j].price == quote_price_at(
        ps,
        devs[j].investment,
        devs[j].date,
    )->Some_0 by {
        assert(dev_entry_ok(ms, ps, start, end, devs, j));
    }
    assert forall|j: int|
        0 <= j < devs.len() && quote_price_at(ps, #[trigger] devs[j].investment, devs[j].date)
            is None && txn_day_price(ms, devs[j].investment, devs[j].date)
            is Some implies devs[j].price == txn_day_price(
        ms,
        devs[j].investment,
        devs[j].date,
    )->Some_0 by {
        assert(dev_entry_ok(ms, ps, start, end, devs, j));
    }
    assert forall|j: int|
        0 <= j < devs.len() && quote_price_at(ps, #[trigger] devs[j].investment, devs[j].date)
            is None && txn_day_price(ms, devs[j].investment, devs[j].date) is None implies j > 0
        && devs[j - 1].investment == devs[j].investment && devs[j].price == devs[j - 1].price by {
        assert(dev_entry_ok(ms, ps, start, end, devs, j));
    }
}

/// Date-range filtering: every emitted entry lies inside the window, its
/// cumulative quantity is still computed over the full ledger (movements
/// outside the window keep counting), and every interesting in-window day
/// with its own price signal emits.
pub proof fn lemma_window_filter(
    ms: Seq<Movement>,
    ps: Seq<InvestmentPrice>,
    start: Option<i64>,
    end: Option<i64>,
    devs: Seq<Development>,
)
    requires
        developments_correct(ms, ps, start, end, devs),
    ensures
        forall|j: int|
            0 <= j < devs.len() ==> in_window(#[trigger] devs[j].date, start, end),
        forall|j: int|
            0 <= j < devs.len() ==> #[trigger] devs[j].quantity == held_quantity(
                ms,
                devs[j].investment,
                devs[j].date,
            ),
        forall|inv: i64, d: i64|
            #![trigger is_key(ms, ps, inv, d)]
            is_key(ms, ps, inv, d) && in_window(d, start, end) && (quote_price_at(ps, inv, d)
                is Some || txn_day_price(ms, inv, d) is Some) ==> emitted(devs, inv, d),
{
    assert forall|j: int|
        0 <= j < devs.len() implies in_window(#[trigger] devs[j].date, start, end) by {
        assert(dev_entry_ok(ms, ps, start, end, devs, j));
    }
    assert forall|j: int|
        0 <= j < devs.len() implies #[trigger] devs[j].quantity == held_quantity(
        ms,
        devs[j].investment,
        devs[j].date,
    ) by {
        assert(dev_entry_ok(ms, ps, start, end, devs, j));
    }
    assert forall|inv: i64, d: i64|
        #![trigger is_key(ms, ps, inv, d)]
        is_key(ms, ps, inv, d) && in_window(d, start, end) && (quote_price_at(ps, inv, d) is Some
            || txn_day_price(ms, inv, d) is Some) implies emitted(devs, inv, d) by {
        assert(must_emit(ms, ps, start, end, devs, inv, d));
    }
}

/// An entry of one correct series is emitted by every other correct series
/// for the same inputs: its price is either the day's own signal, which the
/// other series must also emit, or carried from an earlier entry of the
/// same instrument, which the other series holds by induction.
proof fn lemma_emitted_in_other(
    ms: Seq<Movement>,
    ps: Seq<InvestmentPrice>,
    start: Option<i64>,
    end: Option<i64>,
    devs1: Seq<Development>,
    devs2: Seq<Development>,
    j: int,
)
    requires
        developments_correct(ms, ps, start, end, devs1),
        developments_correct(ms, ps, start, end, devs2),
        0 <= j < devs1.len(),
    ensures
        emitted(devs2, devs1[j].investment, devs1[j].date),
    decreases j,
{
    let inv = devs1[j].investment;
    let d = devs1[j].date;
    assert(dev_entry_ok(ms, ps, start, end, devs1, j));
    if quote_price_at(ps, inv, d) is Some || txn_day_price(ms, inv, d) is Some {
        assert(must_emit(ms, ps, start, end, devs2, inv, d));
    } else {
        assert(devs1[j - 1].investment == inv);
        assert(key_lt(
            devs1[j - 1].investment,
            devs1[j - 1].date,
            devs1[j].investment,
            devs1[j].date,
        ));
        lemma_emitted_in_other(ms, ps, start, end, devs1, devs2, j - 1);
        let t = choose|t: int|
            0 <= t < devs2.len() && #[trigger] devs2[t].investment == inv && devs2[t].date
                == devs1[j - 1].date;
        assert(emitted_before(devs2, inv, d));
        assert(must_emit(ms, ps, start, end, devs2, inv, d));
    }
}

/// Two correct series for the same inputs agree entry by entry, as far as
/// both reach.
proof fn lemma_entries_equal_through(
    ms: Seq<Movement>,
    ps: Seq<InvestmentPrice>,
    start: Option<i64>,
    end: Option<i64>,
    devs1: Seq<Development>,
    devs2: Seq<Development>,
    j: int,
)
    requires
        developments_correct(ms, ps, start, end, devs1),
        developments_correct(ms, ps, start, end, devs2),
        0 <= j < devs1.len(),
        j < devs2.len(),
    ensures
        forall|t: int| 0 <= t <= j ==> devs1[t] == devs2[t],
    decreases j,
{
    if j > 0 {
        lemma_entries_equal_through(ms, ps, start, end, devs1, devs2, j - 1);
    }
    // The keys at position j agree: each series emits the other's key, and
    // emitting it before position j would duplicate a key in the prefix the
    // series already share.
    lemma_emitted_in_other(ms, ps, start, end, devs1, devs2, j);
    lemma_emitted_in_other(ms, ps, start, end, devs2, devs1, j);
    let k1i = devs1[j].investment;
    let k1d = devs1[j].date;
    let k2i = devs2[j].investment;
    let k2d = devs2[j].date;
    let t2 = choose|t: int|
        0 <= t < devs2.len() && #[trigger] devs2[t].investment == k1i && devs2[t].date == k1d;
    if t2 < j {
        assert(devs2[t2] == devs1[t2]);
        assert(key_lt(devs1[t2].investment, devs1[t2].date, devs1[j].investment, devs1[j].date));
        assert(false);
    }
    let t1 = choose|t: int|
        0 <= t < devs1.len() && #[trigger] devs1[t].investment == k2i && devs1[t].date == k2d;
    if t1 < j {
        assert(devs1[t1] == devs2[t1]);
        assert(key_lt(devs2[t1].investment, devs2[t1].date, devs2[j].investment, devs2[j].date));
        assert(false);
    }
    if t2 > j {
        assert(key_lt(devs2[j].investment, devs2[j].date, devs2[t2].investment, devs2[t2].date));
    }
    if t1 > j {
        assert(key_lt(devs1[j].investment, devs1[j].date, devs1[t1].investment, devs1[t1].date));
    }
    assert(k1i == k2i && k1d == k2d);
    // With equal keys, every field is forced by the entry correctness.
    assert(dev_entry_ok(ms, ps, start, end, devs1, j));
    assert(dev_entry_ok(ms, ps, start, end, devs2, j));
    assert(devs1[j] == devs2[j]);
}

/// The characterization [`developments_correct`] pins the series down: any
/// two series satisfying it for the same ledger, quote series and window
/// are equal.
pub proof fn lemma_developments_unique(
    ms: Seq<Movement>,
    ps: Seq<InvestmentPrice>,
    start: Option<i64>,
    end: Option<i64>,
    devs1: Seq<Development>,
    devs2: Seq<Development>,
)
    requires
        developments_correct(ms, ps, start, end, devs1),
        developments_correct(ms, ps, start, end, devs2),
    ensures
        devs1 == devs2,
{
    // Neither series can be longer: its extra entry's key would have to sit
    // twice in the other.
    if devs1.len() > devs2.len() {
        let j = devs2.len() as int;
        lemma_emitted_in_other(ms, ps, start, end, devs1, devs2, j);
        let t2 = choose|t: int|
            0 <= t < devs2.len() && #[trigger] devs2[t].investment == devs1[j].investment
                && devs2[t].date == devs1[j].date;
        lemma_entries_equal_through(ms, ps, start, end, devs1, devs2, j - 1);
        assert(devs1[t2] == devs2[t2]);
        assert(key_lt(devs1[t2].investment, devs1[t2].date, devs1[j].investment, devs1[j].date));
        assert(false);
    }
    if devs2.len() > devs1.len() {
        let j = devs1.len() as int;
        lemma_emitted_in_other(ms, ps, start, end, devs2, devs1, j);
        let t1 = choose|t: int|
            0 <= t < devs1.len() && #[trigger] devs1[t].investment == devs2[j].investment
                && devs1[t].date == devs2[j].date;
        lemma_entries_equal_through(ms, ps, start, end, devs2, devs1, j - 1);
        assert(devs2[t1] == devs1[t1]);
        assert(key_lt(devs2[t1].investment, devs2[t1].date, devs2[j].investment, devs2[j].date));
        assert(false);
    }
    if devs1.len() > 0 {
        lemma_entries_equal_through(ms, ps, start, end, devs1, devs2, devs1.len() - 1);
    }
    assert(devs1 =~= devs2);
}

/// The movements of one instrument, in ledger order.
pub open spec fn restrict_movements(ms: Seq<Movement>, inv: i64) -> Seq<Movement>
    decreases ms.len(),
{
    if ms.len() == 0 {
        Seq::<Movement>::empty()
    } else if ms.last().investment_id == Some(inv) {
        restrict_movements(ms.drop_last(), inv).push(ms.last())
    } else {
        restrict_movements(ms.drop_last(), inv)
    }
}

/// The quote rows of one instrument, in read order.
pub open spec fn restrict_prices(ps: Seq<InvestmentPrice>, inv: i64) -> Seq<InvestmentPrice>
    decreases ps.len(),
{
    if ps.len() == 0 {
        Seq::<InvestmentPrice>::empty()
    } else if ps.last().investment_id == Some(inv) {
        restrict_prices(ps.drop_last(), inv).push(ps.last())
    } else {
        restrict_prices(ps.drop_last(), inv)
    }
}

/// Quantity sums only read the instrument's own movements.
proof fn lemma_quantity_sum_restrict(ms: Seq<Movement>, action: i64, inv: i64, d: i64)
    ensures
        quantity_sum(restrict_movements(ms, inv), action, inv, d) == quantity_sum(
            ms,
            action,
            inv,
            d,
        ),
    decreases ms.len(),
{
    if ms.len() == 0 {
        assert(restrict_movements(ms, inv) =~= Seq::<Movement>::empty());
    } else {
        let dl = ms.drop_last();
        lemma_quantity_sum_restrict(dl, action, inv, d);
        if ms.last().investment_id == Some(inv) {
            let r = restrict_movements(ms, inv);
            assert(r == restrict_movements(dl, inv).push(ms.last()));
            assert(r.drop_last() =~= restrict_movements(dl, inv));
            assert(r.last() == ms.last());
        } else {
            assert(!quantity_matches(ms.last(), action, inv, d));
        }
    }
}

/// Transaction-price sums and counts only read the instrument's own
/// movements.
proof fn lemma_txn_restrict(ms: Seq<Movement>, inv: i64, d: i64)
    ensures
        txn_count(restrict_movements(ms, inv), inv, d) == txn_count(ms, inv, d),
        txn_price_sum(restrict_movements(ms, inv), inv, d) == txn_price_sum(ms, inv, d),
    decreases ms.len(),
{
    if ms.len() == 0 {
        assert(restrict_movements(ms, inv) =~= Seq::<Movement>::empty());
    } else {
        let dl = ms.drop_last();
        lemma_txn_restrict(dl, inv, d);
        if ms.last().investment_id == Some(inv) {
            let r = restrict_movements(ms, inv);
            assert(r == restrict_movements(dl, inv).push(ms.last()));
            assert(r.drop_last() =~= restrict_movements(dl, inv));
            assert(r.last() == ms.last());
        } else {
            assert(!txn_matches(ms.last(), inv, d));
        }
    }
}

/// The winning quote only depends on the instrument's own quote rows.
proof fn lemma_quote_price_restrict(ps: Seq<InvestmentPrice>, inv: i64, d: i64)
    ensures
        quote_price_at(restrict_prices(ps, inv), inv, d) == quote_price_at(ps, inv, d),
    decreases ps.len(),
{
    if ps.len() == 0 {
        assert(restrict_prices(ps, inv) =~= Seq::<InvestmentPrice>::empty());
    } else {
        let dl = ps.drop_last();
        lemma_quote_price_restrict(dl, inv, d);
        if ps.last().investment_id == Some(inv) {
            let r = restrict_prices(ps, inv);
            assert(r == restrict_prices(dl, inv).push(ps.last()));
            assert(r.drop_last() =~= restrict_prices(dl, inv));
            assert(r.last() == ps.last());
        } else {
            assert(!quote_priced_matches(ps.last(), inv, d));
        }
    }
}

/// An instrument has a transaction day among its own movements exactly when
/// it has one in the full ledger.
proof fn lemma_has_txn_restrict(ms: Seq<Movement>, inv: i64, d: i64)
    ensures
        has_txn(restrict_movements(ms, inv), inv, d) == has_txn(ms, inv, d),
    decreases ms.len(),
{
    let r = restrict_movements(ms, inv);
    if ms.len() == 0 {
        assert(r =~= Seq::<Movement>::empty());
        assert(!has_txn(ms, inv, d));
        assert(!has_txn(r, inv, d));
    } else {
        let dl = ms.drop_last();
        let rdl = restrict_movements(dl, inv);
        lemma_has_txn_restrict(dl, inv, d);
        if txn_matches(ms.last(), inv, d) {
            assert(ms[ms.len() - 1] == ms.last());
            assert(has_txn(ms, inv, d));
            assert(r == rdl.push(ms.last()));
            assert(r[r.len() - 1] == ms.last());
            assert(has_txn(r, inv, d));
        } else {
            assert(has_txn(ms, inv, d) == has_txn(dl, inv, d)) by {
                if has_txn(ms, inv, d) {
                    let t = choose|t: int|
                        0 <= t < ms.len() && txn_matches(#[trigger] ms[t], inv, d);
                    assert(t < ms.len() - 1);
                    assert(dl[t] == ms[t]);
                    assert(has_txn(dl, inv, d));
                }
                if has_txn(dl, inv, d) {
                    let t = choose|t: int|
                        0 <= t < dl.len() && txn_matches(#[trigger] dl[t], inv, d);
                    assert(ms[t] == dl[t]);
                    assert(has_txn(ms, inv, d));
                }
            }
            if ms.last().investment_id == Some(inv) {
                assert(r == rdl.push(ms.last()));
                assert(has_txn(r, inv, d) == has_txn(rdl, inv, d)) by {
                    if has_txn(r, inv, d) {
                        let t = choose|t: int|
                            0 <= t < r.len() && txn_matches(#[trigger] r[t], inv, d);
                        assert(r[r.len() - 1] == ms.last());
                        assert(t < r.len() - 1);
                        assert(rdl[t] == r[t]);
                        assert(has_txn(rdl, inv, d));
                    }
                    if has_txn(rdl, inv, d) {
                        let t = choose|t: int|
                            0 <= t < rdl.len() && txn_matches(#[trigger] rdl[t], inv, d);
                        assert(r[t] == rdl[t]);
                        assert(has_txn(r, inv, d));
                    }
                }
            } else {
                assert(r == rdl);
            }
        }
    }
}

/// An instrument has a quote key among its own rows exactly when it has one
/// in the full quote series.
proof fn lemma_has_quote_key_restrict(ps: Seq<InvestmentPrice>, inv: i64, d: i64)
    ensures
        has_quote_key(restrict_prices(ps, inv), inv, d) == has_quote_key(ps, inv, d),
    decreases ps.len(),
{
    let r = restrict_prices(ps, inv);
    if ps.len() == 0 {
        assert(r =~= Seq::<InvestmentPrice>::empty());
        assert(!has_quote_key(ps, inv, d));
        assert(!has_quote_key(r, inv, d));
    } else {
        let dl = ps.drop_last();
        let rdl = restrict_prices(dl, inv);
        lemma_has_quote_key_restrict(dl, inv, d);
        if quote_key_matches(ps.last(), inv, d) {
            assert(ps[ps.len() - 1] == ps.last());
            assert(has_quote_key(ps, inv, d));
            assert(r == rdl.push(ps.last()));
            assert(r[r.len() - 1] == ps.last());
            assert(has_quote_key(r, inv, d));
        } else {
            assert(has_quote_key(ps, inv, d) == has_quote_key(dl, inv, d)) by {
                if has_quote_key(ps, inv, d) {
                    let t = choose|t: int|
                        0 <= t < ps.len() && quote_key_matches(#[trigger] ps[t], inv, d);
                    assert(t < ps.len() - 1);
                    assert(dl[t] == ps[t]);
                    assert(has_quote_key(dl, inv, d));
                }
                if has_quote_key(dl, inv, d) {
                    let t = choose|t: int|
                        0 <= t < dl.len() && quote_key_matches(#[trigger] dl[t], inv, d);
                    assert(ps[t] == dl[t]);
                    assert(has_quote_key(ps, inv, d));
                }
            }
            if ps.last().investment_id == Some(inv) {
                assert(r == rdl.push(ps.last()));
                assert(has_quote_key(r, inv, d) == has_quote_key(rdl, inv, d)) by {
                    if has_quote_key(r, inv, d) {
                        let t = choose|t: int|
                            0 <= t < r.len() && quote_key_matches(#[trigger] r[t], inv, d);
                        assert(r[r.len() - 1] == ps.last());
                        assert(t < r.len() - 1);
                        assert(rdl[t] == r[t]);
                        assert(has_quote_key(rdl, inv, d));
                    }
                    if has_quote_key(rdl, inv, d) {
                        let t = choose|t: int|
                            0 <= t < rdl.len() && quote_key_matches(#[trigger] rdl[t], inv, d);
                        assert(r[t] == rdl[t]);
                        assert(has_quote_key(r, inv, d));
                    }
                }
            } else {
                assert(r == rdl);
            }
        }
    }
}

/// Per-instrument isolation: every entry of an instrument is fully
/// explained by the instrument's own movements and quotes — its key, its
/// cumulative quantity and its resolved price come out the same when every
/// other instrument's rows are removed — and every interesting in-window
/// day of those rows with an available price emits an entry. Other
/// instruments' data never contaminates the series.
pub proof fn lemma_instrument_isolation(
    ms: Seq<Movement>,
    ps: Seq<InvestmentPrice>,
    start: Option<i64>,
    end: Option<i64>,
    devs: Seq<Development>,
    inv: i64,
)
    requires
        developments_correct(ms, ps, start, end, devs),
    ensures
        forall|j: int|
            0 <= j < devs.len() && #[trigger] devs[j].investment == inv ==> is_key(
                restrict_movements(ms, inv),
                restrict_prices(ps, inv),
                inv,
                devs[j].date,
            ),
        forall|j: int|
            0 <= j < devs.len() && #[trigger] devs[j].investment == inv ==> devs[j].quantity
                == held_quantity(restrict_movements(ms, inv), inv, devs[j].date),
        forall|j: int|
            0 <= j < devs.len() && #[trigger] devs[j].investment == inv ==> match quote_price_at(
                restrict_prices(ps, inv),
                inv,
                devs[j].date,
            ) {
                Some(q) => devs[j].price == q,
                None => match txn_day_price(restrict_movements(ms, inv), inv, devs[j].date) {
                    Some(t) => devs[j].price == t,
                    None => j > 0 && devs[j - 1].investment == inv && devs[j].price == devs[j
                        - 1].price,
                },
            },
        forall|d: i64|
            #![trigger must_emit(restrict_movements(ms, inv), restrict_prices(ps, inv), start, end, devs, inv, d)]
            must_emit(
                restrict_movements(ms, inv),
                restrict_prices(ps, inv),
                start,
                end,
                devs,
                inv,
                d,
            ) ==> emitted(devs, inv, d),
{
    let msr = restrict_movements(ms, inv);
    let psr = restrict_prices(ps, inv);
    assert forall|j: int| 0 <= j < devs.len() && #[trigger] devs[j].investment == inv implies {
        &&& is_key(msr, psr, inv, devs[j].date)
        &&& devs[j].quantity == held_quantity(msr, inv, devs[j].date)
        &&& match quote_price_at(psr, inv, devs[j].date) {
            Some(q) => devs[j].price == q,
            None => match txn_day_price(msr, inv, devs[j].date) {
                Some(t) => devs[j].price == t,
                None => j > 0 && devs[j - 1].investment == inv && devs[j].price == devs[j
                    - 1].price,
            },
        }
    } by {
        let d = devs[j].date;
        assert(dev_entry_ok(ms, ps, start, end, devs, j));
        lemma_has_txn_restrict(ms, inv, d);
        lemma_has_quote_key_restrict(ps, inv, d);
        lemma_quantity_sum_restrict(ms, ACTION_BUY, inv, d);
        lemma_quantity_sum_restrict(ms, ACTION_SELL, inv, d);
        lemma_txn_restrict(ms, inv, d);
        lemma_quote_price_restrict(ps, inv, d);
    }
    assert forall|d: i64|
        #![trigger must_emit(restrict_movements(ms, inv), restrict_prices(ps, inv), start, end, devs, inv, d)]
        must_emit(msr, psr, start, end, devs, inv, d) implies emitted(devs, inv, d) by {
        lemma_has_txn_restrict(ms, inv, d);
        lemma_has_quote_key_restrict(ps, inv, d);
        lemma_txn_restrict(ms, inv, d);
        lemma_quote_price_restrict(ps, inv, d);
        assert(must_emit(ms, ps, start, end, devs, inv, d));
    }
}

} // verus!
