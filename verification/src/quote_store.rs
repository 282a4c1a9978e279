//! In-memory quote store: the verified model of the quote read/write
//! collaborator. Rows are kept unique per (date, instrument, source) key;
//! `upsert` inserts a new row or updates the price of the existing one in
//! place.

use vstd::prelude::*;

use crate::models::{source_view, InvestmentPrice};

verus! {

/// Two rows address the same stored slot: same date, same instrument, and
/// the same source text.
pub open spec fn same_key(a: InvestmentPrice, b: InvestmentPrice) -> bool {
    &&& a.date == b.date
    &&& a.investment_id == b.investment_id
    &&& source_view(a.source) == source_view(b.source)
}

/// A row that carries all three key fields, as the upsert key requires.
pub open spec fn keyed(p: InvestmentPrice) -> bool {
    &&& p.date is Some
    &&& p.investment_id is Some
    &&& p.source is Some
}

/// The stored row after an upsert hits it: the key fields stay, the price
/// is replaced.
pub open spec fn replace_price(row: InvestmentPrice, p: InvestmentPrice) -> InvestmentPrice {
    InvestmentPrice { price: p.price, ..row }
}

/// What upserting `p` leaves behind: the first row with `p`'s key gets
/// `p`'s price; if no row has the key, `p` is appended.
pub open spec fn upsert_spec(rows: Seq<InvestmentPrice>, p: InvestmentPrice) -> Seq<
    InvestmentPrice,
>
    decreases rows.len(),
{
    if rows.len() == 0 {
        seq![p]
    } else if same_key(rows.first(), p) {
        seq![replace_price(rows.first(), p)] + rows.drop_first()
    } else {
        seq![rows.first()] + upsert_spec(rows.drop_first(), p)
    }
}

/// How many rows carry `p`'s key.
pub open spec fn key_count(rows: Seq<InvestmentPrice>, p: InvestmentPrice) -> nat
    decreases rows.len(),
{
    if rows.len() == 0 {
        0
    } else {
        (if same_key(rows.first(), p) {
            1nat
        } else {
            0nat
        }) + key_count(rows.drop_first(), p)
    }
}

/// The first row carrying `p`'s key, if any.
pub open spec fn find_key(rows: Seq<InvestmentPrice>, p: InvestmentPrice) -> Option<
    InvestmentPrice,
>
    decreases rows.len(),
{
    if rows.len() == 0 {
        None
    } else if same_key(rows.first(), p) {
        Some(rows.first())
    } else {
        find_key(rows.drop_first(), p)
    }
}

/// The store's key-uniqueness invariant: no key is stored twice.
pub open spec fn at_most_one_per_key(rows: Seq<InvestmentPrice>) -> bool {
    forall|q: InvestmentPrice| #[trigger] key_count(rows, q) <= 1
}

/// An empty store holds no key.
proof fn lemma_empty_key(p: InvestmentPrice)
    ensures
        key_count(Seq::<InvestmentPrice>::empty(), p) == 0,
        find_key(Seq::<InvestmentPrice>::empty(), p) is None,
{
}

/// Upserting a fresh key appends the row.
proof fn lemma_upsert_no_match(rows: Seq<InvestmentPrice>, p: InvestmentPrice)
    requires
        key_count(rows, p) == 0,
    ensures
        upsert_spec(rows, p) =~= rows.push(p),
    decreases rows.len(),
{
    if rows.len() == 0 {
    } else {
        lemma_upsert_no_match(rows.drop_first(), p);
    }
}

/// Upserting onto the first matching row updates it in place.
proof fn lemma_upsert_found(rows: Seq<InvestmentPrice>, p: InvestmentPrice, j: int)
    requires
        0 <= j < rows.len(),
        same_key(rows[j], p),
        forall|t: int| 0 <= t < j ==> !same_key(#[trigger] rows[t], p),
    ensures
        upsert_spec(rows, p) =~= rows.update(j, replace_price(rows[j], p)),
    decreases rows.len(),
{
    if j == 0 {
    } else {
        assert(!same_key(rows[0], p));
        assert(forall|t: int|
            0 <= t < j - 1 ==> !same_key(#[trigger] rows.drop_first()[t], p));
        lemma_upsert_found(rows.drop_first(), p, j - 1);
    }
}

/// After an upsert the key is stored exactly once if it was stored at most
/// once before.
proof fn lemma_upsert_count(rows: Seq<InvestmentPrice>, p: InvestmentPrice)
    ensures
        key_count(upsert_spec(rows, p), p) == if key_count(rows, p) == 0 {
            1nat
        } else {
            key_count(rows, p)
        },
    decreases rows.len(),
{
    if rows.len() == 0 {
        assert(upsert_spec(rows, p) == seq![p]);
        assert(upsert_spec(rows, p).drop_first() =~= Seq::<InvestmentPrice>::empty());
        lemma_empty_key(p);
    } else if same_key(rows.first(), p) {
        let u = upsert_spec(rows, p);
        assert(u.first() == replace_price(rows.first(), p));
        assert(u.drop_first() =~= rows.drop_first());
        assert(same_key(u.first(), p));
    } else {
        let u = upsert_spec(rows, p);
        assert(u.first() == rows.first());
        assert(u.drop_first() =~= upsert_spec(rows.drop_first(), p));
        lemma_upsert_count(rows.drop_first(), p);
    }
}

/// After an upsert the first row with the key carries the upserted price.
proof fn lemma_upsert_find(rows: Seq<InvestmentPrice>, p: InvestmentPrice)
    ensures
        find_key(upsert_spec(rows, p), p) matches Some(r) && r.price == p.price,
    decreases rows.len(),
{
    if rows.len() == 0 {
        assert(upsert_spec(rows, p) == seq![p]);
        assert(same_key(seq![p].first(), p));
    } else if same_key(rows.first(), p) {
        let u = upsert_spec(rows, p);
        assert(u.first() == replace_price(rows.first(), p));
        assert(same_key(u.first(), p));
    } else {
        let u = upsert_spec(rows, p);
        assert(u.first() == rows.first());
        assert(u.drop_first() =~= upsert_spec(rows.drop_first(), p));
        lemma_upsert_find(rows.drop_first(), p);
    }
}

/// Rows with a different key are untouched by an upsert.
proof fn lemma_upsert_other_key(
    rows: Seq<InvestmentPrice>,
    p: InvestmentPrice,
    q: InvestmentPrice,
)
    requires
        !same_key(q, p),
    ensures
        key_count(upsert_spec(rows, p), q) == key_count(rows, q),
        find_key(upsert_spec(rows, p), q) == find_key(rows, q),
    decreases rows.len(),
{
    if rows.len() == 0 {
        assert(upsert_spec(rows, p) == seq![p]);
        assert(!same_key(seq![p].first(), q));
        assert(seq![p].drop_first() =~= Seq::<InvestmentPrice>::empty());
        lemma_empty_key(q);
    } else if same_key(rows.first(), p) {
        let u = upsert_spec(rows, p);
        assert(u.first() == replace_price(rows.first(), p));
        assert(u.drop_first() =~= rows.drop_first());
        assert(same_key(u.first(), q) == same_key(rows.first(), q));
    } else {
        let u = upsert_spec(rows, p);
        assert(u.first() == rows.first());
        assert(u.drop_first() =~= upsert_spec(rows.drop_first(), p));
        lemma_upsert_other_key(rows.drop_first(), p, q);
    }
}

/// Counting and lookup agree between two rows with the same key.
proof fn lemma_key_congruence(
    rows: Seq<InvestmentPrice>,
    p1: InvestmentPrice,
    p2: InvestmentPrice,
)
    requires
        same_key(p1, p2),
    ensures
        key_count(rows, p1) == key_count(rows, p2),
        find_key(rows, p1) == find_key(rows, p2),
    decreases rows.len(),
{
    if rows.len() > 0 {
        lemma_key_congruence(rows.drop_first(), p1, p2);
    }
}

/// An upsert grows the store by at most one row, and never shrinks it.
pub proof fn lemma_upsert_len(rows: Seq<InvestmentPrice>, p: InvestmentPrice)
    ensures
        rows.len() <= upsert_spec(rows, p).len() <= rows.len() + 1,
    decreases rows.len(),
{
    if rows.len() == 0 {
    } else if same_key(rows.first(), p) {
    } else {
        lemma_upsert_len(rows.drop_first(), p);
    }
}

/// Upserting keeps the key-uniqueness invariant.
pub proof fn lemma_upsert_keeps_unique(rows: Seq<InvestmentPrice>, p: InvestmentPrice)
    requires
        at_most_one_per_key(rows),
    ensures
        at_most_one_per_key(upsert_spec(rows, p)),
{
    assert forall|q: InvestmentPrice| #[trigger]
        key_count(upsert_spec(rows, p), q) <= 1 by {
        if same_key(q, p) {
            lemma_key_congruence(upsert_spec(rows, p), q, p);
            lemma_key_congruence(rows, q, p);
            lemma_upsert_count(rows, p);
        } else {
            lemma_upsert_other_key(rows, p, q);
        }
    }
}

/// Upserting the same key twice with different prices leaves exactly one
/// stored row for that key, and it carries the latest price.
pub proof fn lemma_upsert_latest_wins(
    rows: Seq<InvestmentPrice>,
    p1: InvestmentPrice,
    p2: InvestmentPrice,
)
    requires
        at_most_one_per_key(rows),
        same_key(p1, p2),
    ensures
        key_count(upsert_spec(upsert_spec(rows, p1), p2), p2) == 1,
        find_key(upsert_spec(upsert_spec(rows, p1), p2), p2) matches Some(r) && r.price
            == p2.price,
{
    let r1 = upsert_spec(rows, p1);
    lemma_upsert_count(rows, p1);
    lemma_key_congruence(r1, p1, p2);
    lemma_upsert_count(r1, p2);
    assert(key_count(rows, p1) <= 1);
    lemma_upsert_find(r1, p2);
}

/// Upserting under a different source for the same (date, instrument) adds
/// a row instead of touching the existing one: after storing under both
/// sources each key is present once, each with its own price.
pub proof fn lemma_upsert_distinct_source(
    rows: Seq<InvestmentPrice>,
    p1: InvestmentPrice,
    p2: InvestmentPrice,
)
    requires
        p1.date == p2.date,
        p1.investment_id == p2.investment_id,
        source_view(p1.source) != source_view(p2.source),
        key_count(rows, p1) == 0,
        key_count(rows, p2) == 0,
    ensures
        upsert_spec(upsert_spec(rows, p1), p2).len() == rows.len() + 2,
        find_key(upsert_spec(upsert_spec(rows, p1), p2), p1) matches Some(r) && r.price
            == p1.price,
        find_key(upsert_spec(upsert_spec(rows, p1), p2), p2) matches Some(r) && r.price
            == p2.price,
{
    let r1 = upsert_spec(rows, p1);
    let r2 = upsert_spec(r1, p2);
    lemma_upsert_no_match(rows, p1);
    lemma_upsert_other_key(rows, p1, p2);
    lemma_upsert_no_match(r1, p2);
    lemma_upsert_find(rows, p1);
    lemma_upsert_other_key(r1, p2, p1);
    lemma_upsert_find(r1, p2);
}

/// Whether a row passes the read filters: instrument, start day, end day.
/// A missing filter passes everything; a filter on a missing field passes
/// nothing.
pub open spec fn row_selected(
    p: InvestmentPrice,
    investment_id: Option<i64>,
    start: Option<i64>,
    end: Option<i64>,
) -> bool {
    &&& (investment_id matches Some(iv) ==> p.investment_id == Some(iv))
    &&& (start matches Some(s) ==> p.date matches Some(dd) && dd >= s)
    &&& (end matches Some(e) ==> p.date matches Some(dd) && dd <= e)
}

/// The rows passing the read filters, in stored order.
pub open spec fn filter_rows(
    rows: Seq<InvestmentPrice>,
    investment_id: Option<i64>,
    start: Option<i64>,
    end: Option<i64>,
) -> Seq<InvestmentPrice>
    decreases rows.len(),
{
    if rows.len() == 0 {
        Seq::<InvestmentPrice>::empty()
    } else if row_selected(rows.last(), investment_id, start, end) {
        filter_rows(rows.drop_last(), investment_id, start, end).push(rows.last())
    } else {
        filter_rows(rows.drop_last(), investment_id, start, end)
    }
}

/// Two rows address the same stored slot.
fn same_key_exec(a: &InvestmentPrice, b: &InvestmentPrice) -> (r: bool)
    ensures
        r == same_key(*a, *b),
{
    let dates_eq = match (a.date, b.date) {
        (Some(x), Some(y)) => x == y,
        (None, None) => true,
        _ => false,
    };
    let invs_eq = match (a.investment_id, b.investment_id) {
        (Some(x), Some(y)) => x == y,
        (None, None) => true,
        _ => false,
    };
    let sources_eq = match (&a.source, &b.source) {
        (Some(x), Some(y)) => *x == *y,
        (None, None) => true,
        _ => false,
    };
    dates_eq && invs_eq && sources_eq
}

/// The in-memory quote store. Its view is the stored row sequence; every
/// store built through `new` and `upsert` keeps at most one row per
/// (date, instrument, source) key.
pub struct QuoteStore {
    rows: Vec<InvestmentPrice>,
}

impl View for QuoteStore {
    type V = Seq<InvestmentPrice>;

    closed spec fn view(&self) -> Seq<InvestmentPrice> {
        self.rows@
    }
}

impl QuoteStore {
    /// An empty store.
    pub fn new() -> (s: Self)
        ensures
            s@ == Seq::<InvestmentPrice>::empty(),
            at_most_one_per_key(s@),
    {
        let s = QuoteStore { rows: Vec::new() };
        proof {
            assert forall|q: InvestmentPrice| #[trigger] key_count(s@, q) <= 1 by {
                lemma_empty_key(q);
            }
        }
        s
    }

    /// How many rows the store holds.
    pub fn len(&self) -> (n: usize)
        ensures
            n == self@.len(),
    {
        self.rows.len()
    }

    /// Insert the row, or update the price of the row already stored under
    /// its (date, instrument, source) key.
    pub fn upsert(&mut self, price: &InvestmentPrice)
        requires
            keyed(*price),
            old(self)@.len() < usize::MAX,
        ensures
            final(self)@ == upsert_spec(old(self)@, *price),
            old(self)@.len() <= final(self)@.len() <= old(self)@.len() + 1,
            at_most_one_per_key(old(self)@) ==> at_most_one_per_key(final(self)@),
    {
        proof {
            lemma_upsert_len(old(self)@, *price);
        }
        let n = self.rows.len();
        let mut j: usize = 0;
        while j < n
            invariant
                n == self.rows@.len(),
                j <= n,
                self == old(self),
                forall|t: int| 0 <= t < j ==> !same_key(#[trigger] self.rows@[t], *price),
            decreases n - j,
        {
            if same_key_exec(&self.rows[j], price) {
                let row = self.rows.remove(j);
                let updated = InvestmentPrice {
                    price: price.price,
                    date: row.date,
                    investment_id: row.investment_id,
                    source: row.source,
                };
                proof {
                    assert(updated == replace_price(old(self)@[j as int], *price));
                }
                self.rows.insert(j, updated);
                proof {
                    assert(self.rows@ =~= old(self)@.update(
                        j as int,
                        replace_price(old(self)@[j as int], *price),
                    ));
                    lemma_upsert_found(old(self)@, *price, j as int);
                    if at_most_one_per_key(old(self)@) {
                        lemma_upsert_keeps_unique(old(self)@, *price);
                    }
                }
                return ;
            }
            j = j + 1;
        }
        self.rows.push(price.clone());
        proof {
            assert(key_count(old(self)@, *price) == 0) by {
                lemma_no_match_count(old(self)@, *price);
            }
            lemma_upsert_no_match(old(self)@, *price);
            assert(self.rows@ =~= old(self)@.push(*price));
            if at_most_one_per_key(old(self)@) {
                lemma_upsert_keeps_unique(old(self)@, *price);
            }
        }
    }

    /// The stored rows passing the given filters, in stored order. Rows
    /// outside the requested window or instrument are left out; a filter on
    /// a row that lacks the field excludes the row.
    pub fn find_all(
        &self,
        investment_id: Option<i64>,
        start_date: Option<i64>,
        end_date: Option<i64>,
    ) -> (r: Vec<InvestmentPrice>)
        ensures
            r@ == filter_rows(self@, investment_id, start_date, end_date),
    {
        let n = self.rows.len();
        let mut r: Vec<InvestmentPrice> = Vec::new();
        let mut i: usize = 0;
        while i < n
            invariant
                n == self.rows@.len(),
                i <= n,
                r@ == filter_rows(self.rows@.take(i as int), investment_id, start_date, end_date),
            decreases n - i,
        {
            proof {
                assert(self.rows@.take(i as int + 1).drop_last() =~= self.rows@.take(i as int));
                assert(self.rows@.take(i as int + 1).last() == self.rows@[i as int]);
            }
            let p = &self.rows[i];
            let inv_ok = match (investment_id, p.investment_id) {
                (Some(iv), Some(x)) => x == iv,
                (Some(_), None) => false,
                (None, _) => true,
            };
            let start_ok = match (start_date, p.date) {
                (Some(s), Some(dd)) => dd >= s,
                (Some(_), None) => false,
                (None, _) => true,
            };
            let end_ok = match (end_date, p.date) {
                (Some(e), Some(dd)) => dd <= e,
                (Some(_), None) => false,
                (None, _) => true,
            };
            if inv_ok && start_ok && end_ok {
                r.push(p.clone());
            }
            i = i + 1;
        }
        proof {
            assert(self.rows@.take(n as int) =~= self.rows@);
        }
        r
    }
}

/// A store where no row matches the key holds the key zero times.
proof fn lemma_no_match_count(rows: Seq<InvestmentPrice>, p: InvestmentPrice)
    requires
        forall|t: int| 0 <= t < rows.len() ==> !same_key(#[trigger] rows[t], p),
    ensures
        key_count(rows, p) == 0,
    decreases rows.len(),
{
    if rows.len() > 0 {
        assert(forall|t: int|
            0 <= t < rows.drop_first().len() ==> !same_key(
                #[trigger] rows.drop_first()[t],
                p,
            ));
        lemma_no_match_count(rows.drop_first(), p);
    }
}

} // verus!
