//! Price repository: exchange rates between commodities over time, and the conversion of
//! amounts through chains of rates.
use crate::commodity::{CommodityMap, CommodityTag, OwnedCommodity, map_at};
use crate::context::ReportContext;
use crate::date::Date;
use crate::decimal::{Decimal, DecimalView, decimal_checked_div, decimal_checked_mul, value_cmp};
use crate::eval::error::EvalError;
use crate::eval::amount::{Amount, amount_of_pairs, amt_get, entries, set_entry};
use crate::eval::single_amount::SingleAmount;
use vstd::prelude::*;

verus! {

/// Source of the price information. A later one (the price DB) has priority.
#[derive(Debug, PartialEq, Eq, Structural, Clone, Copy)]
pub enum PriceSource {
    /// Price written in the Ledger file.
    Ledger,
    /// Price from the price DB file.
    PriceDB,
}

/// Priority of the source: the larger wins.
pub open spec fn source_rank(s: PriceSource) -> int {
    match s {
        PriceSource::Ledger => 0,
        PriceSource::PriceDB => 1,
    }
}

/// Recorded rates of one commodity pair, with the source they come from.
#[derive(Debug)]
pub struct Entry {
    pub source: PriceSource,
    pub rates: Vec<(Date, Decimal)>,
}

/// Price of one commodity in another on a date: `price_x` is worth `price_y`.
#[derive(Debug, PartialEq, Eq, Clone, Copy)]
pub struct PriceEvent {
    pub date: Date,
    pub price_x: SingleAmount,
    pub price_y: SingleAmount,
}

/// Entry of the pair: rates of `of` in units of `with`.
pub open spec fn entry_at(records: Seq<Option<CommodityMap<Entry>>>, with: nat, of: nat) -> Option<
    Entry,
> {
    match map_at(records, with) {
        Some(m) => map_at(m@, of),
        None => None,
    }
}

/// The entry after recording `rate` at `date` from `source`: a source of higher priority
/// replaces the rates, a lower one is ignored in favor of the stored source.
pub open spec fn entry_after(
    prev: Option<Entry>,
    source: PriceSource,
    date: Date,
    rate: Decimal,
) -> (PriceSource, Seq<(Date, Decimal)>) {
    match prev {
        None => (source, seq![(date, rate)]),
        Some(e) => if source_rank(e.source) < source_rank(source) {
            (source, seq![(date, rate)])
        } else {
            (e.source, e.rates@.push((date, rate)))
        },
    }
}

/// Builder of the price repository.
#[derive(Debug)]
pub struct PriceRepositoryBuilder {
    records: CommodityMap<CommodityMap<Entry>>,
}

impl PriceRepositoryBuilder {
    /// Empty builder.
    pub fn new() -> (r: Self)
        ensures
            r.records()@.len() == 0,
    {
        PriceRepositoryBuilder { records: CommodityMap::new() }
    }

    /// Recorded entries, by the commodity of the price and the priced commodity.
    pub closed spec fn records(self) -> CommodityMap<CommodityMap<Entry>> {
        self.records
    }

    /// Records `price_with / price_of` as the price of `price_of` in `price_with`.
    fn insert_impl(
        &mut self,
        source: PriceSource,
        date: Date,
        price_of: SingleAmount,
        price_with: SingleAmount,
    ) -> (r: Result<(), EvalError>)
        ensures
            price_of.value@.1 == 0 ==> r == Err::<(), EvalError>(EvalError::DivideByZero),
            price_of.value@.1 != 0 && decimal_checked_div(price_with.value@, price_of.value@) is None
                ==> r == Err::<(), EvalError>(EvalError::NumberOverflow),
            r is Err ==> final(self).records()@ == old(self).records()@,
            r is Ok ==> (decimal_checked_div(price_with.value@, price_of.value@) matches Some(v) && (
            entry_at(final(self).records()@, price_with.commodity.0 as nat, price_of.commodity.0 as nat)
                matches Some(e) && (e.source, e.rates@) == entry_after(
                entry_at(old(self).records()@, price_with.commodity.0 as nat, price_of.commodity.0 as nat),
                source,
                date,
                e.rates@.last().1,
            ) && e.rates@.last().1@ == v && e.rates@.last().0 == date)),
            r is Ok ==> forall|w: nat, o: nat|
                (w != price_with.commodity.0 || o != price_of.commodity.0) ==> #[trigger] entry_at(
                    final(self).records()@,
                    w,
                    o,
                ) == entry_at(old(self).records()@, w, o),
    {
        if price_of.value.is_zero() {
            return Err(EvalError::DivideByZero);
        }
        let rate = match price_with.value.checked_div(price_of.value) {
            Some(r) => r,
            None => {
                return Err(EvalError::NumberOverflow);
            },
        };
        let ghost prev = self.records@;
        let mut inner = match self.records.take(price_with.commodity) {
            Some(m) => m,
            None => CommodityMap::new(),
        };
        let ghost inner_prev = inner@;
        let entry = match inner.take(price_of.commodity) {
            Some(e) => {
                if (match e.source {
                    PriceSource::Ledger => 0u8,
                    PriceSource::PriceDB => 1u8,
                }) < (match source {
                    PriceSource::Ledger => 0u8,
                    PriceSource::PriceDB => 1u8,
                }) {
                    let mut v: Vec<(Date, Decimal)> = Vec::new();
                    v.push((date, rate));
                    Entry { source, rates: v }
                } else {
                    let mut v = e.rates;
                    v.push((date, rate));
                    Entry { source: e.source, rates: v }
                }
            },
            None => {
                let mut v: Vec<(Date, Decimal)> = Vec::new();
                v.push((date, rate));
                Entry { source, rates: v }
            },
        };
        proof {
            assert(entry.rates@.last() == (date, rate));
            let expected = entry_after(map_at(inner_prev, price_of.commodity.0 as nat), source, date, rate);
            assert(expected.1 =~= entry.rates@);
        }
        inner.set(price_of.commodity, entry);
        self.records.set(price_with.commodity, inner);
        proof {
            assert forall|w: nat, o: nat|
                (w != price_with.commodity.0 || o != price_of.commodity.0) implies #[trigger] entry_at(
                    self.records@,
                    w,
                    o,
                ) == entry_at(prev, w, o) by {
                if w == price_with.commodity.0 {
                    assert(map_at(inner@, o) == map_at(inner_prev, o));
                }
            }
        }
        Ok(())
    }

    /// Records the price in both directions: `y / x` for `x`, and `x / y` for `y`.
    pub fn insert_price(&mut self, source: PriceSource, event: PriceEvent) -> (r: Result<
        (),
        EvalError,
    >)
        ensures
            event.price_x.value@.1 == 0 ==> r == Err::<(), EvalError>(EvalError::DivideByZero),
            r is Ok && event.price_x.commodity != event.price_y.commodity ==> (entry_at(
                final(self).records()@,
                event.price_y.commodity.0 as nat,
                event.price_x.commodity.0 as nat,
            ) matches Some(e) && e.rates@.last().0 == event.date && decimal_checked_div(
                event.price_y.value@,
                event.price_x.value@,
            ) == Some(e.rates@.last().1@)),
            r is Ok ==> (entry_at(
                final(self).records()@,
                event.price_x.commodity.0 as nat,
                event.price_y.commodity.0 as nat,
            ) matches Some(e) && e.rates@.last().0 == event.date && decimal_checked_div(
                event.price_x.value@,
                event.price_y.value@,
            ) == Some(e.rates@.last().1@)),
    {
        match self.insert_impl(source, event.date, event.price_x, event.price_y) {
            Ok(()) => {},
            Err(e) => {
                return Err(e);
            },
        }
        let ghost mid = self.records()@;
        match self.insert_impl(source, event.date, event.price_y, event.price_x) {
            Ok(()) => {},
            Err(e) => {
                return Err(e);
            },
        }
        proof {
            if event.price_x.commodity != event.price_y.commodity {
                assert(entry_at(self.records()@, event.price_y.commodity.0 as nat, event.price_x.commodity.0 as nat)
                    == entry_at(mid, event.price_y.commodity.0 as nat, event.price_x.commodity.0 as nat));
            }
        }
        Ok(())
    }
}

/// `a` is recorded no later than `b`: by date, then by value.
pub open spec fn rate_le(a: (Date, Decimal), b: (Date, Decimal)) -> bool {
    a.0@ < b.0@ || (a.0@ == b.0@ && value_cmp(a.1@, b.1@) <= 0)
}

/// The rates are ordered by date, then by value.
pub open spec fn rates_sorted(s: Seq<(Date, Decimal)>) -> bool {
    forall|i: int, j: int| 0 <= i < j < s.len() ==> rate_le(#[trigger] s[i], #[trigger] s[j])
}

/// The order of rates is transitive.
proof fn lemma_rate_le_trans(a: (Date, Decimal), b: (Date, Decimal), c: (Date, Decimal))
    requires
        rate_le(a, b),
        rate_le(b, c),
    ensures
        rate_le(a, c),
{
    if a.0@ == b.0@ && b.0@ == c.0@ {
        crate::decimal::lemma_value_cmp_trans(a.1@, b.1@, c.1@);
    }
}

/// `a` is strictly before `b`, by date then by value.
fn rate_lt(a: &(Date, Decimal), b: &(Date, Decimal)) -> (r: bool)
    ensures
        r == !rate_le(*b, *a),
{
    a.0.lt(&b.0) || (a.0.same(&b.0) && a.1.value_lt(&b.1))
}

/// Sorts the rates by date, then by value.
fn sort_rates(v: Vec<(Date, Decimal)>) -> (r: Vec<(Date, Decimal)>)
    ensures
        rates_sorted(r@),
        r@.to_multiset() == v@.to_multiset(),
{
    broadcast use vstd::seq_lib::to_multiset_build, vstd::seq_lib::to_multiset_remove;

    let mut rest = v;
    let mut out: Vec<(Date, Decimal)> = Vec::new();
    let ghost orig = rest@;
    assert(out@.to_multiset() =~= vstd::multiset::Multiset::empty()) by {
        broadcast use vstd::seq_lib::to_multiset_len, vstd::multiset::lemma_multiset_empty_len;

        assert(out@.to_multiset().len() == 0);
    }
    assert(out@.to_multiset().add(rest@.to_multiset()) =~= orig.to_multiset()) by {
        broadcast use vstd::multiset::group_multiset_axioms;
    }
    while rest.len() > 0
        invariant
            rates_sorted(out@),
            forall|i: int, k: int| 0 <= i < out@.len() && 0 <= k < rest@.len() ==> rate_le(
                #[trigger] out@[i],
                #[trigger] rest@[k],
            ),
            out@.to_multiset().add(rest@.to_multiset()) == orig.to_multiset(),
        decreases rest.len(),
    {
        let mut m: usize = 0;
        let mut k: usize = 1;
        while k < rest.len()
            invariant
                0 <= m < rest.len(),
                1 <= k <= rest.len(),
                forall|j: int| 0 <= j < k ==> rate_le(rest@[m as int], #[trigger] rest@[j]),
            decreases rest.len() - k,
        {
            if rate_lt(&rest[k], &rest[m]) {
                proof {
                    assert forall|j: int| 0 <= j < k implies rate_le(rest@[k as int], #[trigger] rest@[j]) by {
                        lemma_rate_le_trans(rest@[k as int], rest@[m as int], rest@[j]);
                    }
                }
                m = k;
            }
            k = k + 1;
        }
        let ghost before = rest@;
        let x = rest.remove(m);
        proof {
            assert forall|i: int, j: int| 0 <= i < j < out@.push(x).len() implies rate_le(
                #[trigger] out@.push(x)[i],
                #[trigger] out@.push(x)[j],
            ) by {
                if j == out@.len() {
                    assert(rate_le(out@[i], before[m as int]));
                }
            }
            assert forall|i: int, k: int| 0 <= i < out@.push(x).len() && 0 <= k < rest@.len() implies rate_le(
                #[trigger] out@.push(x)[i],
                #[trigger] rest@[k],
            ) by {
                if k < m {
                    assert(rest@[k] == before[k]);
                } else {
                    assert(rest@[k] == before[k + 1]);
                }
            }
            assert(out@.push(x).to_multiset().add(rest@.to_multiset()) =~= orig.to_multiset()) by {
                broadcast use vstd::multiset::group_multiset_axioms, vstd::seq_lib::to_multiset_contains;

                vstd::seq_lib::to_multiset_remove(before, m as int);
                vstd::seq_lib::to_multiset_build(out@, x);
                assert(before.contains(x));
                assert(before.to_multiset().count(x) > 0);
            }
        }
        out.push(x);
    }
    proof {
        broadcast use vstd::seq_lib::to_multiset_len, vstd::multiset::lemma_multiset_empty_len,
            vstd::multiset::group_multiset_axioms;
        assert(rest@.to_multiset().len() == 0);
        assert(rest@.to_multiset() =~= vstd::multiset::Multiset::empty());
        assert(out@.to_multiset() =~= out@.to_multiset().add(rest@.to_multiset()));
    }
    out
}

/// How far a conversion is: conversions through Ledger prices, all conversions, and the
/// staleness in days of the oldest price used. Compared in this order.
#[derive(Debug, PartialEq, Eq, Structural, Clone, Copy)]
pub struct Distance {
    pub num_ledger_conversions: usize,
    pub num_all_conversions: usize,
    pub staleness: i64,
}

/// View of a distance.
pub type DistanceView = (nat, nat, int);

/// The view of a distance.
pub open spec fn dist_view(d: Distance) -> DistanceView {
    (d.num_ledger_conversions as nat, d.num_all_conversions as nat, d.staleness as int)
}

/// `a < b`, lexicographically.
pub open spec fn dist_lt(a: DistanceView, b: DistanceView) -> bool {
    a.0 < b.0 || (a.0 == b.0 && (a.1 < b.1 || (a.1 == b.1 && a.2 < b.2)))
}

/// The distance one conversion further, with a price from `source` that is `staleness` old.
pub open spec fn dist_extend(d: DistanceView, source: PriceSource, staleness: int) -> DistanceView {
    (
        d.0 + if source is Ledger {
            1nat
        } else {
            0nat
        },
        d.1 + 1,
        if d.2 < staleness {
            staleness
        } else {
            d.2
        },
    )
}

/// `a <= b`, lexicographically.
pub open spec fn dist_le(a: DistanceView, b: DistanceView) -> bool {
    !dist_lt(b, a)
}

/// The distance of the label, if any.
pub open spec fn label_dist(l: Option<(Distance, Decimal)>) -> DistanceView {
    match l {
        Some(x) => dist_view(x.0),
        None => (0nat, 0nat, 0int),
    }
}

/// The distance one conversion further along the edge, if it is one.
pub open spec fn edge_extend(d: DistanceView, e: Option<(PriceSource, int, DecimalView)>) -> DistanceView {
    match e {
        Some(x) => dist_extend(d, x.0, x.1),
        None => d,
    }
}

/// `a < b`, lexicographically.
fn distance_lt(a: &Distance, b: &Distance) -> (r: bool)
    ensures
        r == dist_lt(dist_view(*a), dist_view(*b)),
{
    a.num_ledger_conversions < b.num_ledger_conversions || (a.num_ledger_conversions
        == b.num_ledger_conversions && (a.num_all_conversions < b.num_all_conversions || (
    a.num_all_conversions == b.num_all_conversions && a.staleness < b.staleness)))
}

/// Number of rates recorded at or before the date.
pub open spec fn count_at_or_before(rates: Seq<(Date, Decimal)>, date: Date) -> nat
    decreases rates.len(),
{
    if rates.len() == 0 {
        0
    } else {
        count_at_or_before(rates.drop_last(), date) + if rates.last().0@ <= date@ {
            1nat
        } else {
            0nat
        }
    }
}

/// Price repository ready to answer conversions: the rates of each pair are sorted.
pub struct NaivePriceRepository {
    records: CommodityMap<CommodityMap<Entry>>,
}

impl NaivePriceRepository {
    /// Recorded entries, by the commodity of the price and the priced commodity.
    pub closed spec fn records(self) -> Seq<Option<CommodityMap<Entry>>> {
        self.records@
    }

    /// The conversion from `u` to `j` on the date: the latest rate recorded at or before it
    /// (rates sorted by date), with its source and its staleness in days.
    pub open spec fn edge(self, date: Date, u: nat, j: nat) -> Option<(PriceSource, int, DecimalView)> {
        match entry_at(self.records(), u, j) {
            Some(e) => {
                let b = count_at_or_before(e.rates@, date);
                if b == 0 {
                    None
                } else {
                    let rec = e.rates@[b - 1];
                    Some((e.source, date@ - rec.0@, rec.1@))
                }
            },
            None => None,
        }
    }

    /// `p` is a chain of conversions on the date, starting from `src`.
    pub open spec fn is_path(self, date: Date, src: nat, p: Seq<nat>) -> bool {
        &&& p.len() >= 1
        &&& p[0] == src
        &&& forall|i: int| 0 <= i < p.len() - 1 ==> (#[trigger] self.edge(date, p[i], p[i + 1])) is Some
    }

    /// Distance of the chain of conversions.
    pub open spec fn path_dist(self, date: Date, p: Seq<nat>) -> DistanceView
        decreases p.len(),
    {
        if p.len() <= 1 {
            (0, 0, 0)
        } else {
            let e = self.edge(date, p[p.len() - 2], p[p.len() - 1])->0;
            dist_extend(self.path_dist(date, p.drop_last()), e.0, e.1)
        }
    }

    /// Rate of the chain of conversions: the product of the rates, `None` on overflow.
    pub open spec fn path_rate(self, date: Date, p: Seq<nat>) -> Option<DecimalView>
        decreases p.len(),
    {
        if p.len() <= 1 {
            Some((false, 1nat, 0nat))
        } else {
            let e = self.edge(date, p[p.len() - 2], p[p.len() - 1])->0;
            match self.path_rate(date, p.drop_last()) {
                Some(r) => decimal_checked_mul(r, e.2),
                None => None,
            }
        }
    }

    /// `k` has a label with distance `d` and rate `r` justified by a chain of conversions.
    pub open spec fn justified(self, date: Date, src: nat, k: nat, d: DistanceView, r: DecimalView) -> bool {
        exists|p: Seq<nat>|
            self.is_path(date, src, p) && p.last() == k && self.path_dist(date, p) == d
                && self.path_rate(date, p) == Some(r)
    }

    /// No chain of conversions on the date from `src` to `k` is shorter than `d`.
    pub open spec fn least(self, date: Date, src: nat, k: nat, d: DistanceView) -> bool {
        forall|p: Seq<nat>| #[trigger] self.is_path(date, src, p) && p.last() == k ==> dist_le(d, self.path_dist(date, p))
    }

    /// `p` is a least chain of conversions from `src` whose rate is known, followed by one
    /// conversion more: the products of rates that a computation of the table forms.
    pub open spec fn extends_least(self, date: Date, src: nat, p: Seq<nat>) -> bool {
        &&& self.is_path(date, src, p)
        &&& p.len() >= 2
        &&& self.least(date, src, p.drop_last().last(), self.path_dist(date, p.drop_last()))
        &&& self.path_rate(date, p.drop_last()) is Some
    }

    /// `k` can be reached from `src` by a chain of conversions on the date.
    pub open spec fn reachable(self, date: Date, src: nat, k: nat) -> bool {
        exists|p: Seq<nat>| self.is_path(date, src, p) && p.last() == k
    }
}

/// Number of `false` values.
pub open spec fn count_unvisited(s: Seq<bool>) -> nat
    decreases s.len(),
{
    if s.len() == 0 {
        0
    } else {
        count_unvisited(s.drop_last()) + if s.last() {
            0nat
        } else {
            1nat
        }
    }
}

/// Marking an unvisited node visited decreases the count by one.
proof fn lemma_count_visit(s: Seq<bool>, i: int)
    requires
        0 <= i < s.len(),
        !s[i],
    ensures
        count_unvisited(s.update(i, true)) + 1 == count_unvisited(s),
        count_unvisited(s) <= s.len(),
    decreases s.len(),
{
    lemma_count_bound(s);
    if i < s.len() - 1 {
        assert(s.update(i, true).drop_last() =~= s.drop_last().update(i, true));
        lemma_count_visit(s.drop_last(), i);
    } else {
        assert(s.update(i, true).drop_last() =~= s.drop_last());
    }
}

/// The count is at most the length.
proof fn lemma_count_bound(s: Seq<bool>)
    ensures
        count_unvisited(s) <= s.len(),
    decreases s.len(),
{
    if s.len() > 0 {
        lemma_count_bound(s.drop_last());
    }
}

/// Number of rates recorded at or before the date.
fn count_rates(rates: &Vec<(Date, Decimal)>, date: &Date) -> (r: usize)
    ensures
        r == count_at_or_before(rates@, *date),
        r <= rates@.len(),
{
    let mut c: usize = 0;
    let mut i: usize = 0;
    while i < rates.len()
        invariant
            i <= rates.len(),
            c <= i,
            c == count_at_or_before(rates@.subrange(0, i as int), *date),
        decreases rates.len() - i,
    {
        assert(rates@.subrange(0, i + 1).drop_last() =~= rates@.subrange(0, i as int));
        if rates[i].0.le(date) {
            c = c + 1;
        }
        i = i + 1;
    }
    assert(rates@.subrange(0, i as int) =~= rates@);
    c
}

/// One conversion further: see [`dist_extend`].
fn extend(d: &Distance, source: PriceSource, staleness: i64) -> (r: Distance)
    requires
        d.num_ledger_conversions <= d.num_all_conversions,
        d.num_all_conversions < usize::MAX,
    ensures
        dist_view(r) == dist_extend(dist_view(*d), source, staleness as int),
        r.num_ledger_conversions <= r.num_all_conversions,
        r.num_all_conversions == d.num_all_conversions + 1,
{
    let l = match source {
        PriceSource::Ledger => d.num_ledger_conversions + 1,
        PriceSource::PriceDB => d.num_ledger_conversions,
    };
    Distance {
        num_ledger_conversions: l,
        num_all_conversions: d.num_all_conversions + 1,
        staleness: if d.staleness < staleness {
            staleness
        } else {
            d.staleness
        },
    }
}

/// Labels of the conversion table, by commodity index.
pub type PriceTable = Vec<Option<(Distance, Decimal)>>;

impl NaivePriceRepository {
    /// Bound of the commodity indices that appear in the records, and of `src`.
    fn node_bound(&self, src: CommodityTag) -> (n: usize)
        requires
            src.0 < usize::MAX,
        ensures
            src.0 < n,
            forall|u: nat, j: nat| #[trigger] entry_at(self.records(), u, j) is Some ==> u < n && j < n,
    {
        let mut n: usize = src.0 + 1;
        if n < self.records.len() {
            n = self.records.len();
        }
        let mut u: usize = 0;
        let len = self.records.len();
        while u < len
            invariant
                len == self.records@.len(),
                u <= self.records@.len(),
                src.0 < n,
                self.records@.len() <= n,
                forall|w: nat, j: nat| w < u && #[trigger] entry_at(self.records(), w, j) is Some ==> j < n,
            decreases len - u,
        {
            match self.records.get(CommodityTag(u)) {
                Some(m) => {
                    if n < m.len() {
                        n = m.len();
                    }
                },
                None => {},
            }
            u = u + 1;
        }
        n
    }

    /// Labels every commodity reachable from `price_with` on the date with the distance and
    /// the rate (units of `price_with` for one unit of it) of a chain of conversions of the
    /// least distance (fewest conversions from the ledger, then fewest conversions, then least
    /// staleness), picking the unvisited commodity of the smallest distance first and relaxing
    /// the conversions from it. [`EvalError::NumberOverflow`] when a product of rates along a
    /// least chain and one conversion more overflows.
    pub fn compute_price_table(&self, price_with: CommodityTag, date: Date) -> (r: Result<
        PriceTable,
        EvalError,
    >)
        requires
            price_with.0 < usize::MAX,
        ensures
            r matches Err(e) ==> e == EvalError::NumberOverflow,
            r matches Ok(t) ==> forall|k: int|
                0 <= k < t@.len() ==> ((#[trigger] t@[k]) matches Some(l) ==> self.justified(
                    date,
                    price_with.0 as nat,
                    k as nat,
                    dist_view(l.0),
                    l.1@,
                )),
            r matches Ok(t) ==> forall|k: nat|
                #[trigger] self.reachable(date, price_with.0 as nat, k) ==> k < t@.len() && t@[k as int]
                    is Some,
            r is Err ==> exists|p: Seq<nat>|
                self.extends_least(date, price_with.0 as nat, p) && #[trigger] self.path_rate(date, p) is None,
            (forall|p: Seq<nat>|
                self.extends_least(date, price_with.0 as nat, p) ==> #[trigger] self.path_rate(date, p) is Some) ==> r is Ok,
            r matches Ok(t) ==> forall|p: Seq<nat>|
                #[trigger] self.is_path(date, price_with.0 as nat, p) && p.last() < t@.len() && t@[p.last() as int] is Some
                    ==> dist_le(label_dist(t@[p.last() as int]), self.path_dist(date, p)),
    {
        let src = price_with.0;
        let n = self.node_bound(price_with);
        let ghost srcn = src as nat;
        let mut labels: PriceTable = Vec::new();
        let mut visited: Vec<bool> = Vec::new();
        while labels.len() < n
            invariant
                labels@.len() == visited@.len(),
                labels@.len() <= n,
                forall|k: int| 0 <= k < labels@.len() ==> (#[trigger] labels@[k]) is None,
                forall|k: int| 0 <= k < visited@.len() ==> !(#[trigger] visited@[k]),
            decreases n - labels.len(),
        {
            labels.push(None);
            visited.push(false);
        }
        let zero = Distance { num_ledger_conversions: 0, num_all_conversions: 0, staleness: 0 };
        let one = Decimal::one();
        labels.set(src, Some((zero, one)));
        proof {
            let p = seq![srcn];
            assert(self.is_path(date, srcn, p));
            assert(p.last() == srcn);
            assert(self.path_dist(date, p) == dist_view(zero));
            assert(self.path_rate(date, p) == Some(one@));
            assert(self.justified(date, srcn, srcn, dist_view(zero), one@));
            lemma_count_bound(visited@);
        }
        loop
            invariant
                labels@.len() == n,
                visited@.len() == n,
                src < n,
                forall|u: nat, j: nat| #[trigger] entry_at(self.records(), u, j) is Some ==> u < n && j < n,
                labels@[src as int] is Some,
                src == price_with.0,
                srcn == src as nat,
                count_unvisited(visited@) <= n,
                forall|k: int|
                    0 <= k < n ==> ((#[trigger] labels@[k]) matches Some(l) ==> self.justified(
                        date,
                        srcn,
                        k as nat,
                        dist_view(l.0),
                        l.1@,
                    ) && l.0.num_ledger_conversions <= l.0.num_all_conversions
                        && l.0.num_all_conversions <= n - count_unvisited(visited@)),
                forall|k: int| 0 <= k < n && #[trigger] visited@[k] ==> labels@[k] is Some,
                forall|k: nat, j: nat|
                    k < n && #[trigger] visited@[k as int] && (#[trigger] self.edge(date, k, j)) is Some
                        ==> labels@[j as int] is Some,
                label_dist(labels@[src as int]) == (0nat, 0nat, 0int),
                forall|k: int| 0 <= k < n ==> (#[trigger] label_dist(labels@[k])).2 >= 0,
                forall|p2: Seq<nat>|
                    #[trigger] self.is_path(date, srcn, p2) && p2.last() < n && visited@[p2.last() as int] ==> labels@[p2.last() as int] is Some
                        && dist_le(label_dist(labels@[p2.last() as int]), self.path_dist(date, p2)),
                forall|v: nat, j: nat|
                    v < n && visited@[v as int] && (#[trigger] self.edge(date, v, j)) is Some ==> j < n && labels@[j as int] is Some
                        && dist_le(label_dist(labels@[j as int]), edge_extend(label_dist(labels@[v as int]), self.edge(date, v, j))),
                forall|v: int, w: int|
                    0 <= v < n && 0 <= w < n && #[trigger] visited@[v] && !visited@[w] && (#[trigger] labels@[w]) is Some
                        ==> dist_le(label_dist(labels@[v]), label_dist(labels@[w])),
            ensures
                forall|k: int| 0 <= k < n && (#[trigger] labels@[k]) is Some ==> visited@[k],
            decreases count_unvisited(visited@),
        {
            let mut best: Option<usize> = None;
            let mut k: usize = 0;
            while k < n
                invariant
                    k <= n,
                    labels@.len() == n,
                    visited@.len() == n,
                    best matches Some(b) ==> b < n && !visited@[b as int] && labels@[b as int] is Some,
                    best is None ==> forall|q: int| 0 <= q < k ==> visited@[q] || (#[trigger] labels@[q]) is None,
                    best matches Some(b) ==> forall|q: int|
                        0 <= q < k && !visited@[q] && (#[trigger] labels@[q]) is Some ==> dist_le(
                            label_dist(labels@[b as int]),
                            label_dist(labels@[q]),
                        ),
                decreases n - k,
            {
                if !visited[k] {
                    match &labels[k] {
                        Some(l) => {
                            match best {
                                None => {
                                    best = Some(k);
                                },
                                Some(b) => {
                                    match &labels[b] {
                                        Some(lb) => {
                                            if distance_lt(&l.0, &lb.0) {
                                                best = Some(k);
                                            }
                                        },
                                        None => {},
                                    }
                                },
                            }
                        },
                        None => {},
                    }
                }
                k = k + 1;
            }
            let u = match best {
                None => {
                    break;
                },
                Some(u) => u,
            };
            let (du, ru) = match &labels[u] {
                Some(l) => (l.0, l.1),
                None => {
                    return Err(EvalError::NumberOverflow);
                },
            };
            let ghost pu = choose|p: Seq<nat>|
                self.is_path(date, srcn, p) && p.last() == u as nat && self.path_dist(date, p) == dist_view(du)
                    && self.path_rate(date, p) == Some(ru@);
            let ghost cu_before = count_unvisited(visited@);
            proof {
                lemma_count_visit(visited@, u as int);
                assert forall|p2: Seq<nat>|
                    #[trigger] self.is_path(date, srcn, p2) && p2.last() == u as nat implies dist_le(
                    label_dist(labels@[u as int]),
                    self.path_dist(date, p2),
                ) by {
                    self.lemma_unvisited_path(date, srcn, p2, labels@, visited@, n, u as nat);
                }
            }
            let ghost visited_before = visited@;
            visited.set(u, true);
            proof {
                lemma_count_bound(visited@);
                assert forall|p2: Seq<nat>|
                    #[trigger] self.is_path(date, srcn, p2) && p2.last() < n && visited@[p2.last() as int] implies labels@[p2.last() as int] is Some
                        && dist_le(label_dist(labels@[p2.last() as int]), self.path_dist(date, p2)) by {
                    if p2.last() != u as nat {
                        assert(visited_before[p2.last() as int]);
                    }
                }
                assert forall|v: int, w: int|
                    0 <= v < n && 0 <= w < n && #[trigger] visited@[v] && !visited@[w] && (#[trigger] labels@[w]) is Some
                        implies dist_le(label_dist(labels@[v]), label_dist(labels@[w])) by {
                    if v != u as int {
                        assert(visited_before[v]);
                        assert(!visited_before[w]);
                    }
                }
            }
            match self.records.get(CommodityTag(u)) {
                None => {},
                Some(m) => {
                    let mlen = m.len();
                    let mut j: usize = 0;
                    while j < mlen
                        invariant
                            j <= mlen,
                            mlen == m@.len(),
                            map_at(self.records(), u as nat) == Some(*m),
                            labels@.len() == n,
                            visited@.len() == n,
                            src < n,
                            u < n,
                            visited@[u as int],
                            forall|w: nat, i: nat| #[trigger] entry_at(self.records(), w, i) is Some ==> w < n && i < n,
                            labels@[src as int] is Some,
                            src == price_with.0,
                            srcn == src as nat,
                            count_unvisited(visited@) <= n,
                            du.num_ledger_conversions <= du.num_all_conversions,
                            du.num_all_conversions + 1 <= n - count_unvisited(visited@),
                            self.is_path(date, srcn, pu),
                            pu.last() == u as nat,
                            self.path_dist(date, pu) == dist_view(du),
                            self.path_rate(date, pu) == Some(ru@),
                            forall|k: int|
                                0 <= k < n ==> ((#[trigger] labels@[k]) matches Some(l) ==> self.justified(
                                    date,
                                    srcn,
                                    k as nat,
                                    dist_view(l.0),
                                    l.1@,
                                ) && l.0.num_ledger_conversions <= l.0.num_all_conversions
                                    && l.0.num_all_conversions <= n - count_unvisited(visited@)),
                            forall|k: int| 0 <= k < n && #[trigger] visited@[k] ==> labels@[k] is Some,
                            forall|k: nat, i: nat|
                                k < n && k != u && #[trigger] visited@[k as int] && (#[trigger] self.edge(
                                    date,
                                    k,
                                    i,
                                )) is Some ==> labels@[i as int] is Some,
                            forall|i: nat| i < j && (#[trigger] self.edge(date, u as nat, i)) is Some
                                ==> labels@[i as int] is Some,
                            dist_view(du) == label_dist(labels@[u as int]),
                            label_dist(labels@[src as int]) == (0nat, 0nat, 0int),
                            forall|k: int| 0 <= k < n ==> (#[trigger] label_dist(labels@[k])).2 >= 0,
                            forall|p2: Seq<nat>|
                                #[trigger] self.is_path(date, srcn, p2) && p2.last() < n && visited@[p2.last() as int] ==> labels@[p2.last() as int] is Some
                                    && dist_le(label_dist(labels@[p2.last() as int]), self.path_dist(date, p2)),
                            forall|v: nat, i: nat|
                                v < n && v != u && visited@[v as int] && (#[trigger] self.edge(date, v, i)) is Some ==> i < n && labels@[i as int] is Some
                                    && dist_le(label_dist(labels@[i as int]), edge_extend(label_dist(labels@[v as int]), self.edge(date, v, i))),
                            forall|i: nat| i < j && (#[trigger] self.edge(date, u as nat, i)) is Some
                                ==> i < n && labels@[i as int] is Some && dist_le(label_dist(labels@[i as int]), edge_extend(label_dist(labels@[u as int]), self.edge(date, u as nat, i))),
                            forall|v: int, w: int|
                                0 <= v < n && 0 <= w < n && #[trigger] visited@[v] && !visited@[w] && (#[trigger] labels@[w]) is Some
                                    ==> dist_le(label_dist(labels@[v]), label_dist(labels@[w])),
                            forall|v: int| 0 <= v < n && #[trigger] visited@[v] ==> dist_le(label_dist(labels@[v]), label_dist(labels@[u as int])),
                        decreases mlen - j,
                    {
                        match m.get(CommodityTag(j)) {
                            None => {},
                            Some(e) => {
                                let b = count_rates(&e.rates, &date);
                                if b > 0 {
                                    let rec = e.rates[b - 1];
                                    let st = date.days_since(&rec.0);
                                    let nd = extend(&du, e.source, st);
                                    let rate = match ru.checked_mul(rec.1) {
                                        Some(x) => x,
                                        None => {
                                            proof {
                                                let pj = pu.push(j as nat);
                                                assert(pj.drop_last() =~= pu);
                                                assert(self.edge(date, u as nat, j as nat) is Some);
                                                assert forall|i: int| 0 <= i < pj.len() - 1 implies (#[trigger] self.edge(
                                                    date,
                                                    pj[i],
                                                    pj[i + 1],
                                                )) is Some by {
                                                    if i < pj.len() - 2 {
                                                        assert(pj[i] == pu[i] && pj[i + 1] == pu[i + 1]);
                                                    }
                                                }
                                                assert(self.is_path(date, srcn, pj));
                                                assert(pj[pj.len() - 2] == u as nat);
                                                assert(pj[pj.len() - 1] == j as nat);
                                                assert(entry_at(self.records(), u as nat, j as nat) == Some(*e));
                                                assert(self.path_rate(date, pj) is None);
                                                assert forall|p2: Seq<nat>| #[trigger] self.is_path(date, srcn, p2) && p2.last()
                                                    == u as nat implies dist_le(self.path_dist(date, pu), self.path_dist(date, p2)) by {}
                                                assert(self.extends_least(date, srcn, pj));
                                            }
                                            return Err(EvalError::NumberOverflow);
                                        },
                                    };
                                    proof {
                                        assert(entry_at(self.records(), u as nat, j as nat) == Some(*e));
                                        assert(self.edge(date, u as nat, j as nat) == Some((e.source, st as int, rec.1@)));
                                        assert(edge_extend(label_dist(labels@[u as int]), self.edge(date, u as nat, j as nat)) == dist_view(nd));
                                    }
                                    let ghost labels_before = labels@;
                                    let better = match &labels[j] {
                                        None => true,
                                        Some(l) => distance_lt(&nd, &l.0),
                                    };
                                    proof {
                                        if visited@[j as int] {
                                            assert(dist_le(label_dist(labels@[j as int]), label_dist(labels@[u as int])));
                                            assert(!better);
                                        }
                                        if j as int == src as int {
                                            assert(!better);
                                        }
                                    }
                                    if better {
                                        proof {
                                            let pj = pu.push(j as nat);
                                            assert(pj.drop_last() =~= pu);
                                            assert(self.edge(date, u as nat, j as nat) is Some);
                                            assert forall|i: int| 0 <= i < pj.len() - 1 implies (#[trigger] self.edge(
                                                date,
                                                pj[i],
                                                pj[i + 1],
                                            )) is Some by {
                                                if i < pj.len() - 2 {
                                                    assert(pj[i] == pu[i] && pj[i + 1] == pu[i + 1]);
                                                }
                                            }
                                            assert(self.is_path(date, srcn, pj));
                                            assert(pj[pj.len() - 2] == u as nat);
                                            assert(pj[pj.len() - 1] == j as nat);
                                            assert(entry_at(self.records(), u as nat, j as nat) == Some(*e));
                                            assert(self.path_dist(date, pj) == dist_view(nd));
                                            assert(self.path_rate(date, pj) == Some(rate@));
                                            assert(pj.last() == j as nat);
                                            assert(self.justified(date, srcn, j as nat, dist_view(nd), rate@));
                                        }
                                        labels.set(j, Some((nd, rate)));
                                        proof {
                                            assert forall|p2: Seq<nat>|
                                                #[trigger] self.is_path(date, srcn, p2) && p2.last() < n && visited@[p2.last() as int] implies labels@[p2.last() as int] is Some
                                                    && dist_le(label_dist(labels@[p2.last() as int]), self.path_dist(date, p2)) by {
                                                assert(p2.last() != j as nat);
                                                assert(labels@[p2.last() as int] == labels_before[p2.last() as int]);
                                            }
                                            assert forall|v: nat, i: nat|
                                                v < n && v != u && visited@[v as int] && (#[trigger] self.edge(date, v, i)) is Some implies i < n && labels@[i as int] is Some
                                                    && dist_le(label_dist(labels@[i as int]), edge_extend(label_dist(labels@[v as int]), self.edge(date, v, i))) by {
                                                assert(v != j as nat);
                                                assert(labels@[v as int] == labels_before[v as int]);
                                                if i != j as nat {
                                                    assert(labels@[i as int] == labels_before[i as int]);
                                                }
                                            }
                                            assert forall|i: nat| i < j && (#[trigger] self.edge(date, u as nat, i)) is Some implies i < n && labels@[i as int] is Some
                                                && dist_le(label_dist(labels@[i as int]), edge_extend(label_dist(labels@[u as int]), self.edge(date, u as nat, i))) by {
                                                assert(labels@[i as int] == labels_before[i as int]);
                                                assert(labels@[u as int] == labels_before[u as int]);
                                            }
                                            assert forall|v: int, w: int|
                                                0 <= v < n && 0 <= w < n && #[trigger] visited@[v] && !visited@[w] && (#[trigger] labels@[w]) is Some
                                                    implies dist_le(label_dist(labels@[v]), label_dist(labels@[w])) by {
                                                assert(v != j as int);
                                                assert(labels@[v] == labels_before[v]);
                                                if w != j as int {
                                                    assert(labels@[w] == labels_before[w]);
                                                } else {
                                                    assert(dist_le(label_dist(labels_before[v]), label_dist(labels_before[u as int])));
                                                }
                                            }
                                            assert forall|v: int| 0 <= v < n && #[trigger] visited@[v] implies dist_le(label_dist(labels@[v]), label_dist(labels@[u as int])) by {
                                                assert(v != j as int);
                                                assert(labels@[v] == labels_before[v]);
                                            }
                                            assert forall|k: int| 0 <= k < n implies (#[trigger] label_dist(labels@[k])).2 >= 0 by {
                                                if k != j as int {
                                                    assert(labels@[k] == labels_before[k]);
                                                }
                                            }
                                        }
                                    }
                                }
                            },
                        }
                        j = j + 1;
                    }
                    proof {
                        assert forall|i: nat| (#[trigger] self.edge(date, u as nat, i)) is Some implies labels@[i as int] is Some by {
                            assert(entry_at(self.records(), u as nat, i) is Some);
                        }
                        assert forall|v: nat, i: nat|
                            v < n && visited@[v as int] && (#[trigger] self.edge(date, v, i)) is Some implies i < n && labels@[i as int] is Some
                                && dist_le(label_dist(labels@[i as int]), edge_extend(label_dist(labels@[v as int]), self.edge(date, v, i))) by {
                            assert(entry_at(self.records(), v, i) is Some);
                        }
                    }
                },
            }
            proof {
                assert forall|i: nat| (#[trigger] self.edge(date, u as nat, i)) is Some implies labels@[i as int] is Some by {
                    assert(entry_at(self.records(), u as nat, i) is Some);
                }
            }
        }
        proof {
            assert forall|k: nat| #[trigger] self.reachable(date, srcn, k) implies k < labels@.len() && labels@[k as int] is Some by {
                let p = choose|p: Seq<nat>| self.is_path(date, srcn, p) && p.last() == k;
                self.lemma_path_labeled(date, srcn, p, labels@, visited@, n);
            }
        }
        Ok(labels)
    }

    /// A chain of conversions from `src` that ends at a node not visited is no shorter than
    /// the label of `u`, the least of the labels of the nodes not visited, when the visited
    /// labels are the least over all chains and bound the labels across their conversions.
    proof fn lemma_unvisited_path(
        self,
        date: Date,
        src: nat,
        p: Seq<nat>,
        labels: Seq<Option<(Distance, Decimal)>>,
        visited: Seq<bool>,
        n: usize,
        u: nat,
    )
        requires
            self.is_path(date, src, p),
            labels.len() == n,
            visited.len() == n,
            src < n,
            u < n,
            labels[src as int] is Some,
            label_dist(labels[src as int]) == (0nat, 0nat, 0int),
            p.last() < n,
            !visited[p.last() as int],
            labels[u as int] is Some,
            forall|u2: nat, j: nat| #[trigger] entry_at(self.records(), u2, j) is Some ==> u2 < n && j < n,
            forall|q: int| 0 <= q < n && !visited[q] && (#[trigger] labels[q]) is Some ==> dist_le(label_dist(labels[u as int]), label_dist(labels[q])),
            forall|p2: Seq<nat>|
                #[trigger] self.is_path(date, src, p2) && p2.last() < n && visited[p2.last() as int] ==> labels[p2.last() as int] is Some
                    && dist_le(label_dist(labels[p2.last() as int]), self.path_dist(date, p2)),
            forall|v: nat, j: nat|
                v < n && visited[v as int] && (#[trigger] self.edge(date, v, j)) is Some ==> j < n && labels[j as int] is Some
                    && dist_le(label_dist(labels[j as int]), edge_extend(label_dist(labels[v as int]), self.edge(date, v, j))),
        ensures
            dist_le(label_dist(labels[u as int]), self.path_dist(date, p)),
        decreases p.len(),
    {
        if p.len() <= 1 {
            assert(p.last() == src);
        } else {
            let q = p.drop_last();
            assert forall|i: int| 0 <= i < q.len() - 1 implies (#[trigger] self.edge(date, q[i], q[i + 1])) is Some by {
                assert(self.edge(date, p[i], p[i + 1]) is Some);
            }
            assert(self.is_path(date, src, q));
            let w = q.last();
            let x = p.last();
            let i = p.len() - 2;
            assert(self.edge(date, p[i], p[i + 1]) is Some);
            assert(p[i] == w && p[i + 1] == x);
            let e = self.edge(date, w, x)->0;
            assert(entry_at(self.records(), w, x) is Some);
            if visited[w as int] {
                assert(dist_le(label_dist(labels[w as int]), self.path_dist(date, q)));
                assert(dist_le(label_dist(labels[x as int]), edge_extend(label_dist(labels[w as int]), self.edge(date, w, x))));
            } else {
                self.lemma_unvisited_path(date, src, q, labels, visited, n, u);
            }
        }
    }

    /// Every node of a chain of conversions from `src` is labeled, when the labeled nodes are
    /// all visited and the conversions from visited nodes reach labeled nodes.
    proof fn lemma_path_labeled(
        self,
        date: Date,
        src: nat,
        p: Seq<nat>,
        labels: Seq<Option<(Distance, Decimal)>>,
        visited: Seq<bool>,
        n: usize,
    )
        requires
            self.is_path(date, src, p),
            labels.len() == n,
            visited.len() == n,
            src < n,
            labels[src as int] is Some,
            forall|u: nat, j: nat| #[trigger] entry_at(self.records(), u, j) is Some ==> u < n && j < n,
            forall|k: int| 0 <= k < n && (#[trigger] labels[k]) is Some ==> visited[k],
            forall|k: nat, j: nat|
                k < n && #[trigger] visited[k as int] && (#[trigger] self.edge(date, k, j)) is Some
                    ==> labels[j as int] is Some,
        ensures
            p.last() < n,
            labels[p.last() as int] is Some,
        decreases p.len(),
    {
        if p.len() > 1 {
            let q = p.drop_last();
            assert forall|i: int| 0 <= i < q.len() - 1 implies (#[trigger] self.edge(date, q[i], q[i + 1])) is Some by {
                assert(self.edge(date, p[i], p[i + 1]) is Some);
            }
            self.lemma_path_labeled(date, src, q, labels, visited, n);
            let u = q.last();
            let i = p.len() - 2;
            assert(self.edge(date, p[i], p[i + 1]) is Some);
            assert(p[i] == u && p[i + 1] == p.last());
            assert(entry_at(self.records(), u, p.last()) is Some);
            assert(visited[u as int]);
            assert(self.edge(date, u, p.last()) is Some);
        }
    }
}

/// The entry keeps its source and its rates, in sorted order.
pub open spec fn sorted_entry(before: Option<Entry>, after: Option<Entry>) -> bool {
    match (before, after) {
        (None, None) => true,
        (Some(b), Some(a)) => a.source == b.source && rates_sorted(a.rates@) && a.rates@.to_multiset()
            == b.rates@.to_multiset(),
        _ => false,
    }
}

/// The inner map with the rates of every entry sorted.
fn sort_inner(mut inner: CommodityMap<Entry>) -> (r: CommodityMap<Entry>)
    ensures
        forall|o: nat| sorted_entry(map_at(inner@, o), #[trigger] map_at(r@, o)),
{
    let ghost orig = inner@;
    let len = inner.len();
    let mut j: usize = 0;
    while j < len
        invariant
            j <= len,
            len == orig.len(),
            forall|o: nat| o < j ==> sorted_entry(map_at(orig, o), #[trigger] map_at(inner@, o)),
            forall|o: nat| o >= j ==> #[trigger] map_at(inner@, o) == map_at(orig, o),
        decreases len - j,
    {
        match inner.take(CommodityTag(j)) {
            Some(e) => {
                let sorted = sort_rates(e.rates);
                inner.set(CommodityTag(j), Entry { source: e.source, rates: sorted });
            },
            None => {},
        }
        j = j + 1;
    }
    proof {
        assert forall|o: nat| sorted_entry(map_at(orig, o), #[trigger] map_at(inner@, o)) by {
            if o >= j {
                assert(map_at(orig, o) is None);
            }
        }
    }
    inner
}

impl PriceRepositoryBuilder {
    /// The repository, with the rates of every pair sorted by date then value.
    pub fn build(self) -> (r: PriceRepository)
        ensures
            forall|w: nat, o: nat| sorted_entry(
                entry_at(self.records()@, w, o),
                #[trigger] entry_at(r.inner().records(), w, o),
            ),
            r.cache_len() == 0,
    {
        let mut records = self.records;
        let ghost orig = records@;
        let len = records.len();
        let mut u: usize = 0;
        while u < len
            invariant
                u <= len,
                len == orig.len(),
                forall|w: nat, o: nat| w < u ==> sorted_entry(entry_at(orig, w, o), #[trigger] entry_at(records@, w, o)),
                forall|w: nat| w >= u ==> #[trigger] map_at(records@, w) == map_at(orig, w),
            decreases len - u,
        {
            let ghost before = records@;
            match records.take(CommodityTag(u)) {
                Some(m) => {
                    let ghost mv = m@;
                    let sorted = sort_inner(m);
                    records.set(CommodityTag(u), sorted);
                    proof {
                        assert forall|w: nat, o: nat| w < u + 1 implies sorted_entry(entry_at(orig, w, o), #[trigger] entry_at(records@, w, o)) by {
                            if w == u {
                                assert(map_at(before, w) == map_at(orig, w));
                                assert(map_at(orig, w) == Some(m));
                                assert(sorted_entry(map_at(mv, o), map_at(sorted@, o)));
                            } else {
                                assert(map_at(records@, w) == map_at(before, w));
                                assert(entry_at(records@, w, o) == entry_at(before, w, o));
                            }
                        }
                    }
                },
                None => {
                    proof {
                        assert forall|w: nat, o: nat| w < u + 1 implies sorted_entry(entry_at(orig, w, o), #[trigger] entry_at(records@, w, o)) by {
                            if w == u {
                                assert(map_at(before, w) == map_at(orig, w));
                                assert(map_at(orig, w) is None);
                            } else {
                                assert(map_at(records@, w) == map_at(before, w));
                                assert(entry_at(records@, w, o) == entry_at(before, w, o));
                            }
                        }
                    }
                },
            }
            u = u + 1;
        }
        proof {
            assert forall|w: nat, o: nat| sorted_entry(entry_at(orig, w, o), #[trigger] entry_at(records@, w, o)) by {
                if w >= u {
                    assert(map_at(orig, w) is None);
                }
            }
        }
        PriceRepository { inner: NaivePriceRepository { records }, cache: Vec::new() }
    }
}

/// Error of a conversion.
#[derive(Debug, PartialEq, Eq)]
pub enum ConversionError {
    /// No chain of rates converts the first commodity into the second on the date.
    RateNotFound(OwnedCommodity, OwnedCommodity, Date),
    /// The product of the rates overflowed.
    NumberOverflow,
}

/// The table labels the commodities reachable from `with` on the date, each by a chain of
/// conversions.
pub open spec fn table_ok(inner: NaivePriceRepository, with: nat, date: Date, t: Seq<Option<(Distance, Decimal)>>) -> bool {
    &&& forall|k: int|
        0 <= k < t.len() ==> ((#[trigger] t[k]) matches Some(l) ==> inner.justified(
            date,
            with,
            k as nat,
            dist_view(l.0),
            l.1@,
        ))
    &&& forall|k: nat| #[trigger] inner.reachable(date, with, k) ==> k < t.len() && t[k as int] is Some
    &&& forall|k: int|
        0 <= k < t.len() ==> ((#[trigger] t[k]) matches Some(l) ==> inner.least(date, with, k as nat, dist_view(l.0)))
}

/// Price repository with a cache of the computed tables.
pub struct PriceRepository {
    inner: NaivePriceRepository,
    cache: Vec<(CommodityTag, Date, PriceTable)>,
}

impl PriceRepository {
    #[verifier::type_invariant]
    spec fn inv(self) -> bool {
        forall|i: int|
            0 <= i < self.cache@.len() ==> table_ok(
                self.inner,
                (#[trigger] self.cache@[i]).0.0 as nat,
                self.cache@[i].1,
                self.cache@[i].2@,
            )
    }

    /// The repository of the rates.
    pub closed spec fn inner(self) -> NaivePriceRepository {
        self.inner
    }

    /// Number of cached tables.
    pub closed spec fn cache_len(self) -> nat {
        self.cache@.len()
    }

    /// Index of the cached table of `(with, date)`, computing it when missing.
    fn table_index(&mut self, with: CommodityTag, date: Date) -> (r: Result<usize, EvalError>)
        requires
            with.0 < usize::MAX,
        ensures
            final(self).inner() == old(self).inner(),
            r matches Ok(i) ==> i < final(self).cache@.len() && final(self).cache@[i as int].0 == with
                && final(self).cache@[i as int].1 == date,
            (exists|k: int|
                0 <= k < old(self).cache@.len() && (#[trigger] old(self).cache@[k]).0 == with
                    && old(self).cache@[k].1 == date) ==> (r matches Ok(i) && final(self).cache@ == old(
                self,
            ).cache@ && forall|k: int|
                0 <= k < i ==> !((#[trigger] old(self).cache@[k]).0 == with && old(self).cache@[k].1
                    == date)),
            !(exists|k: int|
                0 <= k < old(self).cache@.len() && (#[trigger] old(self).cache@[k]).0 == with
                    && old(self).cache@[k].1 == date) ==> (r matches Ok(i) ==> i == old(self).cache@.len()
                && final(self).cache@.len() == i + 1 && final(self).cache@.subrange(0, i as int)
                == old(self).cache@),
            r is Err ==> final(self).cache@ == old(self).cache@,
            r is Err ==> exists|p: Seq<nat>|
                old(self).inner().extends_least(date, with.0 as nat, p) && #[trigger] old(self).inner().path_rate(date, p)
                    is None,
    {
        proof {
            use_type_invariant(&*self);
        }
        let mut i: usize = 0;
        while i < self.cache.len()
            invariant
                i <= self.cache@.len(),
                self.cache@ == old(self).cache@,
                self.inner == old(self).inner,
                forall|k: int| 0 <= k < i ==> !((#[trigger] self.cache@[k]).0 == with && self.cache@[k].1 == date),
            decreases self.cache@.len() - i,
        {
            if self.cache[i].0 == with && self.cache[i].1 == date {
                return Ok(i);
            }
            i = i + 1;
        }
        let t = match self.inner.compute_price_table(with, date) {
            Ok(t) => t,
            Err(e) => {
                proof {
                    let p = choose|p: Seq<nat>|
                        self.inner.extends_least(date, with.0 as nat, p) && #[trigger] self.inner.path_rate(date, p) is None;
                    assert(old(self).inner().extends_least(date, with.0 as nat, p));
                    assert(old(self).inner().path_rate(date, p) is None);
                }
                return Err(e);
            },
        };
        proof {
            assert forall|k: int| 0 <= k < t@.len() implies ((#[trigger] t@[k]) matches Some(l)
                ==> self.inner.least(date, with.0 as nat, k as nat, dist_view(l.0))) by {
                if let Some(l) = t@[k] {
                    assert forall|p: Seq<nat>| #[trigger] self.inner.is_path(date, with.0 as nat, p) && p.last()
                        == k as nat implies dist_le(dist_view(l.0), self.inner.path_dist(date, p)) by {
                        assert(label_dist(t@[p.last() as int]) == dist_view(l.0));
                    }
                }
            }
            assert(table_ok(self.inner, with.0 as nat, date, t@));
        }
        let mut cache = Vec::new();
        std::mem::swap(&mut cache, &mut self.cache);
        let ghost prev = cache@;
        cache.push((with, date, t));
        proof {
            assert forall|k: int| 0 <= k < cache@.len() implies table_ok(
                self.inner,
                (#[trigger] cache@[k]).0.0 as nat,
                cache@[k].1,
                cache@[k].2@,
            ) by {
                if k < prev.len() {
                    assert(cache@[k] == prev[k]);
                }
            }
        }
        self.cache = cache;
        assert(self.cache@.subrange(0, prev.len() as int) =~= prev);
        Ok(self.cache.len() - 1)
    }

    /// Converts the amount into `commodity_with` on the date, by the rate of a chain of
    /// conversions of the least distance from the table of `commodity_with`; an amount of that
    /// commodity is kept.
    pub fn convert_single(
        &mut self,
        ctx: &ReportContext,
        value: SingleAmount,
        commodity_with: CommodityTag,
        date: Date,
    ) -> (r: Result<SingleAmount, ConversionError>)
        requires
            commodity_with.0 < usize::MAX,
        ensures
            final(self).inner() == old(self).inner(),
            value.commodity == commodity_with ==> r == Ok::<SingleAmount, ConversionError>(value),
            value.commodity != commodity_with ==> (r matches Ok(x) ==> x.commodity == commodity_with
                && exists|d: DistanceView, rate: DecimalView|
                old(self).inner().justified(
                    date,
                    commodity_with.0 as nat,
                    value.commodity.0 as nat,
                    d,
                    rate,
                ) && old(self).inner().least(date, commodity_with.0 as nat, value.commodity.0 as nat, d)
                    && decimal_checked_mul(value.value@, rate) == Some(x.value@)),
            r matches Err(e) ==> (e is NumberOverflow || e is RateNotFound),
            value.commodity != commodity_with ==> (r matches Err(ConversionError::NumberOverflow) ==> (
            (exists|p: Seq<nat>|
                old(self).inner().extends_least(date, commodity_with.0 as nat, p) && #[trigger] old(
                    self,
                ).inner().path_rate(date, p) is None) || (exists|d: DistanceView, rate: DecimalView|
                #[trigger] old(self).inner().justified(
                    date,
                    commodity_with.0 as nat,
                    value.commodity.0 as nat,
                    d,
                    rate,
                ) && old(self).inner().least(date, commodity_with.0 as nat, value.commodity.0 as nat, d)
                    && decimal_checked_mul(value.value@, rate) is None))),
            value.commodity != commodity_with && (forall|p: Seq<nat>|
                old(self).inner().extends_least(date, commodity_with.0 as nat, p) ==> #[trigger] old(
                    self,
                ).inner().path_rate(date, p) is Some) && (forall|d: DistanceView, rate: DecimalView|
                #[trigger] old(self).inner().justified(
                    date,
                    commodity_with.0 as nat,
                    value.commodity.0 as nat,
                    d,
                    rate,
                ) && old(self).inner().least(date, commodity_with.0 as nat, value.commodity.0 as nat, d)
                    ==> decimal_checked_mul(value.value@, rate) is Some) ==> (old(self).inner().reachable(
                date,
                commodity_with.0 as nat,
                value.commodity.0 as nat,
            ) <==> r is Ok),
            value.commodity != commodity_with ==> (r matches Err(ConversionError::RateNotFound(
                a,
                b,
                d,
            )) ==> !old(self).inner().reachable(
                date,
                commodity_with.0 as nat,
                value.commodity.0 as nat,
            ) && a.text() == ctx.commodities@.lossy_name(value.commodity.0 as nat) && b.text()
                == ctx.commodities@.lossy_name(commodity_with.0 as nat) && d == date),
    {
        if value.commodity == commodity_with {
            return Ok(value);
        }
        let i = match self.table_index(commodity_with, date) {
            Ok(i) => i,
            Err(_) => {
                return Err(ConversionError::NumberOverflow);
            },
        };
        proof {
            use_type_invariant(&*self);
            assert(table_ok(self.inner, commodity_with.0 as nat, date, self.cache@[i as int].2@));
        }
        let table = &self.cache[i].2;
        let k = value.commodity.0;
        let label = if k < table.len() {
            match &table[k] {
                Some(l) => Some((l.0, l.1)),
                None => None,
            }
        } else {
            None
        };
        match label {
            Some((d, rate)) => match value.value.checked_mul(rate) {
                Some(v) => {
                    proof {
                        assert(self.inner.justified(date, commodity_with.0 as nat, k as nat, dist_view(d), rate@));
                        assert(self.inner.least(date, commodity_with.0 as nat, k as nat, dist_view(d)));
                    }
                    Ok(SingleAmount { commodity: commodity_with, value: v })
                },
                None => Err(ConversionError::NumberOverflow),
            },
            None => Err(
                ConversionError::RateNotFound(
                    value.commodity.to_owned_lossy(&ctx.commodities),
                    commodity_with.to_owned_lossy(&ctx.commodities),
                    date,
                ),
            ),
        }
    }
}

/// `c` is a conversion of the entry `e` into the commodity `with` on the date: the value itself
/// when `e` is already of that commodity, else its value times the rate of a least chain of
/// conversions from `with` to its commodity (see [`NaivePriceRepository::justified`] and
/// [`NaivePriceRepository::least`]).
pub open spec fn converts_to(
    inner: NaivePriceRepository,
    date: Date,
    with: nat,
    e: (nat, DecimalView),
    c: DecimalView,
) -> bool {
    if e.0 == with {
        c == e.1
    } else {
        exists|d: DistanceView, rate: DecimalView|
            #[trigger] inner.justified(date, with, e.0, d, rate) && inner.least(date, with, e.0, d)
                && decimal_checked_mul(e.1, rate) == Some(c)
    }
}

/// The converted values `cs`, each of the commodity `with`.
pub open spec fn with_pairs(with: nat, cs: Seq<DecimalView>) -> Seq<(nat, DecimalView)> {
    cs.map_values(|c: DecimalView| (with, c))
}

/// The converted values `cs` convert the first entries of the amount, in order.
pub open spec fn converts_prefix(
    inner: NaivePriceRepository,
    date: Date,
    with: nat,
    es: Seq<(nat, DecimalView)>,
    cs: Seq<DecimalView>,
) -> bool {
    &&& cs.len() <= es.len()
    &&& forall|k: int| 0 <= k < cs.len() ==> converts_to(inner, date, with, es[k], #[trigger] cs[k])
}

/// Converts every commodity of the amount into `commodity_with` on the date, and sums them.
pub fn convert_amount(
    ctx: &ReportContext,
    price_repos: &mut PriceRepository,
    amount: &Amount,
    commodity_with: CommodityTag,
    date: Date,
) -> (r: Result<Amount, ConversionError>)
    requires
        commodity_with.0 < usize::MAX,
    ensures
        r matches Ok(x) ==> forall|c: nat| c != commodity_with.0 ==> #[trigger] amt_get(x@, c) is None,
        r matches Ok(x) ==> (entries(amount@).len() == 0 ==> x@.len() == 0),
        r matches Ok(x) ==> (entries(amount@).len() > 0 ==> amt_get(x@, commodity_with.0 as nat) is Some),
        final(price_repos).inner() == old(price_repos).inner(),
        entries(amount@).len() == 0 ==> (r matches Ok(x) && x@.len() == 0),
        entries(amount@).len() == 1 && entries(amount@)[0].0 == commodity_with.0 ==> (r matches Ok(x)
            && x@ == set_entry(Seq::empty(), commodity_with.0 as nat, entries(amount@)[0].1)),
        r matches Err(ConversionError::RateNotFound(a, b, d)) ==> exists|k: int|
            0 <= k < entries(amount@).len() && (#[trigger] entries(amount@)[k]).0 != commodity_with.0
                && !old(price_repos).inner().reachable(date, commodity_with.0 as nat, entries(amount@)[k].0),
        r matches Ok(x) ==> exists|cs: Seq<DecimalView>|
            cs.len() == entries(amount@).len() && converts_prefix(
                old(price_repos).inner(),
                date,
                commodity_with.0 as nat,
                entries(amount@),
                cs,
            ) && #[trigger] amount_of_pairs(with_pairs(commodity_with.0 as nat, cs)) == Some(x@),
        (forall|p: Seq<nat>|
            old(price_repos).inner().extends_least(date, commodity_with.0 as nat, p) ==> #[trigger] old(
                price_repos,
            ).inner().path_rate(date, p) is Some) && (forall|k: int|
            0 <= k < entries(amount@).len() && (#[trigger] entries(amount@)[k]).0 != commodity_with.0 ==> old(
                price_repos,
            ).inner().reachable(date, commodity_with.0 as nat, entries(amount@)[k].0) && forall|
                d: DistanceView,
                rate: DecimalView,
            |
                #[trigger] old(price_repos).inner().justified(
                    date,
                    commodity_with.0 as nat,
                    entries(amount@)[k].0,
                    d,
                    rate,
                ) && old(price_repos).inner().least(date, commodity_with.0 as nat, entries(amount@)[k].0, d)
                    ==> decimal_checked_mul(entries(amount@)[k].1, rate) is Some) && (forall|cs: Seq<DecimalView>|
            converts_prefix(old(price_repos).inner(), date, commodity_with.0 as nat, entries(amount@), cs)
                ==> #[trigger] amount_of_pairs(with_pairs(commodity_with.0 as nat, cs)) is Some) ==> r is Ok,
{
    let ghost mut cs: Seq<DecimalView> = Seq::empty();
    let ghost es = entries(amount@);
    let ghost inner = price_repos.inner();
    let items = amount.iter();
    let mut result = Amount::zero();
    let mut i: usize = 0;
    while i < items.len()
        invariant
            i <= items.len(),
            commodity_with.0 < usize::MAX,
            forall|c: nat| c != commodity_with.0 ==> #[trigger] amt_get(result@, c) is None,
            i == 0 ==> result@.len() == 0,
            i > 0 ==> amt_get(result@, commodity_with.0 as nat) is Some,
            price_repos.inner() == old(price_repos).inner(),
            items.len() == entries(amount@).len(),
            forall|k: int|
                0 <= k < items.len() ==> (#[trigger] items[k]).commodity.0 == entries(amount@)[k].0
                    && items[k].value@ == entries(amount@)[k].1,
            entries(amount@).len() == 1 && entries(amount@)[0].0 == commodity_with.0 && i == 1 ==> result@
                == set_entry(Seq::empty(), commodity_with.0 as nat, entries(amount@)[0].1),
            es == entries(amount@),
            inner == old(price_repos).inner(),
            cs.len() == i,
            converts_prefix(inner, date, commodity_with.0 as nat, es, cs),
            amount_of_pairs(with_pairs(commodity_with.0 as nat, cs)) == Some(result@),
        decreases items.len() - i,
    {
        let converted = match price_repos.convert_single(ctx, items[i], commodity_with, date) {
            Ok(x) => x,
            Err(e) => {
                proof {
                    if e is RateNotFound {
                        assert(entries(amount@)[i as int].0 != commodity_with.0);
                    }
                }
                return Err(e);
            },
        };
        let ghost cs2 = cs.push(converted.value@);
        proof {
            assert(with_pairs(commodity_with.0 as nat, cs2).drop_last() =~= with_pairs(commodity_with.0 as nat, cs));
            assert(with_pairs(commodity_with.0 as nat, cs2).last() == (commodity_with.0 as nat, converted.value@));
            assert(converts_to(inner, date, commodity_with.0 as nat, es[i as int], converted.value@));
            assert forall|k: int| 0 <= k < cs2.len() implies converts_to(inner, date, commodity_with.0 as nat, es[k], #[trigger] cs2[k]) by {
                if k < cs.len() {
                    assert(cs2[k] == cs[k]);
                }
            }
            assert(converts_prefix(inner, date, commodity_with.0 as nat, es, cs2));
        }
        let ghost before = result@;
        match result.add_single(converted) {
            Ok(()) => {},
            Err(_) => {
                proof {
                    assert(converted.commodity.0 == commodity_with.0);
                    assert(amount_of_pairs(with_pairs(commodity_with.0 as nat, cs2)) is None);
                }
                return Err(ConversionError::NumberOverflow);
            },
        }
        proof {
            assert forall|c: nat| c != commodity_with.0 implies #[trigger] amt_get(result@, c) is None by {}
            cs = cs2;
        }
        i = i + 1;
    }
    proof {
        assert(cs.len() == es.len());
    }
    Ok(result)
}

} // verus!
