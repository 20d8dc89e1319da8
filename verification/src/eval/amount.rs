//! Amounts over several commodities.
//!
//! An [`Amount`] maps commodities to values; a commodity present with the
//! value zero (`0 USD`) differs from an absent one (`0`). The map is stored
//! densely by commodity index, and iterates in that order.
use crate::commodity::{
    CommodityStore, CommodityTag, lemma_none_trimmed_ext, lemma_trim_none, map_at, trim_none,
};
use crate::context::ReportContext;
use crate::decimal::{
    Decimal, DecimalView, decimal_checked_add, decimal_checked_div, decimal_checked_mul,
    decimal_checked_sub, decimal_display, value_eq, view_neg,
};
use crate::eval::error::EvalError;
use crate::eval::single_amount::{PostingAmount, SingleAmount, rounded_view};
use crate::text::{push_char, push_str};
use vstd::prelude::*;

verus! {

/// View of an amount: the optional value of each commodity index.
pub type AmountView = Seq<Option<DecimalView>>;

/// Value of the commodity `c` in the amount.
pub open spec fn amt_get(a: AmountView, c: nat) -> Option<DecimalView> {
    if c < a.len() {
        a[c as int]
    } else {
        None
    }
}

/// No trailing absent commodity, so that equal maps have equal views.
pub open spec fn trimmed(a: AmountView) -> bool {
    a.len() == 0 || a.last() is Some
}

/// View of the zero decimal.
pub open spec fn zero_view() -> DecimalView {
    (false, 0nat, 0nat)
}

/// Sum of two entries: `Some(entry)`, or `None` on overflow.
/// An absent entry on the left is added as zero.
pub open spec fn entry_add(x: Option<DecimalView>, y: Option<DecimalView>) -> Option<Option<DecimalView>> {
    match (x, y) {
        (Some(a), Some(b)) => match decimal_checked_add(a, b) {
            Some(v) => Some(Some(v)),
            None => None,
        },
        (None, Some(b)) => Some(Some(b)),
        (x, None) => Some(x),
    }
}

/// Difference of two entries; an absent entry on the left is taken as zero.
pub open spec fn entry_sub(x: Option<DecimalView>, y: Option<DecimalView>) -> Option<Option<DecimalView>> {
    match (x, y) {
        (Some(a), Some(b)) => match decimal_checked_sub(a, b) {
            Some(v) => Some(Some(v)),
            None => None,
        },
        (None, Some(b)) => match decimal_checked_sub(zero_view(), b) {
            Some(v) => Some(Some(v)),
            None => None,
        },
        (x, None) => Some(x),
    }
}

/// Larger of two lengths.
pub open spec fn max_len(a: nat, b: nat) -> nat {
    if a < b {
        b
    } else {
        a
    }
}

/// `a + b`, or `None` on overflow.
pub open spec fn amount_add(a: AmountView, b: AmountView) -> Option<AmountView> {
    let n = max_len(a.len(), b.len());
    if forall|c: nat| c < n ==> (#[trigger] entry_add(amt_get(a, c), amt_get(b, c))) is Some {
        Some(Seq::new(n, |c: int| entry_add(amt_get(a, c as nat), amt_get(b, c as nat))->0))
    } else {
        None
    }
}

/// `a - b`, or `None` on overflow.
pub open spec fn amount_sub(a: AmountView, b: AmountView) -> Option<AmountView> {
    let n = max_len(a.len(), b.len());
    if forall|c: nat| c < n ==> (#[trigger] entry_sub(amt_get(a, c), amt_get(b, c))) is Some {
        Some(Seq::new(n, |c: int| entry_sub(amt_get(a, c as nat), amt_get(b, c as nat))->0))
    } else {
        None
    }
}

/// Negation of every value.
pub open spec fn amount_neg(a: AmountView) -> AmountView {
    a.map_values(|x: Option<DecimalView>| match x {
        Some(v) => Some(view_neg(v)),
        None => None,
    })
}

/// Every value multiplied by `r`, `None` on overflow.
pub open spec fn amount_mul(a: AmountView, r: DecimalView) -> Option<AmountView> {
    if forall|c: int| 0 <= c < a.len() ==> ((#[trigger] a[c]) matches Some(v) ==> decimal_checked_mul(v, r) is Some) {
        Some(a.map_values(|x: Option<DecimalView>| match x {
            Some(v) => Some(decimal_checked_mul(v, r)->0),
            None => None,
        }))
    } else {
        None
    }
}

/// Every value divided by `r`, `None` on overflow (`r` non-zero).
pub open spec fn amount_div(a: AmountView, r: DecimalView) -> Option<AmountView> {
    if forall|c: int| 0 <= c < a.len() ==> ((#[trigger] a[c]) matches Some(v) ==> decimal_checked_div(v, r) is Some) {
        Some(a.map_values(|x: Option<DecimalView>| match x {
            Some(v) => Some(decimal_checked_div(v, r)->0),
            None => None,
        }))
    } else {
        None
    }
}

/// All values are zero (an amount without any commodity is zero too).
pub open spec fn amount_is_zero(a: AmountView) -> bool {
    forall|c: int| 0 <= c < a.len() ==> ((#[trigger] a[c]) matches Some(v) ==> v.1 == 0)
}

/// The present `(commodity, value)` entries of the first `n` indices, in index order.
pub open spec fn entries_upto(a: AmountView, n: nat) -> Seq<(nat, DecimalView)>
    decreases n,
{
    if n == 0 {
        Seq::empty()
    } else {
        let prev = entries_upto(a, (n - 1) as nat);
        match amt_get(a, (n - 1) as nat) {
            Some(v) => prev.push(((n - 1) as nat, v)),
            None => prev,
        }
    }
}

/// The present `(commodity, value)` entries, in commodity index order.
pub open spec fn entries(a: AmountView) -> Seq<(nat, DecimalView)> {
    entries_upto(a, a.len())
}

/// Text of one entry: the value, a space and the commodity name.
pub open spec fn entry_text(store: CommodityStore, e: (nat, DecimalView)) -> Seq<char> {
    decimal_display(e.1) + " "@ + store@.lossy_name(e.0)
}

/// Text of the entries after the first one: ` + x c` or ` - |x| c`.
pub open spec fn tail_text(store: CommodityStore, es: Seq<(nat, DecimalView)>) -> Seq<char>
    decreases es.len(),
{
    if es.len() == 0 {
        Seq::empty()
    } else {
        let prev = tail_text(store, es.drop_last());
        let e = es.last();
        if e.1.0 {
            prev + " - "@ + entry_text(store, (e.0, (false, e.1.1, e.1.2)))
        } else {
            prev + " + "@ + entry_text(store, e)
        }
    }
}

/// Inline text of an amount: `0`, `x c`, or `(x c + y d - z e)`.
pub open spec fn inline_text(store: CommodityStore, a: AmountView) -> Seq<char> {
    let es = entries(a);
    if es.len() == 0 {
        "0"@
    } else if es.len() == 1 {
        entry_text(store, es[0])
    } else {
        "("@ + entry_text(store, es[0]) + tail_text(store, es.drop_first()) + ")"@
    }
}

/// Every value rounded to the precision the store declares for its commodity.
pub open spec fn amount_round(store: CommodityStore, a: AmountView) -> AmountView {
    Seq::new(
        a.len(),
        |c: int| match a[c] {
            Some(v) => Some(rounded_view(store, CommodityTag(c as usize), v)),
            None => None,
        },
    )
}

/// Number of present commodities.
pub open spec fn entry_count(a: AmountView) -> nat {
    entries(a).len()
}

/// The amount with the commodity `c` set to `y`.
pub open spec fn set_entry(a: AmountView, c: nat, y: DecimalView) -> AmountView {
    Seq::new(
        max_len(a.len(), c + 1),
        |i: int| if i == c {
            Some(y)
        } else {
            amt_get(a, i as nat)
        },
    )
}

/// `a + v` on the commodity `c` (an absent commodity counts as zero), `None` on overflow.
pub open spec fn add_entry(a: AmountView, c: nat, v: DecimalView) -> Option<AmountView> {
    let sum = match amt_get(a, c) {
        Some(x) => decimal_checked_add(x, v),
        None => Some(v),
    };
    match sum {
        Some(y) => Some(set_entry(a, c, y)),
        None => None,
    }
}

/// Sum of the `(commodity, value)` pairs, in order, starting from zero.
pub open spec fn amount_of_pairs(ps: Seq<(nat, DecimalView)>) -> Option<AmountView>
    decreases ps.len(),
{
    if ps.len() == 0 {
        Some(Seq::empty())
    } else {
        match amount_of_pairs(ps.drop_last()) {
            Some(a) => add_entry(a, ps.last().0, ps.last().1),
            None => None,
        }
    }
}

/// Two trimmed amounts with the same entries are equal.
pub proof fn lemma_trimmed_ext(a: AmountView, b: AmountView)
    requires
        trimmed(a),
        trimmed(b),
        forall|c: nat| #[trigger] amt_get(a, c) == amt_get(b, c),
    ensures
        a == b,
{
    if a.len() < b.len() {
        assert(amt_get(a, (b.len() - 1) as nat) == amt_get(b, (b.len() - 1) as nat));
    } else if b.len() < a.len() {
        assert(amt_get(a, (a.len() - 1) as nat) == amt_get(b, (a.len() - 1) as nat));
    }
    assert forall|i: int| 0 <= i < a.len() implies a[i] == b[i] by {
        assert(amt_get(a, i as nat) == amt_get(b, i as nat));
    }
    assert(a =~= b);
}

/// Once a prefix of the pairs overflows, so do all the pairs.
pub proof fn lemma_pairs_overflow(ps: Seq<(nat, DecimalView)>, i: nat)
    requires
        i < ps.len(),
        amount_of_pairs(ps.subrange(0, i + 1 as int)) is None,
    ensures
        amount_of_pairs(ps) is None,
    decreases ps.len() - i,
{
    if i + 1 < ps.len() {
        assert(ps.subrange(0, i + 2 as int).drop_last() =~= ps.subrange(0, i + 1 as int));
        lemma_pairs_overflow(ps, i + 1);
    } else {
        assert(ps.subrange(0, i + 1 as int) =~= ps);
    }
}

/// Adding the zero without commodity, on either side, gives the amount back.
pub proof fn lemma_add_zero(a: AmountView)
    ensures
        amount_add(a, Seq::empty()) == Some(a),
        amount_add(Seq::empty(), a) == Some(a),
{
    let e = Seq::<Option<DecimalView>>::empty();
    assert forall|c: nat| c < a.len() implies (#[trigger] entry_add(amt_get(a, c), amt_get(e, c))) is Some by {}
    assert forall|c: nat| c < a.len() implies (#[trigger] entry_add(amt_get(e, c), amt_get(a, c))) is Some by {}
    assert(amount_add(a, e)->0 =~= a);
    assert(amount_add(e, a)->0 =~= a);
}

/// Subtracting the zero without commodity gives the amount back.
pub proof fn lemma_sub_zero(a: AmountView)
    ensures
        amount_sub(a, Seq::empty()) == Some(a),
{
    let e = Seq::<Option<DecimalView>>::empty();
    assert forall|c: nat| c < a.len() implies (#[trigger] entry_sub(amt_get(a, c), amt_get(e, c))) is Some by {}
    assert(amount_sub(a, e)->0 =~= a);
}

/// Negating twice gives the amount back.
pub proof fn lemma_neg_neg(a: AmountView)
    ensures
        amount_neg(amount_neg(a)) == a,
{
    assert(amount_neg(amount_neg(a)) =~= a);
}

/// Negation keeps the commodities, and an amount is zero exactly when its negation is.
pub proof fn lemma_neg_is_zero(a: AmountView)
    ensures
        amount_neg(a).len() == a.len(),
        forall|c: nat| (#[trigger] amt_get(amount_neg(a), c)) is Some == amt_get(a, c) is Some,
        amount_is_zero(amount_neg(a)) == amount_is_zero(a),
{
    if amount_is_zero(amount_neg(a)) {
        assert forall|c: int| 0 <= c < a.len() implies ((#[trigger] a[c]) matches Some(v) ==> v.1 == 0) by {
            assert(amount_neg(a)[c] == amount_neg(a)[c]);
        }
    }
    if amount_is_zero(a) {
        assert forall|c: int| 0 <= c < a.len() implies ((#[trigger] amount_neg(a)[c]) matches Some(v) ==> v.1 == 0) by {
            assert(a[c] == a[c]);
        }
    }
}

/// The entry, or nothing if its value is zero.
pub open spec fn strip_zero(x: Option<DecimalView>) -> Option<DecimalView> {
    match x {
        Some(v) => if v.1 == 0 {
            None
        } else {
            Some(v)
        },
        None => None,
    }
}

/// The amount without its zero values.
pub open spec fn amount_strip_zero(a: AmountView) -> AmountView {
    trim_none(a.map_values(|x: Option<DecimalView>| strip_zero(x)))
}

/// The amount of a single commodity `c`: `v` at `c`, nothing elsewhere.
pub open spec fn single_view(c: nat, v: DecimalView) -> AmountView {
    Seq::new(
        c + 1,
        |k: int| if k == c {
            Some(v)
        } else {
            None
        },
    )
}

/// The amount of a posting amount: empty for zero.
pub open spec fn posting_view(p: PostingAmount) -> AmountView {
    match p {
        PostingAmount::Zero => Seq::empty(),
        PostingAmount::Single(s) => single_view(s.commodity.0 as nat, s.value@),
    }
}

/// Adding a value to one commodity is adding the amount of that single commodity.
pub proof fn lemma_add_entry_single(a: AmountView, c: nat, v: DecimalView)
    ensures
        add_entry(a, c, v) == amount_add(a, single_view(c, v)),
{
    let b = single_view(c, v);
    let n = max_len(a.len(), b.len());
    assert forall|k: nat| k < n implies (#[trigger] entry_add(amt_get(a, k), amt_get(b, k))) is Some
        || k == c by {}
    if add_entry(a, c, v) is Some {
        assert forall|k: nat| k < n implies (#[trigger] entry_add(amt_get(a, k), amt_get(b, k))) is Some by {}
        assert(add_entry(a, c, v)->0 =~= amount_add(a, b)->0);
    } else {
        assert(!(entry_add(amt_get(a, c), amt_get(b, c)) is Some));
    }
}

/// Value of the commodity `c`, zero if absent.
pub open spec fn part_of(a: AmountView, c: nat) -> DecimalView {
    match amt_get(a, c) {
        Some(v) => v,
        None => zero_view(),
    }
}

/// The amount meets the expected balance: every value zero for a zero balance, or the
/// expected value (numerically) on its commodity.
pub open spec fn consistent(a: AmountView, expected: PostingAmount) -> bool {
    match expected {
        PostingAmount::Zero => amount_is_zero(a),
        PostingAmount::Single(s) => value_eq(s.value@, part_of(a, s.commodity.0 as nat)),
    }
}

/// The view of an optional decimal.
pub open spec fn opt_dec(x: Option<Decimal>) -> Option<DecimalView> {
    match x {
        Some(d) => Some(d@),
        None => None,
    }
}

/// Amount with multiple commodities, or simple zero.
#[derive(Debug, PartialEq, Eq)]
pub struct Amount {
    values: Vec<Option<Decimal>>,
}

impl View for Amount {
    type V = AmountView;

    closed spec fn view(&self) -> AmountView {
        self.values@.map_values(|x: Option<Decimal>| opt_dec(x))
    }
}

/// Removes the trailing absent entries.
fn trim(v: &mut Vec<Option<Decimal>>)
    ensures
        trimmed(final(v)@.map_values(|x: Option<Decimal>| opt_dec(x))),
        final(v)@.len() <= old(v)@.len(),
        final(v)@ == old(v)@.subrange(0, final(v)@.len() as int),
        forall|i: int| final(v)@.len() <= i < old(v)@.len() ==> old(v)@[i] is None,
{
    while v.len() > 0 && v[v.len() - 1].is_none()
        invariant
            v@.len() <= old(v)@.len(),
            v@ == old(v)@.subrange(0, v@.len() as int),
            forall|i: int| v@.len() <= i < old(v)@.len() ==> old(v)@[i] is None,
        decreases v.len(),
    {
        v.pop();
    }
}

impl Clone for Amount {
    fn clone(&self) -> (r: Self)
        ensures
            r@ == self@,
    {
        proof {
            use_type_invariant(self);
        }
        let mut v: Vec<Option<Decimal>> = Vec::new();
        let mut i: usize = 0;
        while i < self.values.len()
            invariant
                i <= self.values.len(),
                v@ == self.values@.subrange(0, i as int),
            decreases self.values.len() - i,
        {
            v.push(self.values[i]);
            i = i + 1;
        }
        assert(v@ == self.values@);
        Amount { values: v }
    }
}

impl Amount {
    #[verifier::type_invariant]
    spec fn inv(self) -> bool {
        trimmed(self@)
    }

    /// Builds an amount out of raw entries.
    fn from_vec(mut values: Vec<Option<Decimal>>) -> (r: Amount)
        ensures
            forall|c: nat| #[trigger] amt_get(r@, c) == amt_get(
                values@.map_values(|x: Option<Decimal>| opt_dec(x)),
                c,
            ),
            r@.len() <= values@.len(),
            r@ == trim_none(values@.map_values(|x: Option<Decimal>| opt_dec(x))),
    {
        let ghost old_values = values@;
        trim(&mut values);
        let r = Amount { values };
        assert forall|c: nat| #[trigger] amt_get(r@, c) == amt_get(
            old_values.map_values(|x: Option<Decimal>| opt_dec(x)),
            c,
        ) by {
            if c < r@.len() {
                assert(values@[c as int] == old_values[c as int]);
            }
        }
        proof {
            let vv = old_values.map_values(|x: Option<Decimal>| opt_dec(x));
            lemma_trim_none(vv);
            assert forall|c: nat| #[trigger] map_at(r@, c) == map_at(trim_none(vv), c) by {
                assert(amt_get(r@, c) == amt_get(vv, c));
            }
            lemma_none_trimmed_ext(r@, trim_none(vv));
        }
        r
    }

    /// The amount always has no trailing absent commodity.
    pub fn check_wf(&self)
        ensures
            trimmed(self@),
    {
        proof {
            use_type_invariant(self);
        }
    }

    /// Zero without any commodity.
    pub fn zero() -> (r: Self)
        ensures
            r@.len() == 0,
    {
        let r = Amount { values: Vec::new() };
        assert(r@ =~= Seq::<Option<DecimalView>>::empty());
        r
    }

    /// Value of the commodity, if present.
    pub fn get(&self, c: CommodityTag) -> (r: Option<Decimal>)
        ensures
            opt_dec(r) == amt_get(self@, c.0 as nat),
    {
        if c.0 < self.values.len() {
            self.values[c.0]
        } else {
            None
        }
    }

    /// Value of the commodity, zero if absent.
    pub fn get_part(&self, c: CommodityTag) -> (r: Decimal)
        ensures
            amt_get(self@, c.0 as nat) matches Some(v) ==> r@ == v,
            amt_get(self@, c.0 as nat) is None ==> r@ == zero_view(),
    {
        match self.get(c) {
            Some(v) => v,
            None => Decimal::zero(),
        }
    }

    /// Amount of a single commodity: `0 + value`, as the addition gives it.
    pub fn from_value(commodity: CommodityTag, amount: Decimal) -> (r: Self)
        ensures
            amt_get(r@, commodity.0 as nat) == Some(amount@),
            forall|c: nat| c != commodity.0 ==> #[trigger] amt_get(r@, c) is None,
            r@.len() == commodity.0 + 1,
            r@ == single_view(commodity.0 as nat, amount@),
    {
        let mut v: Vec<Option<Decimal>> = Vec::new();
        while v.len() < commodity.0
            invariant
                v@.len() <= commodity.0,
                forall|i: int| 0 <= i < v@.len() ==> v@[i] is None,
            decreases commodity.0 - v.len(),
        {
            v.push(None);
        }
        let sum = match Decimal::zero().checked_add(amount) {
            Some(x) => x,
            None => amount,
        };
        v.push(Some(sum));
        let r = Amount { values: v };
        assert forall|c: nat| c != commodity.0 implies #[trigger] amt_get(r@, c) is None by {}
        assert forall|k: int| 0 <= k < r@.len() implies r@[k] == single_view(commodity.0 as nat, amount@)[k] by {
            assert(amt_get(r@, k as nat) == r@[k]);
        }
        assert(r@ =~= single_view(commodity.0 as nat, amount@));
        r
    }

    /// Amount of a single commodity.
    pub fn from_single(a: SingleAmount) -> (r: Self)
        ensures
            r@ == single_view(a.commodity.0 as nat, a.value@),
            r@.len() == a.commodity.0 + 1,
            amt_get(r@, a.commodity.0 as nat) == Some(a.value@),
            forall|c: nat| c != a.commodity.0 ==> #[trigger] amt_get(r@, c) is None,
    {
        Amount::from_value(a.commodity, a.value)
    }

    /// Amount of a [`PostingAmount`]: zero, or the single commodity.
    pub fn from_posting(a: PostingAmount) -> (r: Self)
        ensures
            r@ == posting_view(a),
            a is Zero ==> r@.len() == 0,
            a matches PostingAmount::Single(s) ==> amt_get(r@, s.commodity.0 as nat) == Some(
                s.value@,
            ) && forall|c: nat| c != s.commodity.0 ==> #[trigger] amt_get(r@, c) is None,
    {
        match a {
            PostingAmount::Zero => Amount::zero(),
            PostingAmount::Single(s) => Amount::from_single(s),
        }
    }

    /// Amount of the given entries; the commodities must differ.
    pub fn from_values(values: Vec<(CommodityTag, Decimal)>) -> (r: Self)
        requires
            forall|i: int, j: int|
                0 <= i < j < values.len() ==> (#[trigger] values[i]).0 != (#[trigger] values[j]).0,
        ensures
            forall|i: int|
                0 <= i < values.len() ==> amt_get(r@, (#[trigger] values[i]).0.0 as nat) == Some(
                    values[i].1@,
                ),
            forall|c: nat|
                (forall|i: int| 0 <= i < values.len() ==> (#[trigger] values[i]).0.0 != c)
                    ==> #[trigger] amt_get(r@, c) is None,
    {
        let mut v: Vec<Option<Decimal>> = Vec::new();
        let mut i: usize = 0;
        while i < values.len()
            invariant
                i <= values.len(),
                forall|i: int, j: int|
                    0 <= i < j < values.len() ==> (#[trigger] values[i]).0 != (#[trigger] values[j]).0,
                forall|k: int| 0 <= k < i ==> (#[trigger] values[k]).0.0 < v@.len() && v@[values[k].0.0 as int] == Some(values[k].1),
                forall|c: int|
                    0 <= c < v@.len() ==> (forall|k: int| 0 <= k < i ==> (#[trigger] values[k]).0.0 != c)
                        ==> #[trigger] v@[c] is None,
            decreases values.len() - i,
        {
            let (c, d) = values[i];
            while v.len() <= c.0
                invariant
                    forall|k: int| 0 <= k < i ==> (#[trigger] values[k]).0.0 < v@.len() && v@[values[k].0.0 as int] == Some(values[k].1),
                    forall|c: int|
                        0 <= c < v@.len() ==> (forall|k: int| 0 <= k < i ==> (#[trigger] values[k]).0.0 != c)
                            ==> #[trigger] v@[c] is None,
                decreases c.0 + 1 - v.len(),
            {
                v.push(None);
            }
            v.set(c.0, Some(d));
            i = i + 1;
        }
        let r = Amount::from_vec(v);
        proof {
            assert forall|i: int|
                0 <= i < values.len() implies amt_get(r@, (#[trigger] values[i]).0.0 as nat) == Some(
                    values[i].1@,
                ) by {
                assert(amt_get(v@.map_values(|x: Option<Decimal>| opt_dec(x)), values[i].0.0 as nat)
                    == Some(values[i].1@));
            }
            assert forall|c: nat|
                (forall|i: int| 0 <= i < values.len() ==> (#[trigger] values[i]).0.0 != c)
                    implies #[trigger] amt_get(r@, c) is None by {
                assert(amt_get(v@.map_values(|x: Option<Decimal>| opt_dec(x)), c) is None);
            }
        }
        r
    }

    /// The present entries, in commodity index order.
    pub fn iter(&self) -> (r: Vec<SingleAmount>)
        ensures
            r.len() == entries(self@).len(),
            forall|i: int|
                0 <= i < r.len() ==> (#[trigger] r[i]).commodity.0 == entries(self@)[i].0
                    && r[i].value@ == entries(self@)[i].1,
    {
        let mut r: Vec<SingleAmount> = Vec::new();
        let mut i: usize = 0;
        while i < self.values.len()
            invariant
                i <= self.values.len(),
                self@.len() == self.values@.len(),
                r.len() == entries_upto(self@, i as nat).len(),
                forall|k: int|
                    0 <= k < r.len() ==> (#[trigger] r[k]).commodity.0 == entries_upto(self@, i as nat)[k].0
                        && r[k].value@ == entries_upto(self@, i as nat)[k].1,
            decreases self.values.len() - i,
        {
            match self.values[i] {
                Some(v) => {
                    r.push(SingleAmount { commodity: CommodityTag(i), value: v });
                },
                None => {},
            }
            i = i + 1;
        }
        r
    }

    /// The present entries, in commodity index order.
    pub fn into_values(self) -> (r: Vec<(CommodityTag, Decimal)>)
        ensures
            r.len() == entries(self@).len(),
            forall|i: int|
                0 <= i < r.len() ==> (#[trigger] r[i]).0.0 == entries(self@)[i].0 && r[i].1@
                    == entries(self@)[i].1,
    {
        let items = self.iter();
        let mut r: Vec<(CommodityTag, Decimal)> = Vec::new();
        let mut i: usize = 0;
        while i < items.len()
            invariant
                i <= items.len(),
                r.len() == i,
                forall|k: int| 0 <= k < i ==> (#[trigger] r[k]).0 == items[k].commodity && r[k].1 == items[k].value,
            decreases items.len() - i,
        {
            r.push((items[i].commodity, items[i].value));
            i = i + 1;
        }
        r
    }

    /// `true` if this is the zero without any commodity.
    pub fn is_absolute_zero(&self) -> (r: bool)
        ensures
            r == (self@.len() == 0),
    {
        self.values.len() == 0
    }

    /// `true` if every value is zero, including the zero without commodity.
    pub fn is_zero(&self) -> (r: bool)
        ensures
            r == amount_is_zero(self@),
    {
        let mut i: usize = 0;
        while i < self.values.len()
            invariant
                i <= self.values.len(),
                self@.len() == self.values@.len(),
                forall|c: int| 0 <= c < i ==> ((#[trigger] self@[c]) matches Some(v) ==> v.1 == 0),
            decreases self.values.len() - i,
        {
            match self.values[i] {
                Some(v) => {
                    if !v.is_zero() {
                        assert(self@[i as int] == Some(v@));
                        return false;
                    }
                },
                None => {},
            }
            i = i + 1;
        }
        true
    }

    /// Removes the zero values, so `0 USD` becomes absent.
    pub fn remove_zero_entries(&mut self)
        ensures
            final(self)@ == amount_strip_zero(old(self)@),
            final(self)@.len() == 0 <==> amount_is_zero(old(self)@),
            forall|c: nat|
                #[trigger] amt_get(final(self)@, c) == match amt_get(old(self)@, c) {
                    Some(v) => if v.1 == 0 {
                        None
                    } else {
                        Some(v)
                    },
                    None => None,
                },
    {
        let mut v: Vec<Option<Decimal>> = Vec::new();
        let mut i: usize = 0;
        while i < self.values.len()
            invariant
                i <= self.values.len(),
                v@.len() == i,
                self@.len() == self.values@.len(),
                forall|c: int|
                    0 <= c < i ==> #[trigger] opt_dec(v@[c]) == match self@[c] {
                        Some(x) => if x.1 == 0 {
                            None
                        } else {
                            Some(x)
                        },
                        None => None,
                    },
            decreases self.values.len() - i,
        {
            let e = match self.values[i] {
                Some(x) => if x.is_zero() {
                    None
                } else {
                    Some(x)
                },
                None => None,
            };
            v.push(e);
            i = i + 1;
        }
        let ghost prev = self@;
        let r = Amount::from_vec(v);
        proof {
            use_type_invariant(&r);
            let vv = v@.map_values(|x: Option<Decimal>| opt_dec(x));
            assert(vv =~= prev.map_values(|x: Option<DecimalView>| strip_zero(x)));
            if amount_is_zero(prev) && r@.len() > 0 {
                let last = (r@.len() - 1) as nat;
                assert(amt_get(r@, last) == amt_get(vv, last));
                assert(opt_dec(v@[last as int]) == opt_dec(v@[last as int]));
            }
            if r@.len() == 0 {
                assert forall|c: int| 0 <= c < prev.len() implies ((#[trigger] prev[c]) matches Some(x)
                    ==> x.1 == 0) by {
                    assert(amt_get(r@, c as nat) == amt_get(vv, c as nat));
                    assert(opt_dec(v@[c]) == opt_dec(v@[c]));
                }
            }
        }
        *self = r;
    }

    /// Replaces the value of the commodity and returns the previous one (zero if absent).
    /// A zero value removes the commodity.
    pub fn set_partial(&mut self, amount: SingleAmount) -> (r: SingleAmount)
        ensures
            r.commodity == amount.commodity,
            amt_get(old(self)@, amount.commodity.0 as nat) matches Some(v) ==> r.value@ == v,
            amt_get(old(self)@, amount.commodity.0 as nat) is None ==> r.value@ == zero_view(),
            amount.value@.1 == 0 ==> amt_get(final(self)@, amount.commodity.0 as nat) is None,
            amount.value@.1 != 0 ==> amt_get(final(self)@, amount.commodity.0 as nat) == Some(
                amount.value@,
            ),
            forall|c: nat|
                c != amount.commodity.0 ==> #[trigger] amt_get(final(self)@, c) == amt_get(
                    old(self)@,
                    c,
                ),
    {
        let prev = self.get_part(amount.commodity);
        let k = amount.commodity.0;
        let mut v: Vec<Option<Decimal>> = self.values.clone();
        assert(v@ == self.values@);
        while v.len() <= k
            invariant
                self.values@.len() <= v@.len(),
                forall|c: int| 0 <= c < self.values@.len() ==> v@[c] == self.values@[c],
                forall|c: int| self.values@.len() <= c < v@.len() ==> v@[c] is None,
            decreases k + 1 - v.len(),
        {
            v.push(None);
        }
        if amount.value.is_zero() {
            v.set(k, None);
        } else {
            v.set(k, Some(amount.value));
        }
        let ghost old_view = self@;
        *self = Amount::from_vec(v);
        proof {
            assert forall|c: nat|
                c != amount.commodity.0 implies #[trigger] amt_get(self@, c) == amt_get(old_view, c) by {
                assert(amt_get(self@, c) == amt_get(v@.map_values(|x: Option<Decimal>| opt_dec(x)), c));
            }
            assert(amt_get(self@, k as nat) == amt_get(v@.map_values(|x: Option<Decimal>| opt_dec(x)), k as nat));
        }
        SingleAmount { commodity: amount.commodity, value: prev }
    }

    /// The two entries if there are exactly two commodities.
    pub fn maybe_pair(&self) -> (r: Option<(SingleAmount, SingleAmount)>)
        ensures
            entries(self@).len() == 2 <==> r is Some,
            r matches Some(p) ==> p.0.commodity.0 == entries(self@)[0].0 && p.0.value@ == entries(
                self@,
            )[0].1 && p.1.commodity.0 == entries(self@)[1].0 && p.1.value@ == entries(self@)[1].1,
    {
        let items = self.iter();
        if items.len() != 2 {
            None
        } else {
            Some((items[0], items[1]))
        }
    }

    /// Negated amount.
    pub fn negate(self) -> (r: Self)
        ensures
            r@ == amount_neg(self@),
    {
        proof {
            use_type_invariant(&self);
        }
        let mut v: Vec<Option<Decimal>> = Vec::new();
        let mut i: usize = 0;
        while i < self.values.len()
            invariant
                i <= self.values.len(),
                v@.len() == i,
                self@.len() == self.values@.len(),
                forall|c: int| 0 <= c < i ==> #[trigger] opt_dec(v@[c]) == amount_neg(self@)[c],
            decreases self.values.len() - i,
        {
            let e = match self.values[i] {
                Some(x) => Some(x.neg()),
                None => None,
            };
            v.push(e);
            i = i + 1;
        }
        let r = Amount { values: v };
        assert(r@ =~= amount_neg(self@));
        r
    }

    /// `self + rhs`; commodities missing on either side are taken as zero.
    pub fn check_add(self, rhs: Amount) -> (r: Result<Self, EvalError>)
        ensures
            match amount_add(self@, rhs@) {
                Some(s) => r matches Ok(x) && x@ == s,
                None => r == Err::<Self, EvalError>(EvalError::NumberOverflow),
            },
    {
        proof {
            use_type_invariant(&self);
            use_type_invariant(&rhs);
        }
        let n = if self.values.len() < rhs.values.len() {
            rhs.values.len()
        } else {
            self.values.len()
        };
        let mut v: Vec<Option<Decimal>> = Vec::new();
        let mut i: usize = 0;
        while i < n
            invariant
                i <= n,
                n == max_len(self@.len(), rhs@.len()),
                v@.len() == i,
                self@.len() == self.values@.len(),
                rhs@.len() == rhs.values@.len(),
                forall|c: int|
                    0 <= c < i ==> entry_add(amt_get(self@, c as nat), amt_get(rhs@, c as nat))
                        == Some(#[trigger] opt_dec(v@[c])),
            decreases n - i,
        {
            let x = self.get(CommodityTag(i));
            let y = rhs.get(CommodityTag(i));
            let e = match (x, y) {
                (Some(a), Some(b)) => match a.checked_add(b) {
                    Some(s) => Some(s),
                    None => {
                        proof {
                            assert(!(entry_add(amt_get(self@, i as nat), amt_get(rhs@, i as nat)) is Some));
                            assert(amount_add(self@, rhs@) is None);
                        }
                        return Err(EvalError::NumberOverflow);
                    },
                },
                (None, Some(b)) => match Decimal::zero().checked_add(b) {
                    Some(s) => Some(s),
                    None => {
                        proof {
                            assert(!(entry_add(amt_get(self@, i as nat), amt_get(rhs@, i as nat)) is Some));
                        }
                        return Err(EvalError::NumberOverflow);
                    },
                },
                (x, None) => x,
            };
            v.push(e);
            i = i + 1;
        }
        let r = Amount::from_vec(v);
        proof {
            let s = Seq::new(n as nat, |c: int| entry_add(amt_get(self@, c as nat), amt_get(rhs@, c as nat))->0);
            assert forall|c: nat| c < n implies (#[trigger] entry_add(
                amt_get(self@, c),
                amt_get(rhs@, c),
            )) is Some by {
                assert(opt_dec(v@[c as int]) == opt_dec(v@[c as int]));
            }
            assert(amount_add(self@, rhs@) == Some(s));
            let vv = v@.map_values(|x: Option<Decimal>| opt_dec(x));
            assert(vv =~= s);
            if n > 0 {
                assert(s.last() is Some);
            }
            assert(trimmed(vv));
            assert(r@ =~= s) by {
                assert(r@.len() == s.len()) by {
                    if r@.len() < s.len() {
                        assert(amt_get(r@, (s.len() - 1) as nat) == amt_get(vv, (s.len() - 1) as nat));
                    }
                }
                assert forall|c: int| 0 <= c < s.len() implies r@[c] == s[c] by {
                    assert(amt_get(r@, c as nat) == amt_get(vv, c as nat));
                }
            }
        }
        Ok(r)
    }

    /// `self - rhs`; commodities missing on either side are taken as zero.
    pub fn check_sub(self, rhs: Amount) -> (r: Result<Self, EvalError>)
        ensures
            match amount_sub(self@, rhs@) {
                Some(s) => r matches Ok(x) && x@ == s,
                None => r == Err::<Self, EvalError>(EvalError::NumberOverflow),
            },
    {
        proof {
            use_type_invariant(&self);
            use_type_invariant(&rhs);
        }
        let n = if self.values.len() < rhs.values.len() {
            rhs.values.len()
        } else {
            self.values.len()
        };
        let mut v: Vec<Option<Decimal>> = Vec::new();
        let mut i: usize = 0;
        while i < n
            invariant
                i <= n,
                n == max_len(self@.len(), rhs@.len()),
                v@.len() == i,
                self@.len() == self.values@.len(),
                rhs@.len() == rhs.values@.len(),
                forall|c: int|
                    0 <= c < i ==> entry_sub(amt_get(self@, c as nat), amt_get(rhs@, c as nat))
                        == Some(#[trigger] opt_dec(v@[c])),
            decreases n - i,
        {
            let x = self.get(CommodityTag(i));
            let y = rhs.get(CommodityTag(i));
            let e = match (x, y) {
                (Some(a), Some(b)) => match a.checked_sub(b) {
                    Some(s) => Some(s),
                    None => {
                        proof {
                            assert(!(entry_sub(amt_get(self@, i as nat), amt_get(rhs@, i as nat)) is Some));
                        }
                        return Err(EvalError::NumberOverflow);
                    },
                },
                (None, Some(b)) => match Decimal::zero().checked_sub(b) {
                    Some(s) => Some(s),
                    None => {
                        proof {
                            assert(!(entry_sub(amt_get(self@, i as nat), amt_get(rhs@, i as nat)) is Some));
                        }
                        return Err(EvalError::NumberOverflow);
                    },
                },
                (x, None) => x,
            };
            v.push(e);
            i = i + 1;
        }
        let r = Amount::from_vec(v);
        proof {
            let s = Seq::new(n as nat, |c: int| entry_sub(amt_get(self@, c as nat), amt_get(rhs@, c as nat))->0);
            assert forall|c: nat| c < n implies (#[trigger] entry_sub(
                amt_get(self@, c),
                amt_get(rhs@, c),
            )) is Some by {
                assert(opt_dec(v@[c as int]) == opt_dec(v@[c as int]));
            }
            assert(amount_sub(self@, rhs@) == Some(s));
            let vv = v@.map_values(|x: Option<Decimal>| opt_dec(x));
            assert(vv =~= s);
            if n > 0 {
                assert(s.last() is Some);
            }
            assert forall|c: nat| #[trigger] amt_get(r@, c) == amt_get(s, c) by {
                assert(amt_get(r@, c) == amt_get(vv, c));
            }
            use_type_invariant(&r);
            lemma_trimmed_ext(r@, s);
        }
        Ok(r)
    }

    /// Every value multiplied by `rhs`; zero values are kept.
    pub fn check_mul(self, rhs: Decimal) -> (r: Result<Self, EvalError>)
        ensures
            match amount_mul(self@, rhs@) {
                Some(s) => r matches Ok(x) && x@ == s,
                None => r == Err::<Self, EvalError>(EvalError::NumberOverflow),
            },
    {
        proof {
            use_type_invariant(&self);
        }
        let mut v: Vec<Option<Decimal>> = Vec::new();
        let mut i: usize = 0;
        while i < self.values.len()
            invariant
                i <= self.values.len(),
                v@.len() == i,
                self@.len() == self.values@.len(),
                forall|c: int|
                    0 <= c < i ==> (#[trigger] opt_dec(v@[c])) == match self@[c] {
                        Some(x) => Some(decimal_checked_mul(x, rhs@)->0),
                        None => None,
                    } && (self@[c] matches Some(x) ==> decimal_checked_mul(x, rhs@) is Some),
            decreases self.values.len() - i,
        {
            let e = match self.values[i] {
                Some(x) => match x.checked_mul(rhs) {
                    Some(y) => Some(y),
                    None => {
                        proof {
                            assert(self@[i as int] == Some(x@));
                        }
                        return Err(EvalError::NumberOverflow);
                    },
                },
                None => None,
            };
            v.push(e);
            i = i + 1;
        }
        let r = Amount { values: v };
        proof {
            assert forall|c: int| 0 <= c < self@.len() implies ((#[trigger] self@[c]) matches Some(x)
                ==> decimal_checked_mul(x, rhs@) is Some) by {
                assert(opt_dec(v@[c]) == opt_dec(v@[c]));
            }
            assert(r@ =~= amount_mul(self@, rhs@)->0) by {
                assert forall|c: int| 0 <= c < r@.len() implies r@[c] == (amount_mul(self@, rhs@)->0)[c] by {
                    assert(opt_dec(v@[c]) == opt_dec(v@[c]));
                }
            }
        }
        Ok(r)
    }

    /// Every value divided by `rhs`, [`EvalError::DivideByZero`] for a zero divisor.
    pub fn check_div(self, rhs: Decimal) -> (r: Result<Self, EvalError>)
        ensures
            rhs@.1 == 0 ==> r == Err::<Self, EvalError>(EvalError::DivideByZero),
            rhs@.1 != 0 ==> match amount_div(self@, rhs@) {
                Some(s) => r matches Ok(x) && x@ == s,
                None => r == Err::<Self, EvalError>(EvalError::NumberOverflow),
            },
    {
        proof {
            use_type_invariant(&self);
        }
        if rhs.is_zero() {
            return Err(EvalError::DivideByZero);
        }
        let mut v: Vec<Option<Decimal>> = Vec::new();
        let mut i: usize = 0;
        while i < self.values.len()
            invariant
                i <= self.values.len(),
                v@.len() == i,
                self@.len() == self.values@.len(),
                rhs@.1 != 0,
                forall|c: int|
                    0 <= c < i ==> (#[trigger] opt_dec(v@[c])) == match self@[c] {
                        Some(x) => Some(decimal_checked_div(x, rhs@)->0),
                        None => None,
                    } && (self@[c] matches Some(x) ==> decimal_checked_div(x, rhs@) is Some),
            decreases self.values.len() - i,
        {
            let e = match self.values[i] {
                Some(x) => match x.checked_div(rhs) {
                    Some(y) => Some(y),
                    None => {
                        proof {
                            assert(self@[i as int] == Some(x@));
                        }
                        return Err(EvalError::NumberOverflow);
                    },
                },
                None => None,
            };
            v.push(e);
            i = i + 1;
        }
        let r = Amount { values: v };
        proof {
            assert forall|c: int| 0 <= c < self@.len() implies ((#[trigger] self@[c]) matches Some(x)
                ==> decimal_checked_div(x, rhs@) is Some) by {
                assert(opt_dec(v@[c]) == opt_dec(v@[c]));
            }
            assert(r@ =~= amount_div(self@, rhs@)->0) by {
                assert forall|c: int| 0 <= c < r@.len() implies r@[c] == (amount_div(self@, rhs@)->0)[c] by {
                    assert(opt_dec(v@[c]) == opt_dec(v@[c]));
                }
            }
        }
        Ok(r)
    }

    /// Rounds every value to the precision the context declares for its commodity.
    pub fn round_mut(&mut self, ctx: &ReportContext)
        ensures
            final(self)@ == amount_round(ctx.commodities, old(self)@),
    {
        proof {
            use_type_invariant(&*self);
        }
        let mut v: Vec<Option<Decimal>> = Vec::new();
        let mut i: usize = 0;
        while i < self.values.len()
            invariant
                i <= self.values.len(),
                v@.len() == i,
                self@.len() == self.values@.len(),
                forall|c: int|
                    0 <= c < i ==> (#[trigger] opt_dec(v@[c])) == amount_round(ctx.commodities, self@)[c],
            decreases self.values.len() - i,
        {
            let e = match self.values[i] {
                Some(x) => Some(SingleAmount { commodity: CommodityTag(i), value: x }.round(ctx).value),
                None => None,
            };
            v.push(e);
            i = i + 1;
        }
        let ghost prev = self@;
        let r = Amount { values: v };
        assert(r@ =~= amount_round(ctx.commodities, prev));
        *self = r;
    }

    /// Rounded amount, see [`Amount::round_mut`].
    pub fn round(self, ctx: &ReportContext) -> (r: Self)
        ensures
            r@ == amount_round(ctx.commodities, self@),
    {
        let mut x = self;
        x.round_mut(ctx);
        x
    }

    /// Sets the value of the commodity, keeping a zero value.
    fn put(&mut self, c: CommodityTag, d: Decimal)
        ensures
            final(self)@ == set_entry(old(self)@, c.0 as nat, d@),
    {
        proof {
            use_type_invariant(&*self);
        }
        let k = c.0;
        let mut v: Vec<Option<Decimal>> = self.values.clone();
        assert(v@ == self.values@);
        while v.len() <= k
            invariant
                self.values@.len() <= v@.len(),
                forall|i: int| 0 <= i < self.values@.len() ==> v@[i] == self.values@[i],
                forall|i: int| self.values@.len() <= i < v@.len() ==> v@[i] is None,
            decreases k + 1 - v.len(),
        {
            v.push(None);
        }
        v.set(k, Some(d));
        let ghost old_view = self@;
        let r = Amount::from_vec(v);
        proof {
            let s = set_entry(old_view, k as nat, d@);
            assert forall|i: nat| #[trigger] amt_get(r@, i) == amt_get(s, i) by {
                assert(amt_get(r@, i) == amt_get(v@.map_values(|x: Option<Decimal>| opt_dec(x)), i));
            }
            if old_view.len() > k + 1 {
                assert(s.last() == old_view.last());
            }
            use_type_invariant(&r);
            lemma_trimmed_ext(r@, s);
        }
        *self = r;
    }

    /// Adds the single amount to its commodity (absent counts as zero); the amount is
    /// unchanged when the sum overflows.
    pub fn add_single(&mut self, rhs: SingleAmount) -> (r: Result<(), EvalError>)
        ensures
            match add_entry(old(self)@, rhs.commodity.0 as nat, rhs.value@) {
                Some(a) => r is Ok && final(self)@ == a,
                None => r == Err::<(), EvalError>(EvalError::NumberOverflow) && final(self)@ == old(
                    self,
                )@,
            },
    {
        let curr = self.get_part(rhs.commodity);
        match curr.checked_add(rhs.value) {
            Some(v) => {
                self.put(rhs.commodity, v);
                Ok(())
            },
            None => Err(EvalError::NumberOverflow),
        }
    }

    /// Adds the posting amount; zero adds nothing.
    pub fn add_posting(&mut self, rhs: PostingAmount) -> (r: Result<(), EvalError>)
        ensures
            rhs is Zero ==> r is Ok && final(self)@ == old(self)@,
            rhs matches PostingAmount::Single(s) ==> match add_entry(
                old(self)@,
                s.commodity.0 as nat,
                s.value@,
            ) {
                Some(a) => r is Ok && final(self)@ == a,
                None => r == Err::<(), EvalError>(EvalError::NumberOverflow) && final(self)@ == old(
                    self,
                )@,
            },
    {
        match rhs {
            PostingAmount::Zero => Ok(()),
            PostingAmount::Single(s) => self.add_single(s),
        }
    }

    /// Sum of the pairs, in order; a commodity may appear several times.
    pub fn from_pairs(values: Vec<(CommodityTag, Decimal)>) -> (r: Result<Self, EvalError>)
        ensures
            match amount_of_pairs(values@.map_values(|p: (CommodityTag, Decimal)| (p.0.0 as nat, p.1@))) {
                Some(a) => r matches Ok(x) && x@ == a,
                None => r == Err::<Self, EvalError>(EvalError::NumberOverflow),
            },
    {
        let ghost ps = values@.map_values(|p: (CommodityTag, Decimal)| (p.0.0 as nat, p.1@));
        let mut ret = Amount::zero();
        let mut i: usize = 0;
        assert(ret@ =~= Seq::<Option<DecimalView>>::empty());
        while i < values.len()
            invariant
                i <= values.len(),
                ps == values@.map_values(|p: (CommodityTag, Decimal)| (p.0.0 as nat, p.1@)),
                amount_of_pairs(ps.subrange(0, i as int)) == Some(ret@),
            decreases values.len() - i,
        {
            let (c, d) = values[i];
            assert(ps.subrange(0, i + 1 as int).drop_last() =~= ps.subrange(0, i as int));
            match ret.add_single(SingleAmount { commodity: c, value: d }) {
                Ok(()) => {},
                Err(e) => {
                    proof {
                        lemma_pairs_overflow(ps, i as nat);
                    }
                    return Err(e);
                },
            }
            i = i + 1;
        }
        assert(ps.subrange(0, values.len() as int) =~= ps);
        Ok(ret)
    }

    /// The single entry (the first one in commodity order), or
    /// [`EvalError::SingleAmountRequired`] for the zero without commodity.
    pub fn to_single(&self) -> (r: Result<SingleAmount, EvalError>)
        ensures
            entry_count(self@) == 0 ==> r == Err::<SingleAmount, EvalError>(
                EvalError::SingleAmountRequired,
            ),
            entry_count(self@) > 0 ==> (r matches Ok(x) && x.commodity.0 == entries(self@)[0].0
                && x.value@ == entries(self@)[0].1),
    {
        let items = self.iter();
        if items.len() == 0 {
            Err(EvalError::SingleAmountRequired)
        } else {
            Ok(items[0])
        }
    }

    /// The [`PostingAmount`] of an amount with at most one commodity, or
    /// [`EvalError::PostingAmountRequired`].
    pub fn to_posting(&self) -> (r: Result<PostingAmount, EvalError>)
        ensures
            entry_count(self@) > 1 ==> r == Err::<PostingAmount, EvalError>(
                EvalError::PostingAmountRequired,
            ),
            entry_count(self@) == 0 ==> r == Ok::<PostingAmount, EvalError>(PostingAmount::Zero),
            entry_count(self@) == 1 ==> (r matches Ok(PostingAmount::Single(x)) && x.commodity.0
                == entries(self@)[0].0 && x.value@ == entries(self@)[0].1),
    {
        let items = self.iter();
        if items.len() > 1 {
            Err(EvalError::PostingAmountRequired)
        } else if items.len() == 0 {
            Ok(PostingAmount::Zero)
        } else {
            Ok(PostingAmount::Single(items[0]))
        }
    }

    /// Text of the amount: `0`, `x c`, or `(x c + y d - z e)` in commodity order.
    pub fn to_inline_string(&self, ctx: &ReportContext) -> (r: String)
        ensures
            r@ == inline_text(ctx.commodities, self@),
    {
        let items = self.iter();
        let ghost es = entries(self@);
        if items.len() == 0 {
            proof {
                reveal_strlit("0");
            }
            let mut s = String::new();
            push_str(&mut s, "0");
            return s;
        }
        if items.len() == 1 {
            return items[0].to_string(ctx);
        }
        let mut s = String::new();
        push_str(&mut s, "(");
        let first = items[0].to_string(ctx);
        push_str(&mut s, first.as_str());
        let mut i: usize = 1;
        assert(es.drop_first().subrange(0, 0) =~= Seq::<(nat, DecimalView)>::empty());
        while i < items.len()
            invariant
                1 <= i <= items.len(),
                items.len() == es.len(),
                es == entries(self@),
                forall|k: int|
                    0 <= k < items.len() ==> (#[trigger] items[k]).commodity.0 == es[k].0
                        && items[k].value@ == es[k].1,
                s@ == "("@ + entry_text(ctx.commodities, es[0]) + tail_text(
                    ctx.commodities,
                    es.drop_first().subrange(0, i - 1),
                ),
            decreases items.len() - i,
        {
            let it = items[i];
            let ghost prefix = es.drop_first().subrange(0, i as int);
            assert(prefix.drop_last() =~= es.drop_first().subrange(0, i - 1));
            assert(prefix.last() == es[i as int]);
            if it.value.is_sign_negative() {
                proof {
                    reveal_strlit(" - ");
                }
                push_str(&mut s, " - ");
                let t = it.abs().to_string(ctx);
                push_str(&mut s, t.as_str());
            } else {
                proof {
                    reveal_strlit(" + ");
                }
                push_str(&mut s, " + ");
                let t = it.to_string(ctx);
                push_str(&mut s, t.as_str());
            }
            assert(s@ =~= "("@ + entry_text(ctx.commodities, es[0]) + tail_text(ctx.commodities, prefix));
            i = i + 1;
        }
        assert(es.drop_first().subrange(0, items.len() - 1) =~= es.drop_first());
        proof {
            reveal_strlit(")");
            reveal_strlit("(");
        }
        push_str(&mut s, ")");
        s
    }

    /// Difference `expected - self` as an amount, zero when consistent: a zero `expected`
    /// wants every value zero, a single one wants its commodity to hold exactly that value.
    pub fn assert_balance(&self, expected: &PostingAmount) -> (r: Result<Self, EvalError>)
        ensures
            *expected is Zero ==> (amount_is_zero(self@) ==> (r matches Ok(x) && x@.len() == 0))
                && (!amount_is_zero(self@) ==> (r matches Ok(x) && x@ == amount_neg(self@))),
            *expected matches PostingAmount::Single(e) ==> match decimal_checked_sub(
                e.value@,
                match amt_get(self@, e.commodity.0 as nat) {
                    Some(v) => v,
                    None => zero_view(),
                },
            ) {
                Some(d) => (d.1 == 0 ==> (r matches Ok(x) && x@.len() == 0)) && (d.1 != 0
                    ==> (r matches Ok(x) && amt_get(x@, e.commodity.0 as nat) == Some(d) && forall|
                    c: nat,
                | c != e.commodity.0 ==> #[trigger] amt_get(x@, c) is None)),
                None => r == Err::<Self, EvalError>(EvalError::NumberOverflow),
            },
    {
        match expected {
            PostingAmount::Zero => {
                if self.is_zero() {
                    Ok(Amount::zero())
                } else {
                    Ok(self.clone().negate())
                }
            },
            PostingAmount::Single(single) => {
                let part = self.get_part(single.commodity);
                match single.value.checked_sub(part) {
                    None => Err(EvalError::NumberOverflow),
                    Some(diff) => {
                        if diff.is_zero() {
                            Ok(Amount::zero())
                        } else {
                            Ok(Amount::from_value(single.commodity, diff))
                        }
                    },
                }
            },
        }
    }
    /// `true` if the amount meets the expected balance, see [`consistent`].
    pub fn is_consistent(&self, expected: &PostingAmount) -> (r: bool)
        ensures
            r == consistent(self@, *expected),
    {
        match expected {
            PostingAmount::Zero => self.is_zero(),
            PostingAmount::Single(single) => single.value.value_eq(&self.get_part(single.commodity)),
        }
    }
}

} // verus!
