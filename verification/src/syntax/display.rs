//! Printing of the syntax tree: how the amounts of each commodity are printed, and the
//! Ledger text of the entries, with the amounts aligned on their commodity.
use crate::date::{date_format_ymd, Date};
use crate::decimal::{decimal_normalize, decimal_rescale, DecimalView};
use crate::pretty::{format_code, pretty_display, Format, PrettyDecimal};
use crate::syntax::expr::{Amount, Expr, ValueExpr};
use crate::syntax::span::TrackedValue;
use crate::syntax::{
    AccountDetail, ClearState, CommodityDetail, Exchange, LedgerEntry, Lot, Metadata, MetadataValue, Posting,
    Transaction,
};
use crate::text::{lines_of, push_char, push_str, split_lines, str_eq, texts};
use vstd::prelude::*;

verus! {

/// How the amounts of a commodity are printed.
#[derive(Debug, PartialEq, Eq, Structural, Clone, Copy)]
pub struct CommodityDisplayOption {
    /// Format of the decimal, `None` to keep that of the literal.
    pub format: Option<Format>,
    /// The least scale of the decimal, `None` to keep that of the literal.
    pub min_scale: Option<u8>,
}

impl Default for CommodityDisplayOption {
    fn default() -> (r: CommodityDisplayOption)
        ensures
            r.format is None,
            r.min_scale is None,
    {
        CommodityDisplayOption { format: None, min_scale: None }
    }
}

/// No format and no least scale.
pub open spec fn no_option() -> CommodityDisplayOption {
    CommodityDisplayOption { format: None, min_scale: None }
}

/// The option of the first entry from `i` on for the commodity.
pub open spec fn option_from(v: Seq<(String, CommodityDisplayOption)>, c: Seq<char>, i: int) -> Option<CommodityDisplayOption>
    decreases v.len() - i,
{
    if i < 0 || i >= v.len() {
        None
    } else if v[i].0@ == c {
        Some(v[i].1)
    } else {
        option_from(v, c, i + 1)
    }
}

/// Context of the printing: the option of every commodity not overridden, and the
/// overrides (the first one of a commodity counts).
#[derive(Debug, Clone)]
pub struct DisplayContext {
    pub default_commodity: CommodityDisplayOption,
    pub commodity_overrides: Vec<(String, CommodityDisplayOption)>,
}

/// The format of the commodity: that of its override, else the default one.
pub open spec fn format_of(ctx: DisplayContext, c: Seq<char>) -> Option<Format> {
    match option_from(ctx.commodity_overrides@, c, 0) {
        Some(o) => if o.format is Some { o.format } else { ctx.default_commodity.format },
        None => ctx.default_commodity.format,
    }
}

/// The least scale of the commodity: that of its override, else the default one.
pub open spec fn min_scale_of(ctx: DisplayContext, c: Seq<char>) -> Option<u8> {
    match option_from(ctx.commodity_overrides@, c, 0) {
        Some(o) => if o.min_scale is Some { o.min_scale } else { ctx.default_commodity.min_scale },
        None => ctx.default_commodity.min_scale,
    }
}

impl Default for DisplayContext {
    fn default() -> (r: DisplayContext)
        ensures
            r.default_commodity == no_option(),
            r.commodity_overrides@.len() == 0,
    {
        DisplayContext { default_commodity: CommodityDisplayOption { format: None, min_scale: None }, commodity_overrides: Vec::new() }
    }
}

impl DisplayContext {
    /// The context of the default option and the overrides.
    pub fn new(default_commodity: CommodityDisplayOption, commodity_overrides: Vec<(String, CommodityDisplayOption)>) -> (r: DisplayContext)
        ensures
            r.default_commodity == default_commodity,
            r.commodity_overrides@ == commodity_overrides@,
    {
        DisplayContext { default_commodity, commodity_overrides }
    }

    /// The override of the commodity, if any.
    fn find_override(&self, commodity: &str) -> (r: Option<CommodityDisplayOption>)
        ensures
            r == option_from(self.commodity_overrides@, commodity@, 0),
    {
        let mut i: usize = 0;
        while i < self.commodity_overrides.len()
            invariant
                i <= self.commodity_overrides@.len(),
                option_from(self.commodity_overrides@, commodity@, 0) == option_from(self.commodity_overrides@, commodity@, i as int),
            decreases self.commodity_overrides@.len() - i,
        {
            if str_eq(self.commodity_overrides[i].0.as_str(), commodity) {
                return Some(self.commodity_overrides[i].1);
            }
            i = i + 1;
        }
        None
    }

    /// The format of the decimals of the commodity, see [`format_of`].
    pub fn decimal_format(&self, commodity: &str) -> (r: Option<Format>)
        ensures
            r == format_of(*self, commodity@),
    {
        match self.find_override(commodity) {
            Some(o) => if o.format.is_some() { o.format } else { self.default_commodity.format },
            None => self.default_commodity.format,
        }
    }

    /// The least scale of the decimals of the commodity, see [`min_scale_of`].
    pub fn min_scale(&self, commodity: &str) -> (r: Option<u8>)
        ensures
            r == min_scale_of(*self, commodity@),
    {
        match self.find_override(commodity) {
            Some(o) => if o.min_scale.is_some() { o.min_scale } else { self.default_commodity.min_scale },
            None => self.default_commodity.min_scale,
        }
    }
}

/// Rank of a format: the more a format tells, the higher.
pub open spec fn format_rank(f: Option<Format>) -> int {
    format_code(f)
}

/// The format that tells more of the two, the first one on a tie.
pub open spec fn join_format_spec(x: Option<Format>, y: Option<Format>) -> Option<Format> {
    if format_rank(y) > format_rank(x) { y } else { x }
}

/// The larger least scale, `None` being the least.
pub open spec fn max_scale(x: Option<u8>, y: Option<u8>) -> Option<u8> {
    match (x, y) {
        (Some(a), Some(b)) => if a >= b { Some(a) } else { Some(b) },
        (Some(a), None) => Some(a),
        (None, b) => b,
    }
}

/// The option that prints no less than either.
pub open spec fn join_option_spec(x: CommodityDisplayOption, y: CommodityDisplayOption) -> CommodityDisplayOption {
    CommodityDisplayOption { format: join_format_spec(x.format, y.format), min_scale: max_scale(x.min_scale, y.min_scale) }
}

/// The format that tells more of the two, see [`join_format_spec`].
pub fn join_format(x: Option<Format>, y: Option<Format>) -> (r: Option<Format>)
    ensures
        r == join_format_spec(x, y),
{
    let rank_x: u8 = match x {
        None => 0,
        Some(Format::Plain) => 1,
        Some(Format::Comma3Dot) => 2,
    };
    let rank_y: u8 = match y {
        None => 0,
        Some(Format::Plain) => 1,
        Some(Format::Comma3Dot) => 2,
    };
    if rank_y > rank_x { y } else { x }
}

/// The option that prints no less than either, see [`join_option_spec`].
pub fn join_option(x: CommodityDisplayOption, y: CommodityDisplayOption) -> (r: CommodityDisplayOption)
    ensures
        r == join_option_spec(x, y),
{
    let min_scale = match (x.min_scale, y.min_scale) {
        (Some(a), Some(b)) => if a >= b { Some(a) } else { Some(b) },
        (Some(a), None) => Some(a),
        (None, b) => b,
    };
    CommodityDisplayOption { format: join_format(x.format, y.format), min_scale }
}

/// The option a literal implies: its format, and its scale as the least scale (255 at most).
pub open spec fn literal_option(p: PrettyDecimal) -> CommodityDisplayOption {
    CommodityDisplayOption {
        format: p.format,
        min_scale: Some(if p.value@.2 <= 255 { p.value@.2 as u8 } else { 255u8 }),
    }
}

/// The option a literal implies, see [`literal_option`].
pub fn as_display_option(value: &PrettyDecimal) -> (r: CommodityDisplayOption)
    ensures
        r == literal_option(*value),
{
    let scale = value.scale();
    let min_scale: u8 = if scale <= 255 { scale as u8 } else { 255 };
    CommodityDisplayOption { format: value.format, min_scale: Some(min_scale) }
}

/// What is known of a commodity: the option declared, and the option of its literals.
#[derive(Debug, PartialEq, Eq, Structural, Clone, Copy)]
pub struct CommodityEstimate {
    pub declared: CommodityDisplayOption,
    pub observed: CommodityDisplayOption,
}

/// Nothing known of a commodity.
pub open spec fn no_estimate() -> CommodityEstimate {
    CommodityEstimate { declared: no_option(), observed: no_option() }
}

/// An option seen for a commodity: declared, or observed on a literal.
pub type Sample = (Seq<char>, bool, CommodityDisplayOption);

/// One sample on the estimate of the commodity: joined with what was declared, or with
/// what was observed; nothing for a sample of another commodity.
pub open spec fn step(e: CommodityEstimate, x: Sample, c: Seq<char>) -> CommodityEstimate {
    if x.0 != c {
        e
    } else if x.1 {
        CommodityEstimate { declared: join_option_spec(e.declared, x.2), ..e }
    } else {
        CommodityEstimate { observed: join_option_spec(e.observed, x.2), ..e }
    }
}

/// The estimate after the samples of the commodity.
pub open spec fn fold_samples(e: CommodityEstimate, ss: Seq<Sample>, c: Seq<char>) -> CommodityEstimate
    decreases ss.len(),
{
    if ss.len() == 0 {
        e
    } else {
        step(fold_samples(e, ss.drop_last(), c), ss.last(), c)
    }
}

/// The samples of the literals of an expression that have a commodity, in order.
pub open spec fn expr_samples(e: Expr) -> Seq<Sample>
    decreases e,
{
    match e {
        Expr::Unary(u) => expr_samples(*u.expr),
        Expr::Binary(b) => expr_samples(*b.lhs) + expr_samples(*b.rhs),
        Expr::Value(v) => match *v {
            ValueExpr::Amount(a) => if a.commodity@.len() == 0 {
                Seq::empty()
            } else {
                seq![(a.commodity@, false, literal_option(a.value))]
            },
            ValueExpr::Paren(inner) => expr_samples(inner),
        },
    }
}

/// The samples of a posting: its amount, then its balance (not its cost nor its lot price,
/// whose rates often carry more digits than the commodity).
pub open spec fn posting_samples(p: Posting) -> Seq<Sample> {
    amount_samples(p) + balance_samples(p)
}

/// The samples of the amount of a posting.
pub open spec fn amount_samples(p: Posting) -> Seq<Sample> {
    match p.amount {
        Some(a) => expr_samples(a.amount.value),
        None => Seq::empty(),
    }
}

/// The samples of the balance of a posting.
pub open spec fn balance_samples(p: Posting) -> Seq<Sample> {
    match p.balance {
        Some(b) => expr_samples(b.value),
        None => Seq::empty(),
    }
}

/// The samples of the postings, in order.
pub open spec fn postings_samples(ps: Seq<Posting>) -> Seq<Sample>
    decreases ps.len(),
{
    if ps.len() == 0 {
        Seq::empty()
    } else {
        postings_samples(ps.drop_last()) + posting_samples(ps.last())
    }
}

/// The sample a `format` detail of a commodity declaration declares: keyed on the commodity
/// of its amount, or on the declared name when the amount has none.
pub open spec fn format_sample(name: Seq<char>, a: Amount) -> Sample {
    (if a.commodity@.len() == 0 { name } else { a.commodity@ }, true, literal_option(a.value))
}

/// The samples of the details of a commodity declaration, in order.
pub open spec fn details_samples(name: Seq<char>, ds: Seq<CommodityDetail>) -> Seq<Sample>
    decreases ds.len(),
{
    if ds.len() == 0 {
        Seq::empty()
    } else {
        details_samples(name, ds.drop_last()) + match ds.last() {
            CommodityDetail::Format(a) => seq![format_sample(name, a)],
            _ => Seq::empty(),
        }
    }
}

/// The samples of an entry: the amounts of a transaction's postings, or the formats of a
/// commodity declaration; nothing for the other entries.
pub open spec fn entry_samples(entry: LedgerEntry) -> Seq<Sample> {
    match entry {
        LedgerEntry::Txn(t) => postings_samples(t.posts@.map_values(|p: TrackedValue<Posting>| p.value)),
        LedgerEntry::Commodity(d) => details_samples(d.name@, d.details@),
        _ => Seq::empty(),
    }
}

/// The first index from `i` on of the commodity among the keys, or `-1`.
pub open spec fn key_from(keys: Seq<String>, c: Seq<char>, i: int) -> int
    decreases keys.len() - i,
{
    if i < 0 || i >= keys.len() {
        -1
    } else if keys[i]@ == c {
        i
    } else {
        key_from(keys, c, i + 1)
    }
}

/// Builder of a [`DisplayContext`] out of the declarations and the literals of a Ledger.
#[derive(Debug, Clone)]
pub struct DisplayContextBuilder {
    pub default_commodity: CommodityDisplayOption,
    /// The commodities seen, and what is known of each, at the same index.
    pub commodities: Vec<String>,
    pub estimates: Vec<CommodityEstimate>,
}

impl DisplayContextBuilder {
    /// Lengths match.
    pub open spec fn wf(&self) -> bool {
        self.commodities@.len() == self.estimates@.len()
    }

    /// What is known of the commodity.
    pub open spec fn estimate(&self, c: Seq<char>) -> CommodityEstimate {
        let i = key_from(self.commodities@, c, 0);
        if i < 0 { no_estimate() } else { self.estimates@[i] }
    }

    /// The builder that has seen nothing.
    pub fn new() -> (r: DisplayContextBuilder)
        ensures
            r.wf(),
            r.default_commodity == no_option(),
            r.commodities@.len() == 0,
    {
        DisplayContextBuilder { default_commodity: CommodityDisplayOption { format: None, min_scale: None }, commodities: Vec::new(), estimates: Vec::new() }
    }

    /// The builder with the option of the commodities it never saw.
    pub fn with_default_commodity(self, default_commodity: CommodityDisplayOption) -> (r: DisplayContextBuilder)
        ensures
            r.default_commodity == default_commodity,
            r.commodities == self.commodities,
            r.estimates == self.estimates,
    {
        DisplayContextBuilder { default_commodity, ..self }
    }

    /// Adds a sample of the commodity: the declared option (or the observed one) is joined
    /// with the option.
    fn add_sample(&mut self, commodity: &str, declared: bool, option: CommodityDisplayOption)
        requires
            old(self).wf(),
        ensures
            final(self).wf(),
            final(self).default_commodity == old(self).default_commodity,
            forall|c: Seq<char>| #[trigger] final(self).estimate(c) == fold_samples(old(self).estimate(c), seq![(commodity@, declared, option)], c),
    {
        let ghost s: Sample = (commodity@, declared, option);
        let mut i: usize = 0;
        while i < self.commodities.len()
            invariant
                i <= self.commodities@.len(),
                self.wf(),
                forall|m: int| 0 <= m < i ==> self.commodities@[m]@ != commodity@,
            ensures
                i <= self.commodities@.len(),
                self.wf(),
                forall|m: int| 0 <= m < i ==> self.commodities@[m]@ != commodity@,
                i < self.commodities@.len() ==> self.commodities@[i as int]@ == commodity@,
            decreases self.commodities@.len() - i,
        {
            if str_eq(self.commodities[i].as_str(), commodity) {
                break;
            }
            i = i + 1;
        }
        let ghost before = *self;
        let current = if i < self.commodities.len() {
            self.estimates[i]
        } else {
            self.commodities.push(commodity.to_string());
            self.estimates.push(CommodityEstimate { declared: CommodityDisplayOption { format: None, min_scale: None }, observed: CommodityDisplayOption { format: None, min_scale: None } });
            CommodityEstimate { declared: CommodityDisplayOption { format: None, min_scale: None }, observed: CommodityDisplayOption { format: None, min_scale: None } }
        };
        let updated = if declared {
            CommodityEstimate { declared: join_option(current.declared, option), observed: current.observed }
        } else {
            CommodityEstimate { declared: current.declared, observed: join_option(current.observed, option) }
        };
        self.estimates.set(i, updated);
        proof {
            assert(seq![s].drop_last() =~= Seq::<Sample>::empty());
            assert forall|c: Seq<char>| #[trigger] self.estimate(c) == fold_samples(before.estimate(c), seq![s], c) by {
                lemma_key_from_push_or_same(before.commodities@, self.commodities@, commodity@, c, i as int, 0);
                lemma_key_from_push_or_same(before.commodities@, self.commodities@, commodity@, commodity@, i as int, 0);
                lemma_key_from_found(before.commodities@, c, 0);
                lemma_key_from_found(before.commodities@, commodity@, 0);
                assert(fold_samples(before.estimate(c), seq![s].drop_last(), c) == before.estimate(c));
                assert(seq![s].last() == s);
                if c == commodity@ {
                    assert(before.estimate(c) == current);
                    assert(self.estimate(c) == updated);
                } else {
                    let j = key_from(before.commodities@, c, 0);
                    if j >= 0 {
                        assert(j != i);
                        assert(self.estimates@[j] == before.estimates@[j]);
                    }
                }
            }
        }
    }

    /// Declares the option of the commodity, joined with what was declared before.
    pub fn declare(&mut self, commodity: &str, option: CommodityDisplayOption)
        requires
            old(self).wf(),
        ensures
            final(self).wf(),
            final(self).default_commodity == old(self).default_commodity,
            forall|c: Seq<char>| #[trigger] final(self).estimate(c) == fold_samples(old(self).estimate(c), seq![(commodity@, true, option)], c),
    {
        self.add_sample(commodity, true, option);
    }

    /// Observes the literals of the expression that have a commodity.
    fn observe_expr(&mut self, e: &Expr)
        requires
            old(self).wf(),
        ensures
            final(self).wf(),
            final(self).default_commodity == old(self).default_commodity,
            forall|c: Seq<char>| #[trigger] final(self).estimate(c) == fold_samples(old(self).estimate(c), expr_samples(*e), c),
        decreases e,
    {
        let ghost start = *self;
        match e {
            Expr::Unary(u) => {
                self.observe_expr(&u.expr);
            },
            Expr::Binary(b) => {
                self.observe_expr(&b.lhs);
                let ghost mid = *self;
                self.observe_expr(&b.rhs);
                proof {
                    assert forall|c: Seq<char>| #[trigger] self.estimate(c) == fold_samples(start.estimate(c), expr_samples(*e), c) by {
                        lemma_fold_concat(start.estimate(c), expr_samples(*b.lhs), expr_samples(*b.rhs), c);
                        assert(mid.estimate(c) == fold_samples(start.estimate(c), expr_samples(*b.lhs), c));
                    }
                }
            },
            Expr::Value(v) => match &**v {
                ValueExpr::Amount(a) => {
                    if !a.commodity.as_str().is_empty() {
                        let option = as_display_option(&a.value);
                        self.add_sample(a.commodity.as_str(), false, option);
                    } else {
                        proof {
                            assert forall|c: Seq<char>| #[trigger] self.estimate(c) == fold_samples(start.estimate(c), expr_samples(*e), c) by {
                                assert(expr_samples(*e) =~= Seq::<Sample>::empty());
                            }
                        }
                    }
                },
                ValueExpr::Paren(inner) => {
                    self.observe_expr(inner);
                },
            },
        }
    }

    /// Observes the amount and the balance of the posting.
    fn observe_posting(&mut self, p: &Posting)
        requires
            old(self).wf(),
        ensures
            final(self).wf(),
            final(self).default_commodity == old(self).default_commodity,
            forall|c: Seq<char>| #[trigger] final(self).estimate(c) == fold_samples(old(self).estimate(c), posting_samples(*p), c),
    {
        let ghost start = *self;
        let ghost sa = amount_samples(*p);
        let ghost sb = balance_samples(*p);
        match &p.amount {
            Some(a) => {
                self.observe_expr(&a.amount.value);
            },
            None => {},
        }
        let ghost mid = *self;
        match &p.balance {
            Some(b) => {
                self.observe_expr(&b.value);
            },
            None => {},
        }
        proof {
            assert forall|c: Seq<char>| #[trigger] self.estimate(c) == fold_samples(start.estimate(c), posting_samples(*p), c) by {
                lemma_fold_concat(start.estimate(c), sa, sb, c);
                assert(fold_samples(start.estimate(c), Seq::<Sample>::empty(), c) == start.estimate(c));
                assert(fold_samples(mid.estimate(c), Seq::<Sample>::empty(), c) == mid.estimate(c));
                assert(mid.estimate(c) == fold_samples(start.estimate(c), sa, c));
                assert(posting_samples(*p) == sa + sb);
            }
        }
    }

    /// Observes the entry: the amounts and the balances of a transaction's postings, or the
    /// formats of a commodity declaration, see [`entry_samples`].
    pub fn observe(&mut self, entry: &LedgerEntry)
        requires
            old(self).wf(),
        ensures
            final(self).wf(),
            final(self).default_commodity == old(self).default_commodity,
            forall|c: Seq<char>| #[trigger] final(self).estimate(c) == fold_samples(old(self).estimate(c), entry_samples(*entry), c),
    {
        let ghost start = *self;
        match entry {
            LedgerEntry::Txn(t) => {
                let ghost posts = t.posts@.map_values(|p: TrackedValue<Posting>| p.value);
                let mut i: usize = 0;
                while i < t.posts.len()
                    invariant
                        i <= t.posts@.len(),
                        self.wf(),
                        self.default_commodity == start.default_commodity,
                        posts == t.posts@.map_values(|p: TrackedValue<Posting>| p.value),
                        forall|c: Seq<char>| #[trigger] self.estimate(c) == fold_samples(start.estimate(c), postings_samples(posts.subrange(0, i as int)), c),
                    decreases t.posts@.len() - i,
                {
                    let ghost before = *self;
                    self.observe_posting(&t.posts[i].value);
                    i = i + 1;
                    proof {
                        assert(posts.subrange(0, i as int).drop_last() =~= posts.subrange(0, i - 1));
                        assert(posts.subrange(0, i as int).last() == t.posts@[i - 1].value);
                        assert forall|c: Seq<char>| #[trigger] self.estimate(c) == fold_samples(start.estimate(c), postings_samples(posts.subrange(0, i as int)), c) by {
                            lemma_fold_concat(start.estimate(c), postings_samples(posts.subrange(0, i - 1)), posting_samples(t.posts@[i - 1].value), c);
                            assert(before.estimate(c) == fold_samples(start.estimate(c), postings_samples(posts.subrange(0, i - 1)), c));
                        }
                    }
                }
                assert(posts.subrange(0, i as int) =~= posts);
            },
            LedgerEntry::Commodity(d) => {
                let mut i: usize = 0;
                while i < d.details.len()
                    invariant
                        i <= d.details@.len(),
                        self.wf(),
                        self.default_commodity == start.default_commodity,
                        forall|c: Seq<char>| #[trigger] self.estimate(c) == fold_samples(start.estimate(c), details_samples(d.name@, d.details@.subrange(0, i as int)), c),
                    decreases d.details@.len() - i,
                {
                    let ghost before = *self;
                    let ghost ds = d.details@.subrange(0, i + 1);
                    proof {
                        assert(ds.drop_last() =~= d.details@.subrange(0, i as int));
                        assert(ds.last() == d.details@[i as int]);
                    }
                    match &d.details[i] {
                        CommodityDetail::Format(a) => {
                            let commodity: &str = if a.commodity.as_str().is_empty() { d.name.as_str() } else { a.commodity.as_str() };
                            let option = as_display_option(&a.value);
                            self.add_sample(commodity, true, option);
                            proof {
                                assert forall|c: Seq<char>| #[trigger] self.estimate(c) == fold_samples(start.estimate(c), details_samples(d.name@, ds), c) by {
                                    lemma_fold_concat(start.estimate(c), details_samples(d.name@, d.details@.subrange(0, i as int)), seq![format_sample(d.name@, *a)], c);
                                    assert(before.estimate(c) == fold_samples(start.estimate(c), details_samples(d.name@, d.details@.subrange(0, i as int)), c));
                                }
                            }
                        },
                        _ => {
                            proof {
                                assert forall|c: Seq<char>| #[trigger] self.estimate(c) == fold_samples(start.estimate(c), details_samples(d.name@, ds), c) by {
                                    assert(details_samples(d.name@, ds) =~= details_samples(d.name@, d.details@.subrange(0, i as int)));
                                }
                            }
                        },
                    }
                    i = i + 1;
                }
                assert(d.details@.subrange(0, i as int) =~= d.details@);
            },
            _ => {
                proof {
                    assert forall|c: Seq<char>| #[trigger] self.estimate(c) == fold_samples(start.estimate(c), entry_samples(*entry), c) by {
                        assert(entry_samples(*entry) =~= Seq::<Sample>::empty());
                    }
                }
            },
        }
    }

    /// The context of what was seen: the default option, and for each commodity seen its
    /// declared format and least scale, else the observed ones.
    pub fn build(self) -> (r: DisplayContext)
        requires
            self.wf(),
        ensures
            r.default_commodity == self.default_commodity,
            forall|c: Seq<char>| #[trigger] option_from(r.commodity_overrides@, c, 0) == if key_from(self.commodities@, c, 0) < 0 {
                None
            } else {
                Some(resolved(self.estimate(c)))
            },
    {
        let mut overrides: Vec<(String, CommodityDisplayOption)> = Vec::new();
        let mut i: usize = 0;
        while i < self.commodities.len()
            invariant
                i <= self.commodities@.len(),
                self.wf(),
                overrides@.len() == i,
                forall|j: int| 0 <= j < i ==> (#[trigger] overrides@[j]).0@ == self.commodities@[j]@ && overrides@[j].1 == resolved(self.estimates@[j]),
            decreases self.commodities@.len() - i,
        {
            let e = self.estimates[i];
            overrides.push((self.commodities[i].clone(), resolve(e)));
            i = i + 1;
        }
        proof {
            assert forall|c: Seq<char>| #[trigger] option_from(overrides@, c, 0) == if key_from(self.commodities@, c, 0) < 0 {
                None
            } else {
                Some(resolved(self.estimate(c)))
            } by {
                lemma_option_from_keys(self.commodities@, self.estimates@, overrides@, c, 0);
            }
        }
        DisplayContext { default_commodity: self.default_commodity, commodity_overrides: overrides }
    }
}

/// The option of an estimate: what was declared, else what was observed, field by field.
pub open spec fn resolved(e: CommodityEstimate) -> CommodityDisplayOption {
    CommodityDisplayOption {
        format: if e.declared.format is Some { e.declared.format } else { e.observed.format },
        min_scale: if e.declared.min_scale is Some { e.declared.min_scale } else { e.observed.min_scale },
    }
}

/// The option of an estimate, see [`resolved`].
fn resolve(e: CommodityEstimate) -> (r: CommodityDisplayOption)
    ensures
        r == resolved(e),
{
    CommodityDisplayOption {
        format: if e.declared.format.is_some() { e.declared.format } else { e.observed.format },
        min_scale: if e.declared.min_scale.is_some() { e.declared.min_scale } else { e.observed.min_scale },
    }
}

/// Folding two runs of samples is folding the first, then the second.
proof fn lemma_fold_concat(e: CommodityEstimate, a: Seq<Sample>, b: Seq<Sample>, c: Seq<char>)
    ensures
        fold_samples(e, a + b, c) == fold_samples(fold_samples(e, a, c), b, c),
    decreases b.len(),
{
    if b.len() == 0 {
        assert(a + b =~= a);
    } else {
        lemma_fold_concat(e, a, b.drop_last(), c);
        assert((a + b).drop_last() =~= a + b.drop_last());
        assert((a + b).last() == b.last());
    }
}

/// The overrides built from the keys and the estimates find what the keys find.
proof fn lemma_option_from_keys(
    keys: Seq<String>,
    ests: Seq<CommodityEstimate>,
    ov: Seq<(String, CommodityDisplayOption)>,
    c: Seq<char>,
    i: int,
)
    requires
        0 <= i <= keys.len(),
        keys.len() == ests.len(),
        ov.len() == keys.len(),
        forall|j: int| 0 <= j < keys.len() ==> (#[trigger] ov[j]).0@ == keys[j]@ && ov[j].1 == resolved(ests[j]),
    ensures
        option_from(ov, c, i) == if key_from(keys, c, i) < 0 { None } else { Some(resolved(ests[key_from(keys, c, i)])) },
    decreases keys.len() - i,
{
    if i < keys.len() {
        assert(ov[i].0@ == keys[i]@);
        lemma_option_from_keys(keys, ests, ov, c, i + 1);
    }
}

/// The index found is `-1`, or one from `i` on whose key is the commodity.
proof fn lemma_key_from_found(keys: Seq<String>, c: Seq<char>, i: int)
    requires
        0 <= i,
    ensures
        key_from(keys, c, i) == -1 || (i <= key_from(keys, c, i) < keys.len() && keys[key_from(keys, c, i)]@ == c),
    decreases keys.len() - i,
{
    if i < keys.len() && keys[i]@ != c {
        lemma_key_from_found(keys, c, i + 1);
    }
}

/// After the key `k` is found at `i`, or pushed at `i`, every key other than `k` keeps its
/// index, and `k` is at `i`.
proof fn lemma_key_from_push_or_same(before: Seq<String>, after: Seq<String>, k: Seq<char>, c: Seq<char>, i: int, j: int)
    requires
        0 <= j <= i <= before.len(),
        forall|m: int| 0 <= m < i ==> before[m]@ != k,
        i < before.len() ==> before[i]@ == k && after == before,
        i == before.len() ==> after.len() == before.len() + 1 && after[i]@ == k && forall|m: int|
            0 <= m < before.len() ==> after[m] == before[m],
    ensures
        c == k ==> key_from(after, c, j) == i,
        c != k ==> key_from(after, c, j) == key_from(before, c, j),
    decreases i - j,
{
    if j < i {
        lemma_key_from_push_or_same(before, after, k, c, i, j + 1);
        assert(after[j] == before[j]);
    } else if i == before.len() && c != k {
        assert(key_from(after, c, i + 1) == -1);
    }
}

/// Display width of the text, as `unicode_width::UnicodeWidthStr::width_cjk` counts it.
pub uninterp spec fn text_width_cjk(s: Seq<char>) -> nat;

/// Display width of the text, as `unicode_width::UnicodeWidthStr::width` counts it.
pub uninterp spec fn text_width(s: Seq<char>) -> nat;

/// `unicode_width::UnicodeWidthStr::width_cjk`.
#[verifier::external_body]
fn width_cjk(s: &str) -> (r: usize)
    ensures
        r == text_width_cjk(s@),
{
    unicode_width::UnicodeWidthStr::width_cjk(s)
}

/// `unicode_width::UnicodeWidthStr::width`.
#[verifier::external_body]
fn width(s: &str) -> (r: usize)
    ensures
        r == text_width(s@),
{
    unicode_width::UnicodeWidthStr::width(s)
}

/// Where an amount aligns: the width printed before the alignment point, and whether a
/// commodity was met (the point is after the number of the first amount with one).
#[derive(Debug, PartialEq, Eq, Structural, Clone, Copy)]
pub enum Alignment {
    /// No commodity yet: the width of all that was printed.
    Partial(usize),
    /// A commodity was met: the width up to its number's end.
    Complete(usize),
}

/// `a + b`, saturated at `usize::MAX`.
pub open spec fn sat_add(a: usize, b: usize) -> usize {
    if a + b > usize::MAX { usize::MAX } else { (a + b) as usize }
}

/// `a - b`, saturated at zero.
pub open spec fn sat_sub(a: usize, b: usize) -> usize {
    if a < b { 0 } else { (a - b) as usize }
}

/// The width regardless of the kind.
pub open spec fn absolute(a: Alignment) -> usize {
    match a {
        Alignment::Partial(x) => x,
        Alignment::Complete(x) => x,
    }
}

/// The alignment inside a prefix and a suffix: a partial one covers both, a complete one
/// only the prefix.
pub open spec fn plus(a: Alignment, prefix: usize, suffix: usize) -> Alignment {
    match a {
        Alignment::Partial(x) => Alignment::Partial(sat_add(sat_add(prefix, x), suffix)),
        Alignment::Complete(x) => Alignment::Complete(sat_add(prefix, x)),
    }
}

impl Alignment {
    /// The width regardless of the kind, see [`absolute`].
    pub fn absolute(self) -> (r: usize)
        ensures
            r == absolute(self),
    {
        match self {
            Alignment::Partial(x) => x,
            Alignment::Complete(x) => x,
        }
    }

    /// See [`plus`].
    pub fn plus(self, prefix: usize, suffix: usize) -> (r: Alignment)
        ensures
            r == plus(self, prefix, suffix),
    {
        match self {
            Alignment::Partial(x) => Alignment::Partial(prefix.saturating_add(x).saturating_add(suffix)),
            Alignment::Complete(x) => Alignment::Complete(prefix.saturating_add(x)),
        }
    }
}

/// The decimal of the amount as printed: at least the least scale of its commodity (after
/// dropping trailing zeros), in the format of its commodity, else its own.
pub open spec fn rescaled(ctx: DisplayContext, a: Amount) -> (Option<Format>, DecimalView) {
    let v = match min_scale_of(ctx, a.commodity@) {
        Some(m) => {
            let n = decimal_normalize(a.value.value@);
            decimal_rescale(n, if m as nat > n.2 { m as nat } else { n.2 })
        },
        None => a.value.value@,
    };
    let f = match format_of(ctx, a.commodity@) {
        Some(f) => Some(f),
        None => a.value.format,
    };
    (f, v)
}

/// The number of an amount as printed.
pub open spec fn number_text(ctx: DisplayContext, a: Amount) -> Seq<char> {
    let (f, v) = rescaled(ctx, a);
    pretty_display(format_code(f), v)
}

/// The byte length of the text, as `str::len` gives it.
pub open spec fn byte_len(s: Seq<char>) -> usize {
    vstd::utf8::encode_utf8(s).len() as usize
}

/// An amount: its number, then a space and its commodity if it has one; it aligns after
/// its number, completely if it has a commodity.
pub open spec fn amount_fmt(ctx: DisplayContext, a: Amount) -> (Seq<char>, Alignment) {
    let n = number_text(ctx, a);
    if a.commodity@.len() == 0 {
        (n, Alignment::Partial(byte_len(n)))
    } else {
        (n + " "@ + a.commodity@, Alignment::Complete(byte_len(n)))
    }
}

/// An expression, with its alignment: `(e)` adds one on each side; `-e` one before; in
/// `a op b` the alignment of `a` if complete, else the width of `a op ` and that of `b`.
pub open spec fn expr_fmt(ctx: DisplayContext, e: Expr) -> (Seq<char>, Alignment)
    decreases e,
{
    match e {
        Expr::Unary(u) => {
            let (t, a) = expr_fmt(ctx, *u.expr);
            ("-"@ + t, plus(a, 1, 0))
        },
        Expr::Binary(b) => {
            let (t1, a1) = expr_fmt(ctx, *b.lhs);
            let (t2, a2) = expr_fmt(ctx, *b.rhs);
            (
                t1 + " "@ + op_text(b.op) + " "@ + t2,
                match plus(a1, 0, 3) {
                    Alignment::Complete(x) => Alignment::Complete(x),
                    Alignment::Partial(x) => plus(a2, x, 0),
                },
            )
        },
        Expr::Value(v) => match *v {
            ValueExpr::Amount(a) => amount_fmt(ctx, a),
            ValueExpr::Paren(inner) => {
                let (t, a) = expr_fmt(ctx, inner);
                ("("@ + t + ")"@, plus(a, 1, 1))
            },
        },
    }
}

/// The symbol of a binary operator.
pub open spec fn op_text(op: crate::syntax::expr::BinaryOp) -> Seq<char> {
    match op {
        crate::syntax::expr::BinaryOp::Add => "+"@,
        crate::syntax::expr::BinaryOp::Sub => "-"@,
        crate::syntax::expr::BinaryOp::Mul => "*"@,
        crate::syntax::expr::BinaryOp::Div => "/"@,
    }
}

/// `n` spaces.
pub open spec fn spaces(n: nat) -> Seq<char> {
    Seq::new(n, |i: int| ' ')
}

/// Each line of the content after the prefix, each ended by a newline.
pub open spec fn lines_text(prefix: Seq<char>, ls: Seq<Seq<char>>) -> Seq<char>
    decreases ls.len(),
{
    if ls.len() == 0 {
        Seq::empty()
    } else {
        lines_text(prefix, ls.drop_last()) + prefix + ls.last() + "\n"@
    }
}

/// The lines of the content, each after the prefix.
pub open spec fn wrap_text(prefix: Seq<char>, content: Seq<char>) -> Seq<char> {
    lines_text(prefix, lines_of(content))
}

/// The prefix of a clear state: none, `* ` or `! `.
pub open spec fn clear_text(c: ClearState) -> Seq<char> {
    match c {
        ClearState::Uncleared => ""@,
        ClearState::Cleared => "* "@,
        ClearState::Pending => "! "@,
    }
}

/// A date as `%Y/%m/%d`.
pub open spec fn date_text(d: Date) -> Seq<char> {
    date_format_ymd(d@)
}

/// The value of a metadata: `:: expr` or `: text`.
pub open spec fn metadata_value_text(v: MetadataValue) -> Seq<char> {
    match v {
        MetadataValue::Expr(e) => ":: "@ + e@,
        MetadataValue::Text(t) => ": "@ + t@,
    }
}

/// The tags, each followed by a colon.
pub open spec fn tags_text(tags: Seq<String>) -> Seq<char>
    decreases tags.len(),
{
    if tags.len() == 0 {
        Seq::empty()
    } else {
        tags_text(tags.drop_last()) + tags.last()@ + ":"@
    }
}

/// A metadata line (or lines, for a comment), after `    ; `.
pub open spec fn metadata_text(m: Metadata) -> Seq<char> {
    match m {
        Metadata::WordTags(tags) => "    ; "@ + ":"@ + tags_text(tags@) + "\n"@,
        Metadata::KeyValueTag { key, value } => "    ; "@ + key@ + metadata_value_text(value) + "\n"@,
        Metadata::Comment(c) => wrap_text("    ; "@, c@),
    }
}

/// The metadata, in order.
pub open spec fn metadatas_text(ms: Seq<Metadata>) -> Seq<char>
    decreases ms.len(),
{
    if ms.len() == 0 {
        Seq::empty()
    } else {
        metadatas_text(ms.drop_last()) + metadata_text(ms.last())
    }
}

/// The lot of a posting: its price, date and note.
pub open spec fn lot_text(ctx: DisplayContext, lot: Lot) -> Seq<char> {
    lot_price_text(ctx, lot) + lot_date_text(lot) + lot_note_text(lot)
}

/// The price of a lot: ` {{total}}` or ` {rate}`.
pub open spec fn lot_price_text(ctx: DisplayContext, lot: Lot) -> Seq<char> {
    match lot.price {
        Some(p) => match p.value {
            Exchange::Total(e) => " {{"@ + expr_fmt(ctx, e).0 + "}}"@,
            Exchange::Rate(e) => " {"@ + expr_fmt(ctx, e).0 + "}"@,
        },
        None => Seq::empty(),
    }
}

/// The date of a lot: ` [date]`.
pub open spec fn lot_date_text(lot: Lot) -> Seq<char> {
    match lot.date {
        Some(d) => " ["@ + date_text(d) + "]"@,
        None => Seq::empty(),
    }
}

/// The note of a lot: ` (note)`.
pub open spec fn lot_note_text(lot: Lot) -> Seq<char> {
    match lot.note {
        Some(n) => " ("@ + n@ + ")"@,
        None => Seq::empty(),
    }
}

/// The shift that puts a text at column `colsize` after `left`, with at least `padding`.
pub open spec fn get_column(colsize: usize, left: usize, padding: usize) -> usize {
    if sat_add(left, padding) < colsize { (colsize - left) as usize } else { padding }
}

/// The width of the account of a posting with its clear state.
pub open spec fn account_width(p: Posting) -> usize {
    sat_add(text_width_cjk(p.account@) as usize, text_width(clear_text(p.clear_state)) as usize)
}

/// The amount of a posting, aligned at column 48, then its lot and its cost.
pub open spec fn posting_amount_text(ctx: DisplayContext, p: Posting) -> Seq<char> {
    match p.amount {
        Some(a) => {
            let (t, al) = expr_fmt(ctx, a.amount.value);
            spaces(get_column(48, sat_add(account_width(p), absolute(al)), 2) as nat) + t + lot_text(ctx, a.lot)
                + match a.cost {
                Some(c) => match c.value {
                    Exchange::Rate(e) => " @ "@ + expr_fmt(ctx, e).0,
                    Exchange::Total(e) => " @@ "@ + expr_fmt(ctx, e).0,
                },
                None => Seq::empty(),
            }
        },
        None => Seq::empty(),
    }
}

/// The balance of a posting: ` = balance`, right after an amount, else aligned at column 50.
pub open spec fn posting_balance_text(ctx: DisplayContext, p: Posting) -> Seq<char> {
    match p.balance {
        Some(b) => {
            let (t, al) = expr_fmt(ctx, b.value);
            let trailing = sat_sub(text_width_cjk(t) as usize, absolute(al));
            let padding: usize = if p.amount is Some { 0 } else { get_column(sat_add(50, trailing), account_width(p), 2) };
            spaces(if padding > 2 { (padding - 2) as nat } else { 0 }) + " ="@ + " "@ + t
        },
        None => Seq::empty(),
    }
}

/// A posting line, then its metadata.
pub open spec fn posting_text(ctx: DisplayContext, p: Posting) -> Seq<char> {
    "    "@ + clear_text(p.clear_state) + p.account@ + posting_amount_text(ctx, p) + posting_balance_text(ctx, p) + "\n"@
        + metadatas_text(p.metadata@)
}

/// The postings, in order.
pub open spec fn postings_text(ctx: DisplayContext, ps: Seq<TrackedValue<Posting>>) -> Seq<char>
    decreases ps.len(),
{
    if ps.len() == 0 {
        Seq::empty()
    } else {
        postings_text(ctx, ps.drop_last()) + posting_text(ctx, ps.last().value)
    }
}

/// The first line of a transaction, `date[=effective] [clear ][(code) ]payee`, and its
/// metadata.
pub open spec fn transaction_head_text(t: Transaction) -> Seq<char> {
    date_text(t.date) + (match t.effective_date {
        Some(d) => "="@ + date_text(d),
        None => Seq::empty(),
    }) + " "@ + clear_text(t.clear_state) + (match t.code {
        Some(c) => "("@ + c@ + ") "@,
        None => Seq::empty(),
    }) + t.payee@ + "\n"@ + metadatas_text(t.metadata@)
}

/// The first line of a transaction starts with its date, then, when it has an effective date,
/// `=` and that effective date; without one, the date is followed by a space.
pub proof fn law_head_dates(t: Transaction)
    ensures
        t.effective_date matches Some(d) ==> {
            let p = date_text(t.date) + "="@ + date_text(d);
            p.len() <= transaction_head_text(t).len() && transaction_head_text(t).subrange(0, p.len() as int) == p
        },
        t.effective_date is None ==> {
            let p = date_text(t.date) + " "@;
            p.len() <= transaction_head_text(t).len() && transaction_head_text(t).subrange(0, p.len() as int) == p
        },
{
    let h = transaction_head_text(t);
    match t.effective_date {
        Some(d) => {
            let p = date_text(t.date) + "="@ + date_text(d);
            let rest = " "@ + clear_text(t.clear_state) + (match t.code {
                Some(c) => "("@ + c@ + ") "@,
                None => Seq::empty(),
            }) + t.payee@ + "\n"@ + metadatas_text(t.metadata@);
            assert(h =~= p + rest);
            assert(h.subrange(0, p.len() as int) =~= p);
        },
        None => {
            let p = date_text(t.date) + " "@;
            let rest = clear_text(t.clear_state) + (match t.code {
                Some(c) => "("@ + c@ + ") "@,
                None => Seq::empty(),
            }) + t.payee@ + "\n"@ + metadatas_text(t.metadata@);
            assert(h =~= p + rest);
            assert(h.subrange(0, p.len() as int) =~= p);
        },
    }
}

/// A transaction: its first line and metadata, then its postings.
pub open spec fn transaction_text(ctx: DisplayContext, t: Transaction) -> Seq<char> {
    transaction_head_text(t) + postings_text(ctx, t.posts@)
}

impl DisplayContext {
    /// Writes the amount, see [`amount_fmt`].
    fn write_amount(&self, a: &Amount, out: &mut String) -> (r: Alignment)
        ensures
            final(out)@ == old(out)@ + amount_fmt(*self, *a).0,
            r == amount_fmt(*self, *a).1,
    {
        let mut v = a.value;
        match self.min_scale(a.commodity.as_str()) {
            Some(m) => {
                let n = v.value.normalize();
                let sc = n.scale();
                let target: u32 = if (m as u32) > sc { m as u32 } else { sc };
                v = PrettyDecimal::with_format(n.rescale(target), v.format);
            },
            None => {},
        }
        let p = match self.decimal_format(a.commodity.as_str()) {
            Some(f) => PrettyDecimal::with_format(v.value, Some(f)),
            None => v,
        };
        let number = p.to_string();
        let len = number.as_str().len();
        push_str(out, number.as_str());
        if a.commodity.as_str().is_empty() {
            Alignment::Partial(len)
        } else {
            push_str(out, " ");
            push_str(out, a.commodity.as_str());
            Alignment::Complete(len)
        }
    }

    /// Writes the expression, see [`expr_fmt`].
    fn write_expr(&self, e: &Expr, out: &mut String) -> (r: Alignment)
        ensures
            final(out)@ == old(out)@ + expr_fmt(*self, *e).0,
            r == expr_fmt(*self, *e).1,
        decreases e,
    {
        let ghost start = out@;
        match e {
            Expr::Unary(u) => {
                push_str(out, u.op.symbol());
                let a = self.write_expr(&u.expr, out);
                a.plus(1, 0)
            },
            Expr::Binary(b) => {
                let a1 = self.write_expr(&b.lhs, out);
                push_str(out, " ");
                push_str(out, b.op.symbol());
                push_str(out, " ");
                let a2 = self.write_expr(&b.rhs, out);
                match a1.plus(0, 3) {
                    Alignment::Complete(x) => Alignment::Complete(x),
                    Alignment::Partial(x) => a2.plus(x, 0),
                }
            },
            Expr::Value(v) => match &**v {
                ValueExpr::Amount(a) => self.write_amount(a, out),
                ValueExpr::Paren(inner) => {
                    push_str(out, "(");
                    let a = self.write_expr(inner, out);
                    push_str(out, ")");
                    a.plus(1, 1)
                },
            },
        }
    }

    /// The text of the expression and where it aligns, see [`expr_fmt`].
    pub fn fmt_with_alignment(&self, e: &Expr) -> (r: (String, Alignment))
        ensures
            r.0@ == expr_fmt(*self, *e).0,
            r.1 == expr_fmt(*self, *e).1,
    {
        let mut out = String::new();
        assert(out@ =~= Seq::<char>::empty());
        let a = self.write_expr(e, &mut out);
        assert(Seq::<char>::empty() + expr_fmt(*self, *e).0 =~= expr_fmt(*self, *e).0);
        (out, a)
    }
}

/// An entry: a transaction, a comment after `;`, or a directive.
pub open spec fn entry_text(ctx: DisplayContext, e: LedgerEntry) -> Seq<char> {
    match e {
        LedgerEntry::Txn(t) => transaction_text(ctx, t),
        LedgerEntry::Comment(c) => wrap_text(";"@, c.0@),
        LedgerEntry::ApplyTag(a) => "apply tag "@ + a.key@ + match a.value {
            Some(v) => metadata_value_text(v) + "\n"@,
            None => "\n"@,
        },
        LedgerEntry::EndApplyTag => "end apply tag\n"@,
        LedgerEntry::Include(f) => "include "@ + f.0@ + "\n"@,
        LedgerEntry::Account(d) => "account "@ + d.name@ + "\n"@ + account_details_text(d.details@),
        LedgerEntry::Commodity(d) => "commodity "@ + d.name@ + "\n"@ + commodity_details_text(ctx, d.details@),
    }
}

/// A detail of an account declaration (a comment keeps the space that follows its `;`).
pub open spec fn account_detail_text(d: AccountDetail) -> Seq<char> {
    match d {
        AccountDetail::Comment(v) => wrap_text("    ;"@, v@),
        AccountDetail::Note(v) => wrap_text("    note "@, v@),
        AccountDetail::Alias(v) => "    alias "@ + v@ + "\n"@,
    }
}

/// The details of an account declaration, in order.
pub open spec fn account_details_text(ds: Seq<AccountDetail>) -> Seq<char>
    decreases ds.len(),
{
    if ds.len() == 0 {
        Seq::empty()
    } else {
        account_details_text(ds.drop_last()) + account_detail_text(ds.last())
    }
}

/// A detail of a commodity declaration; its format is printed in the context.
pub open spec fn commodity_detail_text(ctx: DisplayContext, d: CommodityDetail) -> Seq<char> {
    match d {
        CommodityDetail::Comment(v) => wrap_text("    ;"@, v@),
        CommodityDetail::Note(v) => wrap_text("    note "@, v@),
        CommodityDetail::Alias(v) => "    alias "@ + v@ + "\n"@,
        CommodityDetail::Format(a) => "    format "@ + amount_fmt(ctx, a).0 + "\n"@,
    }
}

/// The details of a commodity declaration, in order.
pub open spec fn commodity_details_text(ctx: DisplayContext, ds: Seq<CommodityDetail>) -> Seq<char>
    decreases ds.len(),
{
    if ds.len() == 0 {
        Seq::empty()
    } else {
        commodity_details_text(ctx, ds.drop_last()) + commodity_detail_text(ctx, ds.last())
    }
}

/// Writes `n` spaces.
fn write_spaces(n: usize, out: &mut String)
    ensures
        final(out)@ == old(out)@ + spaces(n as nat),
{
    let ghost start = out@;
    let mut i: usize = 0;
    while i < n
        invariant
            i <= n,
            out@ == start + spaces(i as nat),
        decreases n - i,
    {
        push_char(out, ' ');
        i = i + 1;
        assert(out@ =~= start + spaces(i as nat));
    }
}

/// Writes each line of the content after the prefix, see [`wrap_text`].
fn write_wrapped(prefix: &str, content: &str, out: &mut String)
    ensures
        final(out)@ == old(out)@ + wrap_text(prefix@, content@),
{
    let ghost start = out@;
    let lines = split_lines(content);
    let ghost ls = lines_of(content@);
    let mut i: usize = 0;
    while i < lines.len()
        invariant
            i <= lines@.len(),
            texts(lines@) == ls,
            out@ == start + lines_text(prefix@, ls.subrange(0, i as int)),
        decreases lines@.len() - i,
    {
        push_str(out, prefix);
        push_str(out, lines[i].as_str());
        push_str(out, "\n");
        i = i + 1;
        proof {
            assert(ls.subrange(0, i as int).drop_last() =~= ls.subrange(0, i - 1));
            assert(ls[i - 1] == lines@[i - 1]@);
            assert(out@ =~= start + lines_text(prefix@, ls.subrange(0, i as int)));
        }
    }
    assert(ls.subrange(0, i as int) =~= ls);
}

/// Writes the date as `%Y/%m/%d`.
fn write_date(d: &Date, out: &mut String)
    ensures
        final(out)@ == old(out)@ + date_text(*d),
{
    let t = d.format_ymd();
    push_str(out, t.as_str());
}

/// Writes the value of a metadata, see [`metadata_value_text`].
fn write_metadata_value(v: &MetadataValue, out: &mut String)
    ensures
        final(out)@ == old(out)@ + metadata_value_text(*v),
{
    match v {
        MetadataValue::Expr(e) => {
            push_str(out, ":: ");
            push_str(out, e.as_str());
        },
        MetadataValue::Text(t) => {
            push_str(out, ": ");
            push_str(out, t.as_str());
        },
    }
}

/// Writes the metadata, see [`metadatas_text`].
fn write_metadata(ms: &Vec<Metadata>, out: &mut String)
    ensures
        final(out)@ == old(out)@ + metadatas_text(ms@),
{
    let ghost start = out@;
    let mut i: usize = 0;
    while i < ms.len()
        invariant
            i <= ms@.len(),
            out@ == start + metadatas_text(ms@.subrange(0, i as int)),
        decreases ms@.len() - i,
    {
        let ghost before = out@;
        match &ms[i] {
            Metadata::WordTags(tags) => {
                push_str(out, "    ; ");
                push_str(out, ":");
                let ghost mid = out@;
                let mut k: usize = 0;
                while k < tags.len()
                    invariant
                        k <= tags@.len(),
                        out@ == mid + tags_text(tags@.subrange(0, k as int)),
                    decreases tags@.len() - k,
                {
                    push_str(out, tags[k].as_str());
                    push_str(out, ":");
                    k = k + 1;
                    proof {
                        assert(tags@.subrange(0, k as int).drop_last() =~= tags@.subrange(0, k - 1));
                        assert(out@ =~= mid + tags_text(tags@.subrange(0, k as int)));
                    }
                }
                assert(tags@.subrange(0, k as int) =~= tags@);
                push_str(out, "\n");
            },
            Metadata::KeyValueTag { key, value } => {
                push_str(out, "    ; ");
                push_str(out, key.as_str());
                write_metadata_value(value, out);
                push_str(out, "\n");
            },
            Metadata::Comment(c) => {
                write_wrapped("    ; ", c.as_str(), out);
            },
        }
        i = i + 1;
        proof {
            assert(ms@.subrange(0, i as int).drop_last() =~= ms@.subrange(0, i - 1));
            assert(out@ =~= before + metadata_text(ms@[i - 1]));
            assert(out@ =~= start + metadatas_text(ms@.subrange(0, i as int)));
        }
    }
    assert(ms@.subrange(0, i as int) =~= ms@);
}

impl DisplayContext {
    /// Writes the lot, see [`lot_text`].
    fn write_lot(&self, lot: &Lot, out: &mut String)
        ensures
            final(out)@ == old(out)@ + lot_text(*self, *lot),
    {
        let ghost start = out@;
        match &lot.price {
            Some(p) => match &p.value {
                Exchange::Total(e) => {
                    push_str(out, " {{");
                    self.write_expr(e, out);
                    push_str(out, "}}");
                },
                Exchange::Rate(e) => {
                    push_str(out, " {");
                    self.write_expr(e, out);
                    push_str(out, "}");
                },
            },
            None => {},
        }
        assert(out@ =~= start + lot_price_text(*self, *lot));
        let ghost a = out@;
        match &lot.date {
            Some(d) => {
                push_str(out, " [");
                write_date(d, out);
                push_str(out, "]");
            },
            None => {},
        }
        assert(out@ =~= a + lot_date_text(*lot));
        let ghost b = out@;
        match &lot.note {
            Some(n) => {
                push_str(out, " (");
                push_str(out, n.as_str());
                push_str(out, ")");
            },
            None => {},
        }
        assert(out@ =~= b + lot_note_text(*lot));
        assert(out@ =~= start + lot_text(*self, *lot));
    }

    /// Writes the amount part of the posting, see [`posting_amount_text`].
    fn write_posting_amount(&self, p: &Posting, width_before: usize, out: &mut String)
        requires
            width_before == account_width(*p),
        ensures
            final(out)@ == old(out)@ + posting_amount_text(*self, *p),
    {
        let ghost start = out@;
        match &p.amount {
            Some(a) => {
                let mut text = String::new();
                assert(text@ =~= Seq::<char>::empty());
                let alignment = self.write_expr(&a.amount.value, &mut text).absolute();
                let left = width_before.saturating_add(alignment);
                let shift = if left.saturating_add(2) < 48 { 48 - left } else { 2 };
                write_spaces(shift, out);
                push_str(out, text.as_str());
                self.write_lot(&a.lot, out);
                match &a.cost {
                    Some(c) => match &c.value {
                        Exchange::Rate(e) => {
                            push_str(out, " @ ");
                            self.write_expr(e, out);
                        },
                        Exchange::Total(e) => {
                            push_str(out, " @@ ");
                            self.write_expr(e, out);
                        },
                    },
                    None => {},
                }
            },
            None => {},
        }
        assert(out@ =~= start + posting_amount_text(*self, *p));
    }

    /// Writes the balance part of the posting, see [`posting_balance_text`].
    fn write_posting_balance(&self, p: &Posting, width_before: usize, out: &mut String)
        requires
            width_before == account_width(*p),
        ensures
            final(out)@ == old(out)@ + posting_balance_text(*self, *p),
    {
        let ghost start = out@;
        match &p.balance {
            Some(b) => {
                let mut text = String::new();
                assert(text@ =~= Seq::<char>::empty());
                let alignment = self.write_expr(&b.value, &mut text).absolute();
                let trailing = width_cjk(text.as_str()).saturating_sub(alignment);
                let padding: usize = if p.amount.is_some() {
                    0
                } else {
                    let colsize = trailing.saturating_add(50);
                    if width_before.saturating_add(2) < colsize { colsize - width_before } else { 2 }
                };
                write_spaces(if padding > 2 { padding - 2 } else { 0 }, out);
                push_str(out, " =");
                push_str(out, " ");
                push_str(out, text.as_str());
            },
            None => {},
        }
        assert(out@ =~= start + posting_balance_text(*self, *p));
    }

    /// Writes the posting, see [`posting_text`].
    fn write_posting(&self, p: &Posting, out: &mut String)
        ensures
            final(out)@ == old(out)@ + posting_text(*self, *p),
    {
        let ghost start = out@;
        let clear: &str = match p.clear_state {
            ClearState::Uncleared => "",
            ClearState::Cleared => "* ",
            ClearState::Pending => "! ",
        };
        push_str(out, "    ");
        push_str(out, clear);
        push_str(out, p.account.as_str());
        let account_width = width_cjk(p.account.as_str()).saturating_add(width(clear));
        self.write_posting_amount(p, account_width, out);
        self.write_posting_balance(p, account_width, out);
        push_str(out, "\n");
        write_metadata(&p.metadata, out);
        assert(out@ =~= start + posting_text(*self, *p));
    }

    /// Writes the first line of the transaction and its metadata.
    fn write_transaction_head(&self, t: &Transaction, out: &mut String)
        ensures
            final(out)@ == old(out)@ + transaction_head_text(*t),
    {
        let ghost start = out@;
        write_date(&t.date, out);
        let ghost a = out@;
        match &t.effective_date {
            Some(d) => {
                push_str(out, "=");
                write_date(d, out);
            },
            None => {},
        }
        let ghost b = out@;
        push_str(out, " ");
        let clear: &str = match t.clear_state {
            ClearState::Uncleared => "",
            ClearState::Cleared => "* ",
            ClearState::Pending => "! ",
        };
        push_str(out, clear);
        let ghost c = out@;
        match &t.code {
            Some(code) => {
                push_str(out, "(");
                push_str(out, code.as_str());
                push_str(out, ") ");
            },
            None => {},
        }
        let ghost d = out@;
        push_str(out, t.payee.as_str());
        push_str(out, "\n");
        write_metadata(&t.metadata, out);
        proof {
            assert(b =~= a + (match t.effective_date {
                Some(d) => "="@ + date_text(d),
                None => Seq::<char>::empty(),
            }));
            assert(d =~= c + (match t.code {
                Some(c) => "("@ + c@ + ") "@,
                None => Seq::<char>::empty(),
            }));
        }
        assert(out@ =~= start + transaction_head_text(*t));
    }

    /// Writes the transaction, see [`transaction_text`].
    fn write_transaction(&self, t: &Transaction, out: &mut String)
        ensures
            final(out)@ == old(out)@ + transaction_text(*self, *t),
    {
        let ghost start = out@;
        self.write_transaction_head(t, out);
        let ghost head = out@;
        let mut i: usize = 0;
        while i < t.posts.len()
            invariant
                i <= t.posts@.len(),
                out@ == head + postings_text(*self, t.posts@.subrange(0, i as int)),
            decreases t.posts@.len() - i,
        {
            self.write_posting(&t.posts[i].value, out);
            i = i + 1;
            proof {
                assert(t.posts@.subrange(0, i as int).drop_last() =~= t.posts@.subrange(0, i - 1));
                assert(out@ =~= head + postings_text(*self, t.posts@.subrange(0, i as int)));
            }
        }
        assert(t.posts@.subrange(0, i as int) =~= t.posts@);
        assert(out@ =~= start + transaction_text(*self, *t));
    }

    /// The text of a posting, see [`posting_text`].
    pub fn display_posting(&self, p: &Posting) -> (r: String)
        ensures
            r@ == posting_text(*self, *p),
    {
        let mut out = String::new();
        assert(out@ =~= Seq::<char>::empty());
        self.write_posting(p, &mut out);
        assert(out@ =~= posting_text(*self, *p));
        out
    }

    /// The text of a transaction, see [`transaction_text`].
    pub fn display_transaction(&self, t: &Transaction) -> (r: String)
        ensures
            r@ == transaction_text(*self, *t),
    {
        let mut out = String::new();
        assert(out@ =~= Seq::<char>::empty());
        self.write_transaction(t, &mut out);
        assert(out@ =~= transaction_text(*self, *t));
        out
    }

    /// The text of an entry, see [`entry_text`].
    pub fn display_entry(&self, e: &LedgerEntry) -> (r: String)
        ensures
            r@ == entry_text(*self, *e),
    {
        let mut out = String::new();
        assert(out@ =~= Seq::<char>::empty());
        match e {
            LedgerEntry::Txn(t) => {
                self.write_transaction(t, &mut out);
            },
            LedgerEntry::Comment(c) => {
                write_wrapped(";", c.0.as_str(), &mut out);
            },
            LedgerEntry::ApplyTag(a) => {
                push_str(&mut out, "apply tag ");
                push_str(&mut out, a.key.as_str());
                match &a.value {
                    Some(v) => {
                        write_metadata_value(v, &mut out);
                    },
                    None => {},
                }
                push_str(&mut out, "\n");
            },
            LedgerEntry::EndApplyTag => {
                push_str(&mut out, "end apply tag\n");
            },
            LedgerEntry::Include(f) => {
                push_str(&mut out, "include ");
                push_str(&mut out, f.0.as_str());
                push_str(&mut out, "\n");
            },
            LedgerEntry::Account(d) => {
                push_str(&mut out, "account ");
                push_str(&mut out, d.name.as_str());
                push_str(&mut out, "\n");
                let ghost head = out@;
                let mut i: usize = 0;
                while i < d.details.len()
                    invariant
                        i <= d.details@.len(),
                        out@ == head + account_details_text(d.details@.subrange(0, i as int)),
                    decreases d.details@.len() - i,
                {
                    let ghost before = out@;
                    match &d.details[i] {
                        AccountDetail::Comment(v) => write_wrapped("    ;", v.as_str(), &mut out),
                        AccountDetail::Note(v) => write_wrapped("    note ", v.as_str(), &mut out),
                        AccountDetail::Alias(v) => {
                            push_str(&mut out, "    alias ");
                            push_str(&mut out, v.as_str());
                            push_str(&mut out, "\n");
                        },
                    }
                    i = i + 1;
                    proof {
                        assert(d.details@.subrange(0, i as int).drop_last() =~= d.details@.subrange(0, i - 1));
                        assert(out@ =~= before + account_detail_text(d.details@[i - 1]));
                        assert(out@ =~= head + account_details_text(d.details@.subrange(0, i as int)));
                    }
                }
                assert(d.details@.subrange(0, i as int) =~= d.details@);
            },
            LedgerEntry::Commodity(d) => {
                push_str(&mut out, "commodity ");
                push_str(&mut out, d.name.as_str());
                push_str(&mut out, "\n");
                let ghost head = out@;
                let mut i: usize = 0;
                while i < d.details.len()
                    invariant
                        i <= d.details@.len(),
                        out@ == head + commodity_details_text(*self, d.details@.subrange(0, i as int)),
                    decreases d.details@.len() - i,
                {
                    let ghost before = out@;
                    match &d.details[i] {
                        CommodityDetail::Comment(v) => write_wrapped("    ;", v.as_str(), &mut out),
                        CommodityDetail::Note(v) => write_wrapped("    note ", v.as_str(), &mut out),
                        CommodityDetail::Alias(v) => {
                            push_str(&mut out, "    alias ");
                            push_str(&mut out, v.as_str());
                            push_str(&mut out, "\n");
                        },
                        CommodityDetail::Format(a) => {
                            push_str(&mut out, "    format ");
                            self.write_amount(a, &mut out);
                            push_str(&mut out, "\n");
                        },
                    }
                    i = i + 1;
                    proof {
                        assert(d.details@.subrange(0, i as int).drop_last() =~= d.details@.subrange(0, i - 1));
                        assert(out@ =~= before + commodity_detail_text(*self, d.details@[i - 1]));
                        assert(out@ =~= head + commodity_details_text(*self, d.details@.subrange(0, i as int)));
                    }
                }
                assert(d.details@.subrange(0, i as int) =~= d.details@);
            },
        }
        assert(out@ =~= entry_text(*self, *e));
        out
    }
}

/// Joining options is commutative, associative and idempotent: it takes the larger rank of
/// the format and the larger least scale.
pub proof fn lemma_join_option(x: CommodityDisplayOption, y: CommodityDisplayOption, z: CommodityDisplayOption)
    ensures
        join_option_spec(x, y) == join_option_spec(y, x),
        join_option_spec(join_option_spec(x, y), z) == join_option_spec(x, join_option_spec(y, z)),
        join_option_spec(x, x) == x,
{
    assert(format_rank(x.format) == format_rank(y.format) ==> x.format == y.format);
    assert(format_rank(y.format) == format_rank(z.format) ==> y.format == z.format);
    assert(format_rank(x.format) == format_rank(z.format) ==> x.format == z.format);
}

/// Two samples on an estimate give the same, in either order.
proof fn lemma_step_commutes(e: CommodityEstimate, x: Sample, y: Sample, c: Seq<char>)
    ensures
        step(step(e, x, c), y, c) == step(step(e, y, c), x, c),
{
    lemma_join_option(e.declared, x.2, y.2);
    lemma_join_option(e.declared, y.2, x.2);
    lemma_join_option(e.observed, x.2, y.2);
    lemma_join_option(e.observed, y.2, x.2);
    lemma_join_option(x.2, y.2, y.2);
}

/// A sample before the run, or after it, gives the same.
proof fn lemma_step_through(e: CommodityEstimate, x: Sample, b: Seq<Sample>, c: Seq<char>)
    ensures
        fold_samples(step(e, x, c), b, c) == step(fold_samples(e, b, c), x, c),
    decreases b.len(),
{
    if b.len() > 0 {
        lemma_step_through(e, x, b.drop_last(), c);
        lemma_step_commutes(fold_samples(e, b.drop_last(), c), x, b.last(), c);
    }
}

/// What a builder learns of a commodity does not depend on the order in which it sees two
/// runs of samples (two files, say): the widest scale and the most telling format win.
pub proof fn law_observation_order(e: CommodityEstimate, a: Seq<Sample>, b: Seq<Sample>, c: Seq<char>)
    ensures
        fold_samples(fold_samples(e, a, c), b, c) == fold_samples(fold_samples(e, b, c), a, c),
    decreases a.len(),
{
    if a.len() > 0 {
        let x = a.last();
        law_observation_order(e, a.drop_last(), b, c);
        lemma_step_through(fold_samples(e, a.drop_last(), c), x, b, c);
    }
}

/// The amount of a posting starts at column 48 (after the four spaces of indentation and
/// the account) whenever the account and the amount's left part leave two spaces at least.
pub proof fn law_amount_column(ctx: DisplayContext, p: Posting)
    requires
        p.amount is Some,
        account_width(p) + absolute(expr_fmt(ctx, p.amount->0.amount.value).1) + 2 < 48,
    ensures
        account_width(p) + get_column(48, sat_add(account_width(p), absolute(expr_fmt(ctx, p.amount->0.amount.value).1)), 2)
            + absolute(expr_fmt(ctx, p.amount->0.amount.value).1) == 48,
{
}

} // verus!
