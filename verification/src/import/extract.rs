//! Rewrite rules applied to an imported entity: the payee, account, clear state and
//! conversion that the matching rules give.
use crate::import::config::{CommodityConversion, FieldMatcher, RewriteField, RewriteMatcher, RewriteRule};
use crate::import::error::ImportError;
use vstd::prelude::*;

verus! {

/// `regex::Regex::new` builds a regular expression from the pattern.
pub uninterp spec fn regex_valid(pattern: Seq<char>) -> bool;

/// `regex::Regex::captures` of the regular expression of the pattern on the text, then
/// `name` of each of the names: `None` when the text does not match, else the text of each
/// named group where it took part in the match.
pub uninterp spec fn regex_captures(pattern: Seq<char>, text: Seq<char>, names: Seq<Seq<char>>) -> Option<Seq<Option<Seq<char>>>>;

/// The texts of optional strings.
pub open spec fn opt_texts(v: Seq<Option<String>>) -> Seq<Option<Seq<char>>> {
    v.map_values(|o: Option<String>| opt_text(o))
}

/// The texts of the names.
pub open spec fn name_texts(v: Seq<&str>) -> Seq<Seq<char>> {
    v.map_values(|s: &str| s@)
}

/// `regex::Regex::new(pattern).is_ok()`.
#[verifier::external_body]
pub(crate) fn regex_check(pattern: &str) -> (r: bool)
    ensures
        r == regex_valid(pattern@),
{
    regex::Regex::new(pattern).is_ok()
}

/// `regex::Regex::captures` of the pattern on the text, and the named groups.
#[verifier::external_body]
pub(crate) fn regex_named_groups(pattern: &str, text: &str, names: &[&str]) -> (r: Option<Vec<Option<String>>>)
    requires
        regex_valid(pattern@),
    ensures
        r matches Some(g) ==> g@.len() == names@.len(),
        match r {
            Some(g) => regex_captures(pattern@, text@, name_texts(names@)) == Some(opt_texts(g@)),
            None => regex_captures(pattern@, text@, name_texts(names@)) is None,
        },
{
    let c = regex::Regex::new(pattern).ok()?.captures(text)?;
    Some(names.iter().map(|n| c.name(n).map(|m| m.as_str().to_string())).collect())
}

/// The names of the groups a rule's pattern may capture: the payee and the transaction code.
pub open spec fn capture_names() -> Seq<Seq<char>> {
    seq!["payee"@, "code"@]
}

/// What the pattern captures of the text in its group named `payee`: `None` when the text
/// does not match, else the text of that group where it took part.
pub open spec fn regex_payee_capture(pattern: Seq<char>, text: Seq<char>) -> Option<Option<Seq<char>>> {
    match regex_captures(pattern, text, capture_names()) {
        Some(g) => Some(g[0]),
        None => None,
    }
}

/// What the pattern captures of the text in its group named `code`: nothing when the text does
/// not match or the group took no part, else the text of that group.
pub open spec fn regex_code_capture(pattern: Seq<char>, text: Seq<char>) -> Option<Seq<char>> {
    match regex_captures(pattern, text, capture_names()) {
        Some(g) => g[1],
        None => None,
    }
}

/// A valid regular expression of a rewrite rule.
pub struct Pattern {
    text: String,
}

impl Pattern {
    #[verifier::type_invariant]
    spec fn inv(self) -> bool {
        regex_valid(self.text@)
    }

    /// The text of the regular expression.
    pub closed spec fn source(&self) -> Seq<char> {
        self.text@
    }

    /// The regular expression of the pattern; `InvalidRegex` if it is not one.
    pub fn new(pattern: &str) -> (r: Result<Pattern, ImportError>)
        ensures
            match r {
                Ok(p) => regex_valid(pattern@) && p.source() == pattern@,
                Err(e) => !regex_valid(pattern@) && e == ImportError::InvalidRegex,
            },
    {
        if regex_check(pattern) {
            Ok(Pattern { text: pattern.to_string() })
        } else {
            Err(ImportError::InvalidRegex)
        }
    }

    /// Matches the text: `None` if it does not match, else the texts of the groups `payee`
    /// and `code`, where they took part.
    pub fn captures(&self, text: &str) -> (r: Option<(Option<String>, Option<String>)>)
        ensures
            match r {
                Some(p) => regex_payee_capture(self.source(), text@) == Some(opt_text(p.0))
                    && regex_code_capture(self.source(), text@) == opt_text(p.1),
                None => regex_payee_capture(self.source(), text@) is None,
            },
    {
        proof {
            use_type_invariant(self);
        }
        let names: [&str; 2] = ["payee", "code"];
        proof {
            reveal_strlit("payee");
            reveal_strlit("code");
            assert(name_texts(names@) =~= capture_names());
        }
        match regex_named_groups(self.text.as_str(), text, &names) {
            Some(g) => {
                let p = copy_opt_string(&g[0]);
                let c = copy_opt_string(&g[1]);
                assert(opt_texts(g@)[0] == opt_text(g@[0]));
                assert(opt_texts(g@)[1] == opt_text(g@[1]));
                Some((p, c))
            },
            None => None,
        }
    }
}

/// The text of an optional string.
pub open spec fn opt_text(o: Option<String>) -> Option<Seq<char>> {
    match o {
        Some(s) => Some(s@),
        None => None,
    }
}

/// Copy of an optional string.
pub fn copy_opt_string(s: &Option<String>) -> (r: Option<String>)
    ensures
        r == *s,
{
    match s {
        Some(x) => Some(x.clone()),
        None => None,
    }
}

/// Copy of an optional conversion.
fn copy_opt_conversion(c: &Option<CommodityConversion>) -> (r: Option<CommodityConversion>)
    ensures
        r == *c,
{
    match c {
        Some(x) => Some(x.duplicate()),
        None => None,
    }
}

/// What the matching rules gave so far: cleared, payee, account, conversion and transaction
/// code.
pub type FragmentView = (bool, Option<Seq<char>>, Option<Seq<char>>, Option<CommodityConversion>, Option<Seq<char>>);

/// What the matching rules gave so far.
#[derive(Debug, PartialEq, Eq)]
pub struct Fragment {
    pub cleared: bool,
    pub payee: Option<String>,
    pub account: Option<String>,
    pub conversion: Option<CommodityConversion>,
    pub code: Option<String>,
}

impl View for Fragment {
    type V = FragmentView;

    open spec fn view(&self) -> FragmentView {
        (self.cleared, opt_text(self.payee), opt_text(self.account), self.conversion, opt_text(self.code))
    }
}

/// `a += b`: cleared if either is, and the payee, account, conversion and code of `b` where it
/// has them.
pub open spec fn fragment_add(a: FragmentView, b: FragmentView) -> FragmentView {
    (
        b.0 || a.0,
        if b.1 is Some { b.1 } else { a.1 },
        if b.2 is Some { b.2 } else { a.2 },
        if b.3 is Some { b.3 } else { a.3 },
        if b.4 is Some { b.4 } else { a.4 },
    )
}

/// The fragment before any rule matched.
pub open spec fn empty_fragment() -> FragmentView {
    (false, None, None, None, None)
}

impl Clone for Fragment {
    fn clone(&self) -> (r: Self)
        ensures
            r@ == self@,
    {
        Fragment {
            cleared: self.cleared,
            payee: copy_opt_string(&self.payee),
            account: copy_opt_string(&self.account),
            conversion: copy_opt_conversion(&self.conversion),
            code: copy_opt_string(&self.code),
        }
    }
}

impl Fragment {
    /// The fragment before any rule matched.
    pub fn empty() -> (r: Fragment)
        ensures
            r@ == empty_fragment(),
    {
        Fragment { cleared: false, payee: None, account: None, conversion: None, code: None }
    }

    /// `self += other`, see [`fragment_add`].
    pub fn add_assign(&mut self, other: Fragment)
        ensures
            final(self)@ == fragment_add(old(self)@, other@),
    {
        self.cleared = other.cleared || self.cleared;
        if other.payee.is_some() {
            self.payee = other.payee;
        }
        if other.account.is_some() {
            self.account = other.account;
        }
        if other.conversion.is_some() {
            self.conversion = other.conversion;
        }
        if other.code.is_some() {
            self.code = other.code;
        }
    }
}

/// What a matcher captured: the payee and the transaction code, where it names them.
#[derive(Debug, PartialEq, Eq)]
pub struct Matched {
    pub payee: Option<String>,
    pub code: Option<String>,
}

impl Default for Matched {
    fn default() -> (r: Matched)
        ensures
            r.payee is None,
            r.code is None,
    {
        Matched { payee: None, code: None }
    }
}

/// What a matcher gave: `None` when it did not match, else the payee it captured, if any.
pub open spec fn matched_view(m: Option<Matched>) -> Option<Option<Seq<char>>> {
    match m {
        Some(x) => Some(opt_text(x.payee)),
        None => None,
    }
}

/// The field and the pattern of the config a matcher is built from.
pub type MatchSource = (RewriteField, Seq<char>);

/// Matcher of one field of an imported entity, built from a field and a pattern of a rule.
pub trait EntityMatcher: Sized {
    /// The entity that is matched.
    type T: View;

    /// Whether a matcher is built from the field and the pattern.
    spec fn accepts(field: RewriteField, pattern: Seq<char>) -> bool;

    /// The error when no matcher is built from the field and the pattern.
    spec fn refusal(field: RewriteField, pattern: Seq<char>) -> ImportError;

    /// The field and the pattern the matcher was built from.
    spec fn source(&self) -> MatchSource;

    /// What the matcher built from `source` gives on the entity, the payee found so far
    /// being `payee`: `None` when it does not match, else the payee it captured, if any.
    spec fn captured_by(source: MatchSource, payee: Option<Seq<char>>, entity: <Self::T as View>::V) -> Option<Option<Seq<char>>>;

    /// The transaction code that the matcher built from `source` captures on the entity, the
    /// payee found so far being `payee`, when it matches.
    spec fn code_by(source: MatchSource, payee: Option<Seq<char>>, entity: <Self::T as View>::V) -> Option<Seq<char>>;

    /// Builds the matcher of the field and the pattern.
    fn try_from_field(field: RewriteField, pattern: &str) -> (r: Result<Self, ImportError>)
        ensures
            match r {
                Ok(m) => Self::accepts(field, pattern@) && m.source() == (field, pattern@),
                Err(e) => !Self::accepts(field, pattern@) && e == Self::refusal(field, pattern@),
            },
    ;

    /// Matches the entity, given the fragment so far.
    fn captures(&self, fragment: &Fragment, entity: &Self::T) -> (r: Option<Matched>)
        ensures
            matched_view(r) == Self::captured_by(self.source(), fragment@.1, entity@),
            r matches Some(m) ==> opt_text(m.code) == Self::code_by(self.source(), fragment@.1, entity@),
    ;
}

/// The conjunction of the matchers on the fragment: each must match, in order, and a payee
/// or a code one captures replaces the payee or the code so far.
pub open spec fn and_spec<M: EntityMatcher>(ms: Seq<MatchSource>, f: FragmentView, e: <M::T as View>::V) -> Option<FragmentView>
    decreases ms.len(),
{
    if ms.len() == 0 {
        Some(f)
    } else {
        match and_spec::<M>(ms.drop_last(), f, e) {
            None => None,
            Some(g) => match M::captured_by(ms.last(), g.1, e) {
                None => None,
                Some(p) => {
                    let c = M::code_by(ms.last(), g.1, e);
                    Some((g.0, if p is Some { p } else { g.1 }, g.2, g.3, if c is Some { c } else { g.4 }))
                },
            },
        }
    }
}

/// The first of the conjunctions from `i` on that matches the fragment.
pub open spec fn or_from<M: EntityMatcher>(ands: Seq<Seq<MatchSource>>, f: FragmentView, e: <M::T as View>::V, i: int) -> Option<FragmentView>
    decreases ands.len() - i,
{
    if i < 0 || i >= ands.len() {
        None
    } else {
        match and_spec::<M>(ands[i], f, e) {
            Some(x) => Some(x),
            None => or_from::<M>(ands, f, e, i + 1),
        }
    }
}

/// View of a rule: its conjunctions, pending, payee and account, and conversion.
pub type RuleView = (Seq<Seq<MatchSource>>, bool, Option<Seq<char>>, Option<Seq<char>>, Option<CommodityConversion>);

/// A rule on the fragment: when one of its conjunctions matches, the payee of the rule (or
/// the one matched), the account of the rule, its conversion (or the one so far), and
/// cleared when both payee and account are known and the rule is not pending.
pub open spec fn rule_spec<M: EntityMatcher>(rule: RuleView, f: FragmentView, e: <M::T as View>::V) -> Option<FragmentView> {
    match or_from::<M>(rule.0, f, e, 0) {
        None => None,
        Some(c) => {
            let payee = if rule.2 is Some { rule.2 } else { c.1 };
            let account = rule.3;
            let conversion = if rule.4 is Some { rule.4 } else { c.3 };
            let cleared = if payee is Some && account is Some { c.0 || !rule.1 } else { c.0 };
            Some((cleared, payee, account, conversion, c.4))
        },
    }
}

/// The rules in order on the entity: each one that matches is added to the fragment.
pub open spec fn extract_spec<M: EntityMatcher>(rules: Seq<RuleView>, e: <M::T as View>::V) -> FragmentView
    decreases rules.len(),
{
    if rules.len() == 0 {
        empty_fragment()
    } else {
        let f = extract_spec::<M>(rules.drop_last(), e);
        match rule_spec::<M>(rules.last(), f, e) {
            Some(u) => fragment_add(f, u),
            None => f,
        }
    }
}

/// The matchers of a field matcher of the config.
pub open spec fn config_and(fm: FieldMatcher) -> Seq<MatchSource> {
    fm.fields@.map_values(|p: (RewriteField, String)| (p.0, p.1@))
}

/// The conjunctions of a matcher of the config.
pub open spec fn config_or(m: RewriteMatcher) -> Seq<Seq<MatchSource>> {
    match m {
        RewriteMatcher::Or(v) => v@.map_values(|fm: FieldMatcher| config_and(fm)),
        RewriteMatcher::Field(fm) => seq![config_and(fm)],
    }
}

/// The view of a rule of the config.
pub open spec fn config_rule(r: RewriteRule) -> RuleView {
    (config_or(r.matcher), r.pending, opt_text(r.payee), opt_text(r.account), r.conversion)
}

/// The first field from `i` on whose matcher is not built, with its error.
pub open spec fn field_error<M: EntityMatcher>(fs: Seq<(RewriteField, String)>, i: int) -> Option<ImportError>
    decreases fs.len() - i,
{
    if i < 0 || i >= fs.len() {
        None
    } else if !M::accepts(fs[i].0, fs[i].1@) {
        Some(M::refusal(fs[i].0, fs[i].1@))
    } else {
        field_error::<M>(fs, i + 1)
    }
}

/// Error of a field matcher of the config: that of its first field, or that it is empty.
pub open spec fn and_error<M: EntityMatcher>(fm: FieldMatcher) -> Option<ImportError> {
    match field_error::<M>(fm.fields@, 0) {
        Some(e) => Some(e),
        None => if fm.fields@.len() == 0 {
            Some(ImportError::InvalidConfig("empty field matcher is not allowed"))
        } else {
            None
        },
    }
}

/// The first field matcher from `i` on with an error.
pub open spec fn ands_error<M: EntityMatcher>(fms: Seq<FieldMatcher>, i: int) -> Option<ImportError>
    decreases fms.len() - i,
{
    if i < 0 || i >= fms.len() {
        None
    } else {
        match and_error::<M>(fms[i]) {
            Some(e) => Some(e),
            None => ands_error::<M>(fms, i + 1),
        }
    }
}

/// Error of a matcher of the config.
pub open spec fn or_error<M: EntityMatcher>(m: RewriteMatcher) -> Option<ImportError> {
    match m {
        RewriteMatcher::Or(v) => ands_error::<M>(v@, 0),
        RewriteMatcher::Field(fm) => and_error::<M>(fm),
    }
}

/// The first rule from `i` on with an error.
pub open spec fn rules_error<M: EntityMatcher>(rules: Seq<RewriteRule>, i: int) -> Option<ImportError>
    decreases rules.len() - i,
{
    if i < 0 || i >= rules.len() {
        None
    } else {
        match or_error::<M>(rules[i].matcher) {
            Some(e) => Some(e),
            None => rules_error::<M>(rules, i + 1),
        }
    }
}

/// Conjunction of matchers.
pub struct MatchAndExpr<M>(pub Vec<M>);

/// Disjunction of conjunctions.
pub struct MatchOrExpr<M>(pub Vec<MatchAndExpr<M>>);

/// The matchers of each conjunction.
pub open spec fn and_views<M: EntityMatcher>(v: Seq<MatchAndExpr<M>>) -> Seq<Seq<MatchSource>> {
    v.map_values(|a: MatchAndExpr<M>| sources(a.0@))
}

/// The sources of the matchers.
pub open spec fn sources<M: EntityMatcher>(v: Seq<M>) -> Seq<MatchSource> {
    v.map_values(|m: M| m.source())
}

/// The conjunctions of a disjunction.
pub open spec fn or_view<M: EntityMatcher>(m: MatchOrExpr<M>) -> Seq<Seq<MatchSource>> {
    and_views(m.0@)
}

/// A rewrite rule, with its matchers built.
pub struct ExtractRule<M> {
    pub match_expr: MatchOrExpr<M>,
    pub pending: bool,
    pub payee: Option<String>,
    pub account: Option<String>,
    pub conversion: Option<CommodityConversion>,
}

/// The view of a rule.
pub open spec fn rule_view<M: EntityMatcher>(r: ExtractRule<M>) -> RuleView {
    (or_view(r.match_expr), r.pending, opt_text(r.payee), opt_text(r.account), r.conversion)
}

/// The rewrite rules of a config, with their matchers built.
pub struct Extractor<M> {
    pub rules: Vec<ExtractRule<M>>,
}

impl<M: EntityMatcher> View for Extractor<M> {
    type V = Seq<RuleView>;

    open spec fn view(&self) -> Seq<RuleView> {
        rule_views(self.rules@)
    }
}

/// The views of the rules.
pub open spec fn rule_views<M: EntityMatcher>(v: Seq<ExtractRule<M>>) -> Seq<RuleView> {
    v.map_values(|r: ExtractRule<M>| rule_view(r))
}

/// The views of the rules of a config.
pub open spec fn config_rules(rules: Seq<RewriteRule>) -> Seq<RuleView> {
    rules.map_values(|c: RewriteRule| config_rule(c))
}

impl<M: EntityMatcher> MatchAndExpr<M> {
    /// Builds the matchers of a field matcher of the config; it must not be empty.
    pub fn try_from_config(from: &FieldMatcher) -> (r: Result<Self, ImportError>)
        ensures
            match and_error::<M>(*from) {
                None => r matches Ok(x) && sources(x.0@) == config_and(*from),
                Some(e) => r == Err::<Self, ImportError>(e),
            },
    {
        let mut matchers: Vec<M> = Vec::new();
        let mut i: usize = 0;
        while i < from.fields.len()
            invariant
                i <= from.fields@.len(),
                sources(matchers@) == config_and(*from).subrange(0, i as int),
                field_error::<M>(from.fields@, 0) == field_error::<M>(from.fields@, i as int),
            decreases from.fields@.len() - i,
        {
            let m = match M::try_from_field(from.fields[i].0, from.fields[i].1.as_str()) {
                Ok(m) => m,
                Err(e) => {
                    return Err(e);
                },
            };
            let ghost before = matchers@;
            matchers.push(m);
            i = i + 1;
            assert(sources(matchers@) =~= config_and(*from).subrange(0, i as int)) by {
                assert(matchers@ == before.push(m));
                assert(sources(matchers@) =~= sources(before).push(m.source()));
            }
        }
        assert(sources(matchers@) =~= config_and(*from));
        if matchers.len() == 0 {
            Err(ImportError::InvalidConfig("empty field matcher is not allowed"))
        } else {
            Ok(MatchAndExpr(matchers))
        }
    }

    /// Matches the entity with each matcher in turn, see [`and_spec`].
    pub fn extract(&self, current: Fragment, entity: &M::T) -> (r: Option<Fragment>)
        ensures
            match r {
                Some(f) => and_spec::<M>(sources(self.0@), current@, entity@) == Some(f@),
                None => and_spec::<M>(sources(self.0@), current@, entity@) is None,
            },
    {
        let ghost start = current@;
        let mut fragment = current.clone();
        let mut i: usize = 0;
        while i < self.0.len()
            invariant
                i <= self.0@.len(),
                and_spec::<M>(sources(self.0@).subrange(0, i as int), start, entity@) == Some(fragment@),
                start == current@,
            decreases self.0@.len() - i,
        {
            proof {
                assert(sources(self.0@).subrange(0, i + 1).drop_last() =~= sources(self.0@).subrange(0, i as int));
                assert(sources(self.0@).subrange(0, i + 1).last() == self.0@[i as int].source());
            }
            match self.0[i].captures(&fragment, entity) {
                None => {
                    proof {
                        lemma_and_none_extends::<M>(sources(self.0@), start, entity@, i as int + 1);
                    }
                    return None;
                },
                Some(m) => {
                    if m.payee.is_some() {
                        fragment.payee = m.payee;
                    }
                    if m.code.is_some() {
                        fragment.code = m.code;
                    }
                },
            }
            i = i + 1;
        }
        assert(sources(self.0@).subrange(0, self.0@.len() as int) =~= sources(self.0@));
        Some(fragment)
    }
}

/// Once a prefix of the conjunction fails, the whole fails.
proof fn lemma_and_none_extends<M: EntityMatcher>(ms: Seq<MatchSource>, f: FragmentView, e: <M::T as View>::V, n: int)
    requires
        0 <= n <= ms.len(),
        and_spec::<M>(ms.subrange(0, n), f, e) is None,
    ensures
        and_spec::<M>(ms, f, e) is None,
    decreases ms.len() - n,
{
    if n == ms.len() {
        assert(ms.subrange(0, n) =~= ms);
    } else {
        assert(ms.subrange(0, n + 1).drop_last() =~= ms.subrange(0, n));
        lemma_and_none_extends::<M>(ms, f, e, n + 1);
    }
}

impl<M: EntityMatcher> MatchOrExpr<M> {
    /// Builds the conjunctions of a matcher of the config.
    pub fn try_from_config(from: &RewriteMatcher) -> (r: Result<Self, ImportError>)
        ensures
            match or_error::<M>(*from) {
                None => r matches Ok(x) && or_view(x) == config_or(*from),
                Some(e) => r == Err::<Self, ImportError>(e),
            },
    {
        match from {
            RewriteMatcher::Or(orms) => {
                let mut exprs: Vec<MatchAndExpr<M>> = Vec::new();
                let mut i: usize = 0;
                while i < orms.len()
                    invariant
                        *from == RewriteMatcher::Or(*orms),
                        i <= orms@.len(),
                        and_views(exprs@) == config_or(*from).subrange(0, i as int),
                        ands_error::<M>(orms@, 0) == ands_error::<M>(orms@, i as int),
                    decreases orms@.len() - i,
                {
                    let a = match MatchAndExpr::try_from_config(&orms[i]) {
                        Ok(a) => a,
                        Err(e) => {
                            return Err(e);
                        },
                    };
                    let ghost before = exprs@;
                    exprs.push(a);
                    i = i + 1;
                    assert(and_views(exprs@) =~= config_or(*from).subrange(0, i as int)) by {
                        assert(exprs@ == before.push(a));
                        assert(and_views(exprs@) =~= and_views(before).push(sources(a.0@)));
                    }
                }
                let r = MatchOrExpr(exprs);
                assert(or_view(r) =~= config_or(*from));
                Ok(r)
            },
            RewriteMatcher::Field(f) => {
                let a = match MatchAndExpr::try_from_config(f) {
                    Ok(a) => a,
                    Err(e) => {
                        return Err(e);
                    },
                };
                let r = MatchOrExpr(vec![a]);
                assert(or_view(r) =~= config_or(*from));
                Ok(r)
            },
        }
    }

    /// The first conjunction that matches the entity, see [`or_from`].
    pub fn extract(&self, current: &Fragment, entity: &M::T) -> (r: Option<Fragment>)
        ensures
            match r {
                Some(f) => or_from::<M>(or_view(*self), current@, entity@, 0) == Some(f@),
                None => or_from::<M>(or_view(*self), current@, entity@, 0) is None,
            },
    {
        let ghost ands = or_view(*self);
        let mut i: usize = 0;
        while i < self.0.len()
            invariant
                i <= self.0@.len(),
                ands == or_view(*self),
                or_from::<M>(ands, current@, entity@, 0) == or_from::<M>(ands, current@, entity@, i as int),
            decreases self.0@.len() - i,
        {
            assert(ands[i as int] == sources(self.0@[i as int].0@));
            match self.0[i].extract(current.clone(), entity) {
                Some(f) => {
                    return Some(f);
                },
                None => {},
            }
            i = i + 1;
        }
        None
    }
}

impl<M: EntityMatcher> ExtractRule<M> {
    /// Builds the matchers of a rule of the config.
    pub fn try_from_config(from: &RewriteRule) -> (r: Result<Self, ImportError>)
        ensures
            match or_error::<M>(from.matcher) {
                None => r matches Ok(x) && rule_view(x) == config_rule(*from),
                Some(e) => r == Err::<Self, ImportError>(e),
            },
    {
        let match_expr = match MatchOrExpr::try_from_config(&from.matcher) {
            Ok(m) => m,
            Err(e) => {
                return Err(e);
            },
        };
        Ok(ExtractRule {
            match_expr,
            pending: from.pending,
            payee: copy_opt_string(&from.payee),
            account: copy_opt_string(&from.account),
            conversion: copy_opt_conversion(&from.conversion),
        })
    }

    /// The rule on the fragment, see [`rule_spec`].
    pub fn extract(&self, current: &Fragment, entity: &M::T) -> (r: Option<Fragment>)
        ensures
            match r {
                Some(f) => rule_spec::<M>(rule_view(*self), current@, entity@) == Some(f@),
                None => rule_spec::<M>(rule_view(*self), current@, entity@) is None,
            },
    {
        match self.match_expr.extract(current, entity) {
            None => None,
            Some(mut c) => {
                if self.payee.is_some() {
                    c.payee = copy_opt_string(&self.payee);
                }
                c.account = copy_opt_string(&self.account);
                if self.conversion.is_some() {
                    c.conversion = copy_opt_conversion(&self.conversion);
                }
                if c.payee.is_some() && c.account.is_some() {
                    c.cleared = c.cleared || !self.pending;
                }
                Some(c)
            },
        }
    }
}

impl<M: EntityMatcher> Extractor<M> {
    /// Builds the matchers of the rewrite rules of a config: the error of the first rule
    /// that has one.
    pub fn try_from_rules(rules: &Vec<RewriteRule>) -> (r: Result<Self, ImportError>)
        ensures
            match rules_error::<M>(rules@, 0) {
                None => r matches Ok(x) && x@ == config_rules(rules@),
                Some(e) => r == Err::<Self, ImportError>(e),
            },
    {
        let mut built: Vec<ExtractRule<M>> = Vec::new();
        let mut i: usize = 0;
        while i < rules.len()
            invariant
                i <= rules@.len(),
                rule_views(built@) == config_rules(rules@.subrange(0, i as int)),
                rules_error::<M>(rules@, 0) == rules_error::<M>(rules@, i as int),
            decreases rules@.len() - i,
        {
            let rule = match ExtractRule::try_from_config(&rules[i]) {
                Ok(x) => x,
                Err(e) => {
                    return Err(e);
                },
            };
            let ghost before = built@;
            built.push(rule);
            i = i + 1;
            assert(rule_views(built@) =~= config_rules(rules@.subrange(0, i as int))) by {
                assert(built@ == before.push(rule));
                assert(rule_views(built@) =~= rule_views(before).push(rule_view(rule)));
            }
        }
        assert(rules@.subrange(0, rules@.len() as int) =~= rules@);
        Ok(Extractor { rules: built })
    }

    /// The fragment the rules give on the entity, see [`extract_spec`].
    pub fn extract(&self, entity: &M::T) -> (r: Fragment)
        ensures
            r@ == extract_spec::<M>(self@, entity@),
    {
        let mut fragment = Fragment::empty();
        let mut i: usize = 0;
        while i < self.rules.len()
            invariant
                i <= self.rules@.len(),
                fragment@ == extract_spec::<M>(self@.subrange(0, i as int), entity@),
            decreases self.rules@.len() - i,
        {
            proof {
                assert(self@.subrange(0, i + 1).drop_last() =~= self@.subrange(0, i as int));
                assert(self@.subrange(0, i + 1).last() == rule_view(self.rules@[i as int]));
            }
            match self.rules[i].extract(&fragment, entity) {
                Some(updated) => fragment.add_assign(updated),
                None => {},
            }
            i = i + 1;
        }
        assert(self@.subrange(0, self@.len() as int) =~= self@);
        fragment
    }
}

} // verus!
