//! Import configuration: which account, format and rewrite rules apply to a file.
use crate::import::error::ImportError;
use crate::text::{seq_contains, str_contains};
use encoding_rs::Encoding as RsEncoding;
use path_slash::PathBufExt;
use vstd::prelude::*;

verus! {

/// `encoding_rs::Encoding`, a character encoding.
#[verifier::external_type_specification]
#[verifier::external_body]
pub struct ExRsEncoding(RsEncoding);

/// Character encoding of the input file.
#[derive(Debug, PartialEq, Clone, Copy)]
pub struct Encoding(pub &'static RsEncoding);

impl Encoding {
    /// The `encoding_rs` encoding.
    pub fn as_encoding(&self) -> (r: &'static RsEncoding)
        ensures
            r == self.0,
    {
        self.0
    }
}

/// Type of the imported account.
#[derive(Debug, PartialEq, Eq, Structural, Clone, Copy)]
pub enum AccountType {
    Asset,
    Liability,
}

/// Precision of a commodity.
#[derive(Debug, PartialEq, Eq, Structural, Clone, Copy)]
pub struct CommodityFormatSpec {
    pub precision: u8,
}

/// Field of a CSV record.
#[derive(Debug, PartialEq, Eq, Structural, Clone, Copy, Hash)]
pub enum FieldKey {
    Date,
    Payee,
    Note,
    Category,
    Amount,
    Credit,
    Debit,
    Balance,
    Commodity,
    Rate,
    EquivalentAbsolute,
}

/// Position of a field: a column index, or a header label.
#[derive(Debug, PartialEq, Eq, Clone)]
pub enum FieldPos {
    Index(usize),
    Label(String),
}

impl FieldPos {
    /// Copy of the position.
    pub fn duplicate(&self) -> (r: Self)
        ensures
            r == *self,
    {
        match self {
            FieldPos::Index(i) => FieldPos::Index(*i),
            FieldPos::Label(l) => FieldPos::Label(l.clone()),
        }
    }
}

/// Format of the input: the date format, the precision of commodities, the field positions.
#[derive(Debug, PartialEq, Clone)]
pub struct FormatSpec {
    pub date: String,
    pub commodity: Vec<(String, CommodityFormatSpec)>,
    pub fields: Vec<(FieldKey, FieldPos)>,
}

/// Same content.
pub open spec fn format_same(a: FormatSpec, b: FormatSpec) -> bool {
    a.date == b.date && a.commodity@ == b.commodity@ && a.fields@ == b.fields@
}

impl FormatSpec {
    /// Empty format.
    pub fn empty() -> (r: Self)
        ensures
            r.date@.len() == 0,
            r.commodity@.len() == 0,
            r.fields@.len() == 0,
    {
        FormatSpec { date: String::new(), commodity: Vec::new(), fields: Vec::new() }
    }

    /// Copy of the format.
    pub fn duplicate(&self) -> (r: Self)
        ensures
            format_same(r, *self),
    {
        let mut commodity: Vec<(String, CommodityFormatSpec)> = Vec::new();
        let mut i: usize = 0;
        while i < self.commodity.len()
            invariant
                i <= self.commodity.len(),
                commodity@ == self.commodity@.subrange(0, i as int),
            decreases self.commodity.len() - i,
        {
            commodity.push((self.commodity[i].0.clone(), self.commodity[i].1));
            i = i + 1;
        }
        let mut fields: Vec<(FieldKey, FieldPos)> = Vec::new();
        let mut j: usize = 0;
        while j < self.fields.len()
            invariant
                j <= self.fields.len(),
                fields@ == self.fields@.subrange(0, j as int),
            decreases self.fields.len() - j,
        {
            fields.push((self.fields[j].0, self.fields[j].1.duplicate()));
            j = j + 1;
        }
        assert(commodity@ =~= self.commodity@);
        assert(fields@ =~= self.fields@);
        FormatSpec { date: self.date.clone(), commodity, fields }
    }
}

/// Field of a bank statement entry that a rewrite rule matches.
#[derive(Debug, PartialEq, Eq, Structural, Clone, Copy, Hash)]
pub enum RewriteField {
    DomainCode,
    DomainFamily,
    DomainSubFamily,
    CreditorName,
    CreditorAccountId,
    UltimateCreditorName,
    DebtorName,
    DebtorAccountId,
    UltimateDebtorName,
    RemittanceUnstructuredInfo,
    AdditionalTransactionInfo,
    Category,
    Payee,
}

impl RewriteField {
    /// The snake case name of the field.
    pub fn as_str(&self) -> (r: &'static str)
        ensures
            r@ == match self {
                RewriteField::DomainCode => "domain_code"@,
                RewriteField::DomainFamily => "domain_family"@,
                RewriteField::DomainSubFamily => "domain_sub_family"@,
                RewriteField::CreditorName => "creditor_name"@,
                RewriteField::CreditorAccountId => "creditor_account_id"@,
                RewriteField::UltimateCreditorName => "ultimate_creditor_name"@,
                RewriteField::DebtorName => "debtor_name"@,
                RewriteField::DebtorAccountId => "debtor_account_id"@,
                RewriteField::UltimateDebtorName => "ultimate_debtor_name"@,
                RewriteField::RemittanceUnstructuredInfo => "remittance_unstructured_info"@,
                RewriteField::AdditionalTransactionInfo => "additional_transaction_info"@,
                RewriteField::Category => "category"@,
                RewriteField::Payee => "payee"@,
            },
    {
        match self {
            RewriteField::DomainCode => "domain_code",
            RewriteField::DomainFamily => "domain_family",
            RewriteField::DomainSubFamily => "domain_sub_family",
            RewriteField::CreditorName => "creditor_name",
            RewriteField::CreditorAccountId => "creditor_account_id",
            RewriteField::UltimateCreditorName => "ultimate_creditor_name",
            RewriteField::DebtorName => "debtor_name",
            RewriteField::DebtorAccountId => "debtor_account_id",
            RewriteField::UltimateDebtorName => "ultimate_debtor_name",
            RewriteField::RemittanceUnstructuredInfo => "remittance_unstructured_info",
            RewriteField::AdditionalTransactionInfo => "additional_transaction_info",
            RewriteField::Category => "category",
            RewriteField::Payee => "payee",
        }
    }
}

/// Patterns on the fields of an entry, all of which must match.
#[derive(Debug, PartialEq, Eq, Clone)]
pub struct FieldMatcher {
    pub fields: Vec<(RewriteField, String)>,
}

impl FieldMatcher {
    /// Copy of the matcher.
    pub fn duplicate(&self) -> (r: Self)
        ensures
            r.fields@ == self.fields@,
    {
        let mut fields: Vec<(RewriteField, String)> = Vec::new();
        let mut i: usize = 0;
        while i < self.fields.len()
            invariant
                i <= self.fields.len(),
                fields@ == self.fields@.subrange(0, i as int),
            decreases self.fields.len() - i,
        {
            fields.push((self.fields[i].0, self.fields[i].1.clone()));
            i = i + 1;
        }
        assert(fields@ =~= self.fields@);
        FieldMatcher { fields }
    }
}

/// Matcher of a rewrite rule: one matcher, or any of several.
#[derive(Debug, PartialEq, Eq, Clone)]
pub enum RewriteMatcher {
    Or(Vec<FieldMatcher>),
    Field(FieldMatcher),
}

/// Same content.
pub open spec fn matcher_same(a: RewriteMatcher, b: RewriteMatcher) -> bool {
    match (a, b) {
        (RewriteMatcher::Field(x), RewriteMatcher::Field(y)) => x.fields@ == y.fields@,
        (RewriteMatcher::Or(xs), RewriteMatcher::Or(ys)) => xs@.len() == ys@.len() && forall|i: int|
            0 <= i < xs@.len() ==> (#[trigger] xs@[i]).fields@ == ys@[i].fields@,
        _ => false,
    }
}

impl RewriteMatcher {
    /// Copy of the matcher.
    pub fn duplicate(&self) -> (r: Self)
        ensures
            matcher_same(r, *self),
    {
        match self {
            RewriteMatcher::Field(f) => RewriteMatcher::Field(f.duplicate()),
            RewriteMatcher::Or(fs) => {
                let mut v: Vec<FieldMatcher> = Vec::new();
                let mut i: usize = 0;
                while i < fs.len()
                    invariant
                        i <= fs.len(),
                        v@.len() == i,
                        forall|k: int| 0 <= k < i ==> (#[trigger] v@[k]).fields@ == fs@[k].fields@,
                    decreases fs.len() - i,
                {
                    v.push(fs[i].duplicate());
                    i = i + 1;
                }
                RewriteMatcher::Or(v)
            },
        }
    }
}

/// Commodity conversion of a rewrite rule.
#[derive(Debug, PartialEq, Eq, Clone)]
pub enum CommodityConversion {
    /// Converted into the primary commodity.
    Unspecified(UnspecifiedCommodityConversion),
    /// Converted into the given commodity.
    Specified { commodity: String },
}

/// Conversion into the primary commodity.
#[derive(Debug, PartialEq, Eq, Structural, Clone, Copy)]
pub enum UnspecifiedCommodityConversion {
    Primary,
}

impl CommodityConversion {
    /// Copy of the conversion.
    pub fn duplicate(&self) -> (r: Self)
        ensures
            r == *self,
    {
        match self {
            CommodityConversion::Unspecified(u) => CommodityConversion::Unspecified(*u),
            CommodityConversion::Specified { commodity } => CommodityConversion::Specified {
                commodity: commodity.clone(),
            },
        }
    }
}

/// Rewrite rule: when the matcher matches, sets the payee, the account, the pending state
/// or the conversion.
#[derive(Debug, PartialEq, Eq, Clone)]
pub struct RewriteRule {
    pub matcher: RewriteMatcher,
    pub pending: bool,
    pub payee: Option<String>,
    pub account: Option<String>,
    pub conversion: Option<CommodityConversion>,
}

/// Same content.
pub open spec fn rule_same(a: RewriteRule, b: RewriteRule) -> bool {
    matcher_same(a.matcher, b.matcher) && a.pending == b.pending && a.payee == b.payee && a.account
        == b.account && a.conversion == b.conversion
}

/// Same rules, in order.
pub open spec fn rules_same(a: Seq<RewriteRule>, b: Seq<RewriteRule>) -> bool {
    a.len() == b.len() && forall|i: int| 0 <= i < a.len() ==> rule_same(#[trigger] a[i], b[i])
}

/// Copy of an optional string.
fn dup_opt_string(s: &Option<String>) -> (r: Option<String>)
    ensures
        r == *s,
{
    match s {
        Some(x) => Some(x.clone()),
        None => None,
    }
}

impl RewriteRule {
    /// Copy of the rule.
    pub fn duplicate(&self) -> (r: Self)
        ensures
            rule_same(r, *self),
    {
        RewriteRule {
            matcher: self.matcher.duplicate(),
            pending: self.pending,
            payee: dup_opt_string(&self.payee),
            account: dup_opt_string(&self.account),
            conversion: match &self.conversion {
                Some(c) => Some(c.duplicate()),
                None => None,
            },
        }
    }
}

/// Appends copies of the rules.
fn append_rules(dst: &mut Vec<RewriteRule>, src: &Vec<RewriteRule>)
    ensures
        final(dst)@.len() == old(dst)@.len() + src@.len(),
        rules_same(final(dst)@.subrange(0, old(dst)@.len() as int), old(dst)@),
        rules_same(final(dst)@.subrange(old(dst)@.len() as int, final(dst)@.len() as int), src@),
{
    let ghost start = dst@;
    let mut i: usize = 0;
    while i < src.len()
        invariant
            i <= src.len(),
            dst@.len() == start.len() + i,
            forall|k: int| 0 <= k < start.len() ==> #[trigger] dst@[k] == start[k],
            forall|k: int| 0 <= k < i ==> rule_same(#[trigger] dst@[start.len() + k], src@[k]),
        decreases src.len() - i,
    {
        dst.push(src[i].duplicate());
        i = i + 1;
    }
    assert forall|k: int| 0 <= k < start.len() implies rule_same(
        #[trigger] dst@.subrange(0, start.len() as int)[k],
        start[k],
    ) by {
        assert(dst@[k] == start[k]);
    }
    assert forall|k: int| 0 <= k < src@.len() implies rule_same(
        #[trigger] dst@.subrange(start.len() as int, dst@.len() as int)[k],
        src@[k],
    ) by {
        assert(dst@[start.len() + k] == dst@.subrange(start.len() as int, dst@.len() as int)[k]);
    }
}

/// Config of files under the path, any field may be left to other fragments.
#[derive(Debug, PartialEq, Clone)]
pub struct ConfigFragment {
    pub path: String,
    pub encoding: Option<Encoding>,
    pub account: Option<String>,
    pub account_type: Option<AccountType>,
    pub operator: Option<String>,
    pub commodity: Option<String>,
    pub format: Option<FormatSpec>,
    pub rewrite: Vec<RewriteRule>,
}

/// Complete config of a file.
#[derive(Debug, PartialEq, Clone)]
pub struct ConfigEntry {
    pub path: String,
    pub encoding: Encoding,
    pub account: String,
    pub account_type: AccountType,
    pub operator: Option<String>,
    pub commodity: String,
    pub format: FormatSpec,
    pub rewrite: Vec<RewriteRule>,
}

/// The value of the latest fragment along `order` that has one.
pub open spec fn pick<T>(entries: Seq<ConfigFragment>, order: Seq<usize>, f: spec_fn(ConfigFragment) -> Option<T>) -> Option<T>
    decreases order.len(),
{
    if order.len() == 0 {
        None
    } else {
        match f(entries[order.last() as int]) {
            Some(x) => Some(x),
            None => pick(entries, order.drop_last(), f),
        }
    }
}

/// Index of the latest fragment along `order` that has a format.
pub open spec fn pick_format(entries: Seq<ConfigFragment>, order: Seq<usize>) -> Option<usize>
    decreases order.len(),
{
    if order.len() == 0 {
        None
    } else if entries[order.last() as int].format is Some {
        Some(order.last())
    } else {
        pick_format(entries, order.drop_last())
    }
}

/// The rewrite rules of the fragments along `order`, concatenated.
pub open spec fn concat_rules(entries: Seq<ConfigFragment>, order: Seq<usize>) -> Seq<RewriteRule>
    decreases order.len(),
{
    if order.len() == 0 {
        Seq::empty()
    } else {
        concat_rules(entries, order.drop_last()) + entries[order.last() as int].rewrite@
    }
}

/// `m` is the merge of the fragments along `order`: later fragments win field by field, the
/// path is the last one's, and the rewrite rules are concatenated.
pub open spec fn merged_along(m: ConfigFragment, entries: Seq<ConfigFragment>, order: Seq<usize>) -> bool {
    &&& m.path == entries[order.last() as int].path
    &&& m.encoding == pick(entries, order, |f: ConfigFragment| f.encoding)
    &&& m.account == pick(entries, order, |f: ConfigFragment| f.account)
    &&& m.account_type == pick(entries, order, |f: ConfigFragment| f.account_type)
    &&& m.operator == pick(entries, order, |f: ConfigFragment| f.operator)
    &&& m.commodity == pick(entries, order, |f: ConfigFragment| f.commodity)
    &&& match pick_format(entries, order) {
        Some(i) => m.format matches Some(fm) && format_same(fm, entries[i as int].format->0),
        None => m.format is None,
    }
    &&& rules_same(m.rewrite@, concat_rules(entries, order))
}

/// The entry of a complete fragment, or the first field it misses: the encoding, the account,
/// the account type, then the commodity. A missing format is the empty one.
pub open spec fn entry_of(m: ConfigFragment, r: Result<ConfigEntry, ImportError>) -> bool {
    if m.encoding is None {
        r matches Err(ImportError::InvalidConfig(e)) && e@ == "no encoding specified"@
    } else if m.account is None {
        r matches Err(ImportError::InvalidConfig(e)) && e@ == "no account specified"@
    } else if m.account_type is None {
        r matches Err(ImportError::InvalidConfig(e)) && e@ == "no account_type specified"@
    } else if m.commodity is None {
        r matches Err(ImportError::InvalidConfig(e)) && e@ == "no commodity specified"@
    } else {
        r matches Ok(c) && c.path == m.path && c.encoding == m.encoding->0 && c.account
            == m.account->0 && c.account_type == m.account_type->0 && c.operator == m.operator
            && c.commodity == m.commodity->0 && (match m.format {
            Some(f) => format_same(c.format, f),
            None => c.format.date@.len() == 0 && c.format.commodity@.len() == 0
                && c.format.fields@.len() == 0,
        }) && rules_same(c.rewrite@, m.rewrite@)
    }
}

impl ConfigFragment {
    /// Copy of the fragment.
    pub fn duplicate(&self) -> (r: Self)
        ensures
            r.path == self.path,
            r.encoding == self.encoding,
            r.account == self.account,
            r.account_type == self.account_type,
            r.operator == self.operator,
            r.commodity == self.commodity,
            self.format is None ==> r.format is None,
            self.format matches Some(f) ==> (r.format matches Some(g) && format_same(g, f)),
            rules_same(r.rewrite@, self.rewrite@),
    {
        let mut rewrite: Vec<RewriteRule> = Vec::new();
        append_rules(&mut rewrite, &self.rewrite);
        assert(rewrite@.subrange(0, rewrite@.len() as int) =~= rewrite@);
        ConfigFragment {
            path: self.path.clone(),
            encoding: self.encoding,
            account: dup_opt_string(&self.account),
            account_type: self.account_type,
            operator: dup_opt_string(&self.operator),
            commodity: dup_opt_string(&self.commodity),
            format: match &self.format {
                Some(f) => Some(f.duplicate()),
                None => None,
            },
            rewrite,
        }
    }

    /// Merges `other` over `self`: the fields of `other` win, its path is kept, and the
    /// rewrite rules of `self` come first.
    pub fn merge(self, other: ConfigFragment) -> (r: ConfigFragment)
        ensures
            r.path == other.path,
            r.encoding == (if other.encoding is Some { other.encoding } else { self.encoding }),
            r.account == (if other.account is Some { other.account } else { self.account }),
            r.account_type == (if other.account_type is Some { other.account_type } else { self.account_type }),
            r.operator == (if other.operator is Some { other.operator } else { self.operator }),
            r.commodity == (if other.commodity is Some { other.commodity } else { self.commodity }),
            r.format == (if other.format is Some { other.format } else { self.format }),
            r.rewrite@ == self.rewrite@ + other.rewrite@,
    {
        let mut rewrite = self.rewrite;
        let mut tail = other.rewrite;
        rewrite.append(&mut tail);
        ConfigFragment {
            path: other.path,
            encoding: match other.encoding {
                Some(x) => Some(x),
                None => self.encoding,
            },
            account: match other.account {
                Some(x) => Some(x),
                None => self.account,
            },
            account_type: match other.account_type {
                Some(x) => Some(x),
                None => self.account_type,
            },
            operator: match other.operator {
                Some(x) => Some(x),
                None => self.operator,
            },
            commodity: match other.commodity {
                Some(x) => Some(x),
                None => self.commodity,
            },
            format: match other.format {
                Some(x) => Some(x),
                None => self.format,
            },
            rewrite,
        }
    }
}

impl ConfigEntry {
    /// The entry of a complete fragment, see [`entry_of`].
    pub fn try_from_fragment(value: ConfigFragment) -> (r: Result<ConfigEntry, ImportError>)
        ensures
            entry_of(value, r),
    {
        proof {
            reveal_strlit("no encoding specified");
            reveal_strlit("no account specified");
            reveal_strlit("no account_type specified");
            reveal_strlit("no commodity specified");
        }
        let ghost v = value;
        let encoding = match value.encoding {
            Some(e) => e,
            None => {
                return Err(ImportError::InvalidConfig("no encoding specified"));
            },
        };
        let account = match value.account {
            Some(a) => a,
            None => {
                return Err(ImportError::InvalidConfig("no account specified"));
            },
        };
        let account_type = match value.account_type {
            Some(a) => a,
            None => {
                return Err(ImportError::InvalidConfig("no account_type specified"));
            },
        };
        let commodity = match value.commodity {
            Some(c) => c,
            None => {
                return Err(ImportError::InvalidConfig("no commodity specified"));
            },
        };
        let format = match value.format {
            Some(f) => f.duplicate(),
            None => FormatSpec::empty(),
        };
        let mut rewrite: Vec<RewriteRule> = Vec::new();
        append_rules(&mut rewrite, &value.rewrite);
        assert(rewrite@.subrange(0, rewrite@.len() as int) =~= rewrite@);
        Ok(
            ConfigEntry {
                path: value.path,
                encoding,
                account,
                account_type,
                operator: value.operator,
                commodity,
                format,
                rewrite,
            },
        )
    }
}

/// Concatenations of same rules are the same.
proof fn lemma_rules_same_concat(a1: Seq<RewriteRule>, b1: Seq<RewriteRule>, a2: Seq<RewriteRule>, b2: Seq<RewriteRule>)
    requires
        rules_same(a1, b1),
        rules_same(a2, b2),
    ensures
        rules_same(a1 + a2, b1 + b2),
{
    assert forall|i: int| 0 <= i < (a1 + a2).len() implies rule_same(#[trigger] (a1 + a2)[i], (b1 + b2)[i]) by {
        if i < a1.len() {
            assert(rule_same(a1[i], b1[i]));
        } else {
            assert(rule_same(a2[i - a1.len()], b2[i - a1.len()]));
        }
    }
}

/// Sort key of a fragment: the length of its path, then its index.
pub open spec fn key_lt(entries: Seq<ConfigFragment>, i: usize, j: usize) -> bool {
    let (li, lj) = (entries[i as int].path@.len(), entries[j as int].path@.len());
    li < lj || (li == lj && i < j)
}

/// The fragment `i` applies to the file path `fp`: its converted path occurs in it.
pub open spec fn applies(eps: Seq<Option<String>>, fp: Seq<char>, i: int) -> bool {
    eps[i] matches Some(ep) && seq_contains(fp, ep@)
}

/// `order` lists the applying fragments, each once, by path length then by index.
pub open spec fn sorted_matches(entries: Seq<ConfigFragment>, eps: Seq<Option<String>>, fp: Seq<char>, order: Seq<usize>) -> bool {
    &&& forall|k: int| 0 <= k < order.len() ==> (#[trigger] order[k]) < entries.len() && applies(eps, fp, order[k] as int)
    &&& forall|i: int| 0 <= i < entries.len() && applies(eps, fp, i) ==> order.contains(i as usize)
    &&& forall|k: int, l: int| 0 <= k < l < order.len() ==> key_lt(entries, #[trigger] order[k], #[trigger] order[l])
}

/// Result of selecting the config of `fp` along the order of the applying fragments.
pub open spec fn selected(entries: Seq<ConfigFragment>, order: Seq<usize>, r: Result<Option<ConfigEntry>, ImportError>) -> bool {
    if order.len() == 0 {
        r == Ok::<Option<ConfigEntry>, ImportError>(None)
    } else {
        exists|m: ConfigFragment, e: Result<ConfigEntry, ImportError>|
            merged_along(m, entries, order) && entry_of(m, e) && r == match e {
                Ok(c) => Ok(Some(c)),
                Err(x) => Err(x),
            }
    }
}

/// `x` is `s` with each `/` possibly turned into the platform's path separator `\`.
pub open spec fn slash_converted(s: Seq<char>, x: Seq<char>) -> bool {
    x.len() == s.len() && forall|i: int| 0 <= i < s.len() ==> #[trigger] x[i] == s[i] || (s[i] == '/'
        && x[i] == '\\')
}

/// `path_slash`'s `PathBuf::from_slash`, as text: the slash path with the platform's separator
/// (`PathBuf::from` of the same text on Unix-like systems, `/` replaced with `\` on Windows).
/// The path comes from a `str`, so its text is always valid UTF-8 and the conversion back
/// loses nothing.
#[verifier::external_body]
fn path_from_slash(s: &str) -> (r: String)
    ensures
        slash_converted(s@, r@),
{
    std::path::PathBuf::from_slash(s).to_string_lossy().into_owned()
}

/// Set of config fragments.
#[derive(Debug, PartialEq)]
pub struct ConfigSet {
    pub entries: Vec<ConfigFragment>,
}

impl ConfigSet {
    /// Config set of the fragments.
    pub fn new(entries: Vec<ConfigFragment>) -> (r: Self)
        ensures
            r.entries == entries,
    {
        ConfigSet { entries }
    }

    /// Indices of the applying fragments, by path length then by index.
    fn matched_order(&self, fp: &str, eps: &Vec<Option<String>>) -> (r: Vec<usize>)
        requires
            eps@.len() == self.entries@.len(),
        ensures
            sorted_matches(self.entries@, eps@, fp@, r@),
    {
        let mut order: Vec<usize> = Vec::new();
        let mut i: usize = 0;
        while i < self.entries.len()
            invariant
                i <= self.entries@.len(),
                eps@.len() == self.entries@.len(),
                forall|k: int| 0 <= k < order@.len() ==> (#[trigger] order@[k]) < i && applies(eps@, fp@, order@[k] as int),
                forall|q: int| 0 <= q < i && applies(eps@, fp@, q) ==> order@.contains(q as usize),
                forall|k: int, l: int| 0 <= k < l < order@.len() ==> key_lt(self.entries@, #[trigger] order@[k], #[trigger] order@[l]),
            decreases self.entries@.len() - i,
        {
            let hit = match &eps[i] {
                Some(ep) => str_contains(fp, ep.as_str()),
                None => false,
            };
            if hit {
                let len_i = self.entries[i].path.as_str().unicode_len();
                let mut p: usize = 0;
                while p < order.len() && self.entries[order[p]].path.as_str().unicode_len() <= len_i
                    invariant
                        p <= order@.len(),
                        forall|k: int| 0 <= k < order@.len() ==> (#[trigger] order@[k]) < i,
                        i < self.entries@.len(),
                        len_i == self.entries@[i as int].path@.len(),
                        forall|k: int| 0 <= k < p ==> self.entries@[(#[trigger] order@[k]) as int].path@.len() <= len_i,
                    decreases order@.len() - p,
                {
                    p = p + 1;
                }
                let ghost before = order@;
                order.insert(p, i);
                proof {
                    assert forall|k: int| 0 <= k < order@.len() implies (#[trigger] order@[k]) < i + 1 && applies(eps@, fp@, order@[k] as int) by {
                        if k < p as int {
                            assert(order@[k] == before[k]);
                        } else if k > p as int {
                            assert(order@[k] == before[k - 1]);
                        }
                    }
                    assert forall|q: int| 0 <= q < i + 1 && applies(eps@, fp@, q) implies order@.contains(q as usize) by {
                        if q == i {
                            assert(order@[p as int] == i);
                        } else {
                            let k = choose|k: int| 0 <= k < before.len() && before[k] == q as usize;
                            if k < p as int {
                                assert(order@[k] == before[k]);
                            } else {
                                assert(order@[k + 1] == before[k]);
                            }
                        }
                    }
                    assert forall|k: int, l: int| 0 <= k < l < order@.len() implies key_lt(self.entries@, #[trigger] order@[k], #[trigger] order@[l]) by {
                        let pk = p as int;
                        if l < pk {
                            assert(order@[k] == before[k] && order@[l] == before[l]);
                        } else if l == pk {
                            assert(order@[k] == before[k]);
                        } else if k == pk {
                            assert(order@[l] == before[l - 1]);
                            if pk < before.len() {
                                assert(self.entries@[before[pk] as int].path@.len() > len_i);
                                if l - 1 > pk {
                                    assert(key_lt(self.entries@, before[pk], before[l - 1]));
                                }
                            }
                        } else if k < pk {
                            assert(order@[k] == before[k] && order@[l] == before[l - 1]);
                        } else {
                            assert(order@[k] == before[k - 1] && order@[l] == before[l - 1]);
                        }
                    }
                }
            }
            i = i + 1;
        }
        order
    }

    /// The config of the file path `fp`, given the converted path of each fragment: the
    /// applying fragments merged by path length then index, see [`selected`].
    pub fn select_with(&self, fp: &str, eps: &Vec<Option<String>>) -> (r: Result<Option<ConfigEntry>, ImportError>)
        requires
            eps@.len() == self.entries@.len(),
        ensures
            exists|order: Seq<usize>| sorted_matches(self.entries@, eps@, fp@, order) && selected(
                self.entries@,
                order,
                r,
            ),
    {
        let order = self.matched_order(fp, eps);
        if order.len() == 0 {
            assert(selected(self.entries@, order@, Ok(None)));
            return Ok(None);
        }
        let mut acc = self.entries[order[0]].duplicate();
        proof {
            let o1 = order@.subrange(0, 1);
            assert(o1.drop_last() =~= Seq::<usize>::empty());
            assert(o1.len() == 1);
            assert(o1.last() == order@[0]);
            assert(concat_rules(self.entries@, o1.drop_last()) =~= Seq::<RewriteRule>::empty());
            assert(concat_rules(self.entries@, o1) =~= self.entries@[order@[0] as int].rewrite@);
            assert(pick_format(self.entries@, o1.drop_last()) is None);
            let e0 = self.entries@[order@[0] as int];
            reveal_with_fuel(pick, 2);
            assert(acc.path == self.entries@[o1.last() as int].path);
            assert(acc.encoding == pick(self.entries@, o1, |f: ConfigFragment| f.encoding));
            assert(acc.account == pick(self.entries@, o1, |f: ConfigFragment| f.account));
            assert(acc.account_type == pick(self.entries@, o1, |f: ConfigFragment| f.account_type));
            assert(acc.operator == pick(self.entries@, o1, |f: ConfigFragment| f.operator));
            assert(acc.commodity == pick(self.entries@, o1, |f: ConfigFragment| f.commodity));
            assert(rules_same(acc.rewrite@, concat_rules(self.entries@, o1)));
            assert(merged_along(acc, self.entries@, o1));
        }
        let mut k: usize = 1;
        while k < order.len()
            invariant
                1 <= k <= order@.len(),
                sorted_matches(self.entries@, eps@, fp@, order@),
                merged_along(acc, self.entries@, order@.subrange(0, k as int)),
            decreases order@.len() - k,
        {
            let next = self.entries[order[k]].duplicate();
            let ghost prev = acc;
            acc = acc.merge(next);
            proof {
                let ok = order@.subrange(0, k + 1);
                assert(ok.drop_last() =~= order@.subrange(0, k as int));
                assert(ok.last() == order@[k as int]);
                lemma_rules_same_concat(prev.rewrite@, concat_rules(self.entries@, order@.subrange(0, k as int)), next.rewrite@, self.entries@[order@[k as int] as int].rewrite@);
                assert(merged_along(acc, self.entries@, ok));
            }
            k = k + 1;
        }
        assert(order@.subrange(0, order@.len() as int) =~= order@);
        let ghost m = acc;
        let e = ConfigEntry::try_from_fragment(acc);
        let r = match e {
            Ok(c) => Ok(Some(c)),
            Err(x) => Err(x),
        };
        assert(selected(self.entries@, order@, r));
        r
    }

    /// The config of the file path `fp`, see [`ConfigSet::select_with`] with the fragment paths
    /// converted by `path_slash`.
    pub fn select(&self, fp: &str) -> (r: Result<Option<ConfigEntry>, ImportError>)
        ensures
            exists|eps: Seq<Option<String>>, order: Seq<usize>|
                eps.len() == self.entries@.len() && (forall|i: int| 0 <= i < eps.len() ==> ((#[trigger] eps[i]) matches Some(x) && slash_converted(self.entries@[i].path@, x@)))
                    && sorted_matches(self.entries@, eps, fp@, order) && selected(self.entries@, order, r),
    {
        let mut eps: Vec<Option<String>> = Vec::new();
        let mut i: usize = 0;
        while i < self.entries.len()
            invariant
                i <= self.entries@.len(),
                eps@.len() == i,
                forall|k: int| 0 <= k < i ==> ((#[trigger] eps@[k]) matches Some(x) && slash_converted(self.entries@[k].path@, x@)),
            decreases self.entries@.len() - i,
        {
            eps.push(Some(path_from_slash(self.entries[i].path.as_str())));
            i = i + 1;
        }
        self.select_with(fp, &eps)
    }
}

} // verus!
