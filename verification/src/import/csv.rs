//! CSV statements: the columns of the fields, the rewrite rules on each record, and the
//! single-entry transactions they give.
use crate::data::{self, ClearState, Exchange, ExchangedAmount};
use crate::date::{date_parse, Date};
use crate::decimal::{decimal_from_str, view_neg, Decimal, DecimalView};
use crate::import::config::{AccountType, CommodityConversion, ConfigEntry, FieldKey, FieldPos, RewriteField};
use crate::import::error::{error_text, ImportError};
use crate::import::extract::{
    config_rules, extract_spec, regex_payee_capture, regex_valid, EntityMatcher, Extractor, Fragment, MatchSource,
    Matched, Pattern, RuleView, matched_view, opt_text, regex_code_capture, rules_error,
};
use crate::import::single_entry::{txn_views, Txn, TxnView};
use crate::text::{
    chars_of, decimal_digits, distinct_sorted_upto, insert_distinct_text, insert_sorted_text, joined, lemma_sorted_upto_prefix, push_char, push_joined,
    push_str, push_usize, sorted_upto, str_eq, texts,
};
use vstd::prelude::*;

verus! {

/// The text without its commas.
pub open spec fn without_commas(s: Seq<char>) -> Seq<char>
    decreases s.len(),
{
    if s.len() == 0 {
        Seq::empty()
    } else {
        without_commas(s.drop_last()) + if s.last() == ',' { Seq::empty() } else { seq![s.last()] }
    }
}

/// The decimal of the text with its commas left out.
pub open spec fn comma_decimal(s: Seq<char>) -> Option<DecimalView> {
    decimal_from_str(without_commas(s))
}

/// Parses a decimal written with thousands separators.
pub fn str_to_comma_decimal(s: &str) -> (r: Result<Decimal, ImportError>)
    ensures
        match r {
            Ok(d) => comma_decimal(s@) == Some(d@),
            Err(e) => comma_decimal(s@) is None && e == ImportError::InvalidDecimal,
        },
{
    let chars = chars_of(s);
    let mut t = String::new();
    assert(t@ =~= without_commas(s@.subrange(0, 0)));
    let mut i: usize = 0;
    while i < chars.len()
        invariant
            chars@ == s@,
            i <= chars@.len(),
            t@ == without_commas(s@.subrange(0, i as int)),
        decreases chars@.len() - i,
    {
        assert(s@.subrange(0, i + 1).drop_last() =~= s@.subrange(0, i as int));
        if chars[i] != ',' {
            push_char(&mut t, chars[i]);
        }
        i = i + 1;
        assert(t@ =~= without_commas(s@.subrange(0, i as int)));
    }
    assert(s@.subrange(0, s@.len() as int) =~= s@);
    match Decimal::parse(t.as_str()) {
        Some(d) => Ok(d),
        None => Err(ImportError::InvalidDecimal),
    }
}

/// Record of a CSV line that the rewrite rules look at.
pub struct Record {
    pub payee: String,
    pub category: Option<String>,
}

impl View for Record {
    type V = (Seq<char>, Option<Seq<char>>);

    open spec fn view(&self) -> (Seq<char>, Option<Seq<char>>) {
        (self.payee@, opt_text(self.category))
    }
}

/// Field of a record a CSV matcher looks at.
#[derive(Debug, PartialEq, Eq, Structural, Clone, Copy)]
pub enum Field {
    Payee,
    Category,
}

/// Matcher of a CSV record.
pub struct CsvMatcher {
    pub field: Field,
    pub pattern: Pattern,
}

impl EntityMatcher for CsvMatcher {
    type T = Record;

    open spec fn accepts(field: RewriteField, pattern: Seq<char>) -> bool {
        (field == RewriteField::Payee || field == RewriteField::Category) && regex_valid(pattern)
    }

    open spec fn refusal(field: RewriteField, pattern: Seq<char>) -> ImportError {
        if field == RewriteField::Payee || field == RewriteField::Category {
            ImportError::InvalidRegex
        } else {
            ImportError::InvalidConfig("CSV only supports payee or category matcher.")
        }
    }

    open spec fn source(&self) -> MatchSource {
        (
            match self.field {
                Field::Payee => RewriteField::Payee,
                Field::Category => RewriteField::Category,
            },
            self.pattern.source(),
        )
    }

    /// The payee pattern matches the payee so far (or that of the record), its group
    /// `payee` giving a new one; the category pattern matches the category, giving none.
    open spec fn captured_by(source: MatchSource, payee: Option<Seq<char>>, entity: (Seq<char>, Option<Seq<char>>)) -> Option<Option<Seq<char>>> {
        if source.0 == RewriteField::Payee {
            regex_payee_capture(
                source.1,
                match payee {
                    Some(p) => p,
                    None => entity.0,
                },
            )
        } else if source.0 == RewriteField::Category {
            match entity.1 {
                Some(c) => if regex_payee_capture(source.1, c) is Some {
                    Some(None)
                } else {
                    None
                },
                None => None,
            }
        } else {
            None
        }
    }

    open spec fn code_by(source: MatchSource, payee: Option<Seq<char>>, entity: (Seq<char>, Option<Seq<char>>)) -> Option<Seq<char>> {
        if source.0 == RewriteField::Payee {
            regex_code_capture(
                source.1,
                match payee {
                    Some(p) => p,
                    None => entity.0,
                },
            )
        } else {
            None
        }
    }

    fn try_from_field(field: RewriteField, pattern: &str) -> (r: Result<CsvMatcher, ImportError>) {
        let field = match field {
            RewriteField::Payee => Field::Payee,
            RewriteField::Category => Field::Category,
            _ => {
                return Err(ImportError::InvalidConfig("CSV only supports payee or category matcher."));
            },
        };
        let pattern = match Pattern::new(pattern) {
            Ok(p) => p,
            Err(e) => {
                return Err(e);
            },
        };
        Ok(CsvMatcher { field, pattern })
    }

    fn captures(&self, fragment: &Fragment, entity: &Record) -> (r: Option<Matched>) {
        match self.field {
            Field::Payee => {
                let payee = match &fragment.payee {
                    Some(p) => p.as_str(),
                    None => entity.payee.as_str(),
                };
                match self.pattern.captures(payee) {
                    Some(p) => Some(Matched { payee: p.0, code: p.1 }),
                    None => None,
                }
            },
            Field::Category => match &entity.category {
                Some(c) => match self.pattern.captures(c.as_str()) {
                    Some(_) => Some(Matched::default()),
                    None => None,
                },
                None => None,
            },
        }
    }
}

/// Columns of the amount: one signed amount, or a credit and a debit column.
#[derive(PartialEq, Eq, Structural, Debug, Clone, Copy)]
pub enum FieldMapValues {
    CreditDebit { credit: usize, debit: usize },
    Amount(usize),
}

/// Columns of the fields of a record.
#[derive(PartialEq, Eq, Structural, Debug, Clone, Copy)]
pub struct FieldMap {
    pub date: usize,
    pub payee: usize,
    pub value: FieldMapValues,
    pub balance: Option<usize>,
    pub category: Option<usize>,
    pub commodity: Option<usize>,
    pub rate: Option<usize>,
    pub equivalent_absolute: Option<usize>,
}

/// The larger of two columns.
pub open spec fn max2(a: int, b: int) -> int {
    if a < b { b } else { a }
}

/// The largest column of the amount.
pub open spec fn values_max(v: FieldMapValues) -> int {
    match v {
        FieldMapValues::CreditDebit { credit, debit } => max2(credit as int, debit as int),
        FieldMapValues::Amount(a) => a as int,
    }
}

/// The column, or 0.
pub open spec fn or_zero(o: Option<usize>) -> int {
    match o {
        Some(i) => i as int,
        None => 0,
    }
}

/// The largest column of the fields.
pub open spec fn fieldmap_max(fm: FieldMap) -> int {
    max2(
        max2(max2(fm.date as int, fm.payee as int), max2(values_max(fm.value), or_zero(fm.balance))),
        max2(max2(or_zero(fm.commodity), or_zero(fm.category)), max2(or_zero(fm.rate), or_zero(fm.equivalent_absolute))),
    )
}

/// The larger of two columns.
fn exec_max2(a: usize, b: usize) -> (r: usize)
    ensures
        r == max2(a as int, b as int),
{
    if a < b { b } else { a }
}

/// The column, or 0.
fn exec_or_zero(o: Option<usize>) -> (r: usize)
    ensures
        r == or_zero(o),
{
    match o {
        Some(i) => i,
        None => 0,
    }
}

/// The amount of a record: the credit when it is not empty, else minus the debit; or the
/// amount, negated for a liability.
pub open spec fn value_amount(v: FieldMapValues, at: AccountType, row: Seq<Seq<char>>) -> Result<DecimalView, Seq<char>> {
    match v {
        FieldMapValues::CreditDebit { credit, debit } => if row[credit as int].len() > 0 {
            match comma_decimal(row[credit as int]) {
                Some(d) => Ok(d),
                None => Err("invalid decimal"@),
            }
        } else if row[debit as int].len() > 0 {
            match comma_decimal(row[debit as int]) {
                Some(d) => Ok(view_neg(d)),
                None => Err("invalid decimal"@),
            }
        } else {
            Err("other error: "@ + "credit and debit both zero"@)
        },
        FieldMapValues::Amount(a) => match comma_decimal(row[a as int]) {
            Some(d) => Ok(
                match at {
                    AccountType::Asset => d,
                    AccountType::Liability => view_neg(d),
                },
            ),
            None => Err("invalid decimal"@),
        },
    }
}

impl FieldMapValues {
    /// The largest column of the amount.
    pub fn max(&self) -> (r: usize)
        ensures
            r == values_max(*self),
    {
        match self {
            FieldMapValues::CreditDebit { credit, debit } => exec_max2(*credit, *debit),
            FieldMapValues::Amount(amount) => *amount,
        }
    }

    /// The amount of the record, see [`value_amount`].
    pub fn amount(&self, at: AccountType, r: &Vec<String>) -> (res: Result<Decimal, ImportError>)
        requires
            values_max(*self) < r@.len(),
        ensures
            match value_amount(*self, at, texts(r@)) {
                Ok(d) => res matches Ok(x) && x@ == d,
                Err(m) => res matches Err(e) && error_text(e) == m,
            },
    {
        match self {
            FieldMapValues::CreditDebit { credit, debit } => {
                assert(texts(r@)[*credit as int] == r@[*credit as int]@);
                assert(texts(r@)[*debit as int] == r@[*debit as int]@);
                let credit = r[*credit].as_str();
                let debit = r[*debit].as_str();
                if !credit.is_empty() {
                    str_to_comma_decimal(credit)
                } else if !debit.is_empty() {
                    match str_to_comma_decimal(debit) {
                        Ok(d) => Ok(d.neg()),
                        Err(e) => Err(e),
                    }
                } else {
                    let mut m = String::new();
                    assert(m@ =~= Seq::<char>::empty());
                    push_str(&mut m, "credit and debit both zero");
                    assert(m@ =~= "credit and debit both zero"@);
                    Err(ImportError::Other(m))
                }
            },
            FieldMapValues::Amount(a) => {
                assert(texts(r@)[*a as int] == r@[*a as int]@);
                let amount = match str_to_comma_decimal(r[*a].as_str()) {
                    Ok(d) => d,
                    Err(e) => {
                        return Err(e);
                    },
                };
                Ok(
                    match at {
                        AccountType::Asset => amount,
                        AccountType::Liability => amount.neg(),
                    },
                )
            },
        }
    }
}

impl FieldMap {
    /// The largest column of the fields.
    pub fn max(&self) -> (r: usize)
        ensures
            r == fieldmap_max(*self),
    {
        exec_max2(
            exec_max2(exec_max2(self.date, self.payee), exec_max2(self.value.max(), exec_or_zero(self.balance))),
            exec_max2(
                exec_max2(exec_or_zero(self.commodity), exec_or_zero(self.category)),
                exec_max2(exec_or_zero(self.rate), exec_or_zero(self.equivalent_absolute)),
            ),
        )
    }
}

/// The last column before `n` with the label.
pub open spec fn label_index(header: Seq<Seq<char>>, label: Seq<char>, n: int) -> Option<usize>
    decreases n,
{
    if n <= 0 {
        None
    } else if header[n - 1] == label {
        Some((n - 1) as usize)
    } else {
        label_index(header, label, n - 1)
    }
}

/// The last column with the label.
pub open spec fn label_of(header: Seq<Seq<char>>, label: Seq<char>) -> Option<usize> {
    label_index(header, label, header.len() as int)
}

/// The column of a position.
pub open spec fn pos_index(header: Seq<Seq<char>>, pos: FieldPos) -> Option<usize> {
    match pos {
        FieldPos::Index(i) => Some(i),
        FieldPos::Label(l) => label_of(header, l@),
    }
}

/// The position is a label not in the header.
pub open spec fn label_missing(header: Seq<Seq<char>>, pos: FieldPos) -> bool {
    match pos {
        FieldPos::Label(l) => label_of(header, l@) is None,
        FieldPos::Index(_) => false,
    }
}

/// A label of the mapping is not in the header.
pub open spec fn missing_label(mapping: Seq<(FieldKey, FieldPos)>, header: Seq<Seq<char>>) -> bool {
    exists|i: int| 0 <= i < mapping.len() && label_missing(header, (#[trigger] mapping[i]).1)
}

/// The labels of the first `n` entries of the mapping that are not in the header, in order.
pub open spec fn missing_labels_upto(mapping: Seq<(FieldKey, FieldPos)>, header: Seq<Seq<char>>, n: int) -> Seq<Seq<char>>
    decreases n,
{
    if n <= 0 {
        Seq::empty()
    } else {
        let acc = missing_labels_upto(mapping, header, n - 1);
        match mapping[n - 1].1 {
            FieldPos::Label(l) => if label_of(header, l@) is None { acc.push(l@) } else { acc },
            FieldPos::Index(_) => acc,
        }
    }
}

/// The message of labels not in the header: the missing labels sorted, and the distinct
/// labels of the header sorted, each joined by `,`.
pub open spec fn missing_labels_message(mapping: Seq<(FieldKey, FieldPos)>, header: Seq<Seq<char>>) -> Seq<char> {
    let missing = missing_labels_upto(mapping, header, mapping.len() as int);
    "specified labels not found: "@ + joined(sorted_upto(missing, missing.len() as int), ","@) + " actual labels: "@
        + joined(distinct_sorted_upto(header, header.len() as int), ","@)
}

/// The column of the first entry of the key from `i` on.
pub open spec fn key_index(mapping: Seq<(FieldKey, FieldPos)>, header: Seq<Seq<char>>, key: FieldKey, i: int) -> Option<usize>
    decreases mapping.len() - i,
{
    if i < 0 || i >= mapping.len() {
        None
    } else if mapping[i].0 == key {
        pos_index(header, mapping[i].1)
    } else {
        key_index(mapping, header, key, i + 1)
    }
}

/// The column of the key.
pub open spec fn field_of(mapping: Seq<(FieldKey, FieldPos)>, header: Seq<Seq<char>>, key: FieldKey) -> Option<usize> {
    key_index(mapping, header, key, 0)
}

/// The columns of the fields, all labels being in the header: the date and the payee must
/// be given, and the amount or both the credit and the debit.
pub open spec fn resolution(mapping: Seq<(FieldKey, FieldPos)>, header: Seq<Seq<char>>) -> Result<FieldMap, ImportError> {
    let f = |k: FieldKey| field_of(mapping, header, k);
    if f(FieldKey::Date) is None {
        Err(ImportError::InvalidConfig("no Date field specified"))
    } else if f(FieldKey::Payee) is None {
        Err(ImportError::InvalidConfig("no Payee field specified"))
    } else {
        let value = match f(FieldKey::Amount) {
            Some(a) => Some(FieldMapValues::Amount(a)),
            None => match (f(FieldKey::Credit), f(FieldKey::Debit)) {
                (Some(c), Some(d)) => Some(FieldMapValues::CreditDebit { credit: c, debit: d }),
                _ => None,
            },
        };
        match value {
            None => Err(ImportError::InvalidConfig("either amount or credit/debit pair should be set")),
            Some(v) => Ok(
                FieldMap {
                    date: f(FieldKey::Date)->0,
                    payee: f(FieldKey::Payee)->0,
                    value: v,
                    balance: f(FieldKey::Balance),
                    category: f(FieldKey::Category),
                    commodity: f(FieldKey::Commodity),
                    rate: f(FieldKey::Rate),
                    equivalent_absolute: f(FieldKey::EquivalentAbsolute),
                },
            ),
        }
    }
}

/// The last column with the label.
fn label_position(header: &Vec<String>, label: &str) -> (r: Option<usize>)
    ensures
        r == label_of(texts(header@), label@),
{
    let ghost h = texts(header@);
    let mut found: Option<usize> = None;
    let mut k: usize = 0;
    while k < header.len()
        invariant
            h == texts(header@),
            k <= header@.len(),
            found == label_index(h, label@, k as int),
        decreases header@.len() - k,
    {
        if str_eq(header[k].as_str(), label) {
            found = Some(k);
        }
        k = k + 1;
    }
    found
}

/// The column of the first entry of the key in the mapping.
fn find_key(mapping: &Vec<(FieldKey, FieldPos)>, header: &Vec<String>, key: FieldKey) -> (r: Option<usize>)
    ensures
        r == field_of(mapping@, texts(header@), key),
{
    let mut i: usize = 0;
    while i < mapping.len()
        invariant
            i <= mapping@.len(),
            field_of(mapping@, texts(header@), key) == key_index(mapping@, texts(header@), key, i as int),
        decreases mapping@.len() - i,
    {
        if mapping[i].0 == key {
            return match &mapping[i].1 {
                FieldPos::Index(c) => Some(*c),
                FieldPos::Label(l) => label_position(header, l.as_str()),
            };
        }
        i = i + 1;
    }
    None
}

/// The columns of the fields of the config in the header: `Other` with the labels not in
/// the header, else see [`resolution`].
pub fn resolve_fields(config_mapping: &Vec<(FieldKey, FieldPos)>, header: &Vec<String>) -> (r: Result<FieldMap, ImportError>)
    ensures
        missing_label(config_mapping@, texts(header@)) ==> (r matches Err(ImportError::Other(m)) && m@
            == missing_labels_message(config_mapping@, texts(header@))),
        !missing_label(config_mapping@, texts(header@)) ==> r == resolution(config_mapping@, texts(header@)),
{
    let ghost h = texts(header@);
    let mut not_found: Vec<String> = Vec::new();
    let ghost mut missing: Seq<Seq<char>> = Seq::empty();
    let mut any_missing = false;
    let mut i: usize = 0;
    while i < config_mapping.len()
        invariant
            h == texts(header@),
            i <= config_mapping@.len(),
            missing == missing_labels_upto(config_mapping@, h, i as int),
            texts(not_found@) == sorted_upto(missing, missing.len() as int),
            any_missing <==> exists|j: int| 0 <= j < i && label_missing(h, (#[trigger] config_mapping@[j]).1),
        decreases config_mapping@.len() - i,
    {
        match &config_mapping[i].1 {
            FieldPos::Label(label) => {
                if label_position(header, label.as_str()).is_none() {
                    insert_sorted_text(&mut not_found, label.as_str());
                    proof {
                        let before = missing;
                        missing = missing.push(label@);
                        assert(missing.drop_last() =~= before);
                        lemma_sorted_upto_prefix(before, missing, before.len() as int);
                    }
                    any_missing = true;
                }
            },
            FieldPos::Index(_) => {},
        }
        i = i + 1;
    }
    if any_missing {
        let mut labels: Vec<String> = Vec::new();
        let mut k: usize = 0;
        while k < header.len()
            invariant
                h == texts(header@),
                k <= header@.len(),
                texts(labels@) == distinct_sorted_upto(h, k as int),
            decreases header@.len() - k,
        {
            insert_distinct_text(&mut labels, header[k].as_str());
            k = k + 1;
        }
        let mut m = String::new();
        assert(m@ =~= Seq::<char>::empty());
        push_str(&mut m, "specified labels not found: ");
        push_joined(&mut m, &not_found, ",");
        push_str(&mut m, " actual labels: ");
        push_joined(&mut m, &labels, ",");
        return Err(ImportError::Other(m));
    }
    let date = match find_key(config_mapping, header, FieldKey::Date) {
        Some(d) => d,
        None => {
            return Err(ImportError::InvalidConfig("no Date field specified"));
        },
    };
    let payee = match find_key(config_mapping, header, FieldKey::Payee) {
        Some(p) => p,
        None => {
            return Err(ImportError::InvalidConfig("no Payee field specified"));
        },
    };
    let value = match find_key(config_mapping, header, FieldKey::Amount) {
        Some(a) => FieldMapValues::Amount(a),
        None => match (find_key(config_mapping, header, FieldKey::Credit), find_key(config_mapping, header, FieldKey::Debit)) {
            (Some(c), Some(d)) => FieldMapValues::CreditDebit { credit: c, debit: d },
            _ => {
                return Err(ImportError::InvalidConfig("either amount or credit/debit pair should be set"));
            },
        },
    };
    Ok(
        FieldMap {
            date,
            payee,
            value,
            balance: find_key(config_mapping, header, FieldKey::Balance),
            category: find_key(config_mapping, header, FieldKey::Category),
            commodity: find_key(config_mapping, header, FieldKey::Commodity),
            rate: find_key(config_mapping, header, FieldKey::Rate),
            equivalent_absolute: find_key(config_mapping, header, FieldKey::EquivalentAbsolute),
        },
    )
}


/// The decimal of the column, if any: `None` when it does not parse.
pub open spec fn opt_decimal(row: Seq<Seq<char>>, col: Option<usize>) -> Option<Option<DecimalView>> {
    match col {
        None => Some(None),
        Some(i) => match comma_decimal(row[i as int]) {
            Some(d) => Some(Some(d)),
            None => None,
        },
    }
}

/// Error text of a message with the line number.
pub open spec fn line_error(msg: Seq<char>, line: nat) -> Seq<char> {
    "other error: "@ + msg + decimal_digits(line)
}

/// The transaction of a record at the line, `None` when its date is empty, else the error
/// text: the fields in order, the rules on the payee and category, the conversion the
/// rules give.
pub open spec fn row_outcome(
    config: ConfigEntry,
    fm: FieldMap,
    rules: Seq<RuleView>,
    row: Seq<Seq<char>>,
    line: nat,
) -> Result<Option<TxnView>, Seq<char>> {
    if row.len() <= fieldmap_max(fm) {
        Err(line_error("csv record length too short at line "@, line))
    } else if row[fm.date as int].len() == 0 {
        Ok(None)
    } else {
        match date_parse(row[fm.date as int], config.format.date@) {
            None => Err("invalid datetime"@),
            Some(date) => match value_amount(fm.value, config.account_type, row) {
                Err(m) => Err(m),
                Ok(amount) => match (
                    opt_decimal(row, fm.balance),
                    opt_decimal(row, fm.equivalent_absolute),
                    opt_decimal(row, fm.rate),
                ) {
                    (None, _, _) => Err("invalid decimal"@),
                    (Some(_), None, _) => Err("invalid decimal"@),
                    (Some(_), Some(_), None) => Err("invalid decimal"@),
                    (Some(balance), Some(eqa), Some(rate)) => {
                        let category = match fm.category {
                            Some(i) => Some(row[i as int]),
                            None => None,
                        };
                        let commodity = match fm.commodity {
                            Some(i) => row[i as int],
                            None => config.commodity@,
                        };
                        let frag = extract_spec::<CsvMatcher>(rules, (row[fm.payee as int], category));
                        let base = TxnView {
                            date,
                            effective_date: None,
                            code: frag.4,
                            payee: match frag.1 {
                                Some(p) => p,
                                None => row[fm.payee as int],
                            },
                            dest_account: frag.2,
                            clear_state: if frag.0 { ClearState::Cleared } else { ClearState::Pending },
                            amount: (amount, commodity),
                            balance: match balance {
                                Some(b) => Some((b, commodity)),
                                None => None,
                            },
                            rate: None,
                            transferred: None,
                        };
                        match frag.3 {
                            None => Ok(Some(base)),
                            Some(conv) => match rate {
                                None => Err(line_error("no rate specified: line "@, line)),
                                Some(rt) => match conv {
                                    CommodityConversion::Unspecified(_) => match eqa {
                                        None => Err(
                                            line_error(
                                                "equivalent_amount should be specified when primary conversion is used @ line "@,
                                                line,
                                            ),
                                        ),
                                        Some(e) => Ok(
                                            Some(
                                                TxnView {
                                                    rate: Some((false, (rt, config.commodity@))),
                                                    transferred: Some(((e, config.commodity@), None)),
                                                    ..base
                                                },
                                            ),
                                        ),
                                    },
                                    CommodityConversion::Specified { commodity: rc } => Ok(
                                        Some(TxnView { transferred: Some(((amount, rc@), Some((false, (rt, commodity))))), ..base }),
                                    ),
                                },
                            },
                        }
                    },
                },
            },
        }
    }
}

/// The commodity of an imported record is the text of its commodity column when the field
/// map has one, and the commodity of the config only when it has none; the balance of the
/// record is the decimal of its balance column, in that same commodity, and there is none
/// without such a column; the date is the date column read in the configured format.
pub proof fn law_row_commodity(
    config: ConfigEntry,
    fm: FieldMap,
    rules: Seq<RuleView>,
    row: Seq<Seq<char>>,
    line: nat,
)
    ensures
        row_outcome(config, fm, rules, row, line) matches Ok(Some(t)) ==> {
            &&& fm.commodity matches Some(i) ==> t.amount.1 == row[i as int]
            &&& fm.commodity is None ==> t.amount.1 == config.commodity@
            &&& t.balance matches Some(b) ==> b.1 == t.amount.1
            &&& fm.balance is None ==> t.balance is None
            &&& fm.balance matches Some(i) ==> (t.balance matches Some(b) && comma_decimal(row[i as int]) == Some(b.0))
            &&& date_parse(row[fm.date as int], config.format.date@) == Some(t.date)
        },
{
}

/// The amount of an imported record is the decimal of its credit column when that is not
/// empty, else the negated decimal of its debit column; with a single amount column, it is
/// that decimal for an asset account and its negation for a liability.
pub proof fn law_row_amount(
    config: ConfigEntry,
    fm: FieldMap,
    rules: Seq<RuleView>,
    row: Seq<Seq<char>>,
    line: nat,
)
    ensures
        row_outcome(config, fm, rules, row, line) matches Ok(Some(t)) ==> match fm.value {
            FieldMapValues::CreditDebit { credit, debit } => if row[credit as int].len() > 0 {
                comma_decimal(row[credit as int]) == Some(t.amount.0)
            } else {
                row[debit as int].len() > 0 && (comma_decimal(row[debit as int]) matches Some(d) && t.amount.0 == view_neg(d))
            },
            FieldMapValues::Amount(a) => (comma_decimal(row[a as int]) matches Some(d) && (config.account_type is Asset
                ==> t.amount.0 == d) && (config.account_type is Liability ==> t.amount.0 == view_neg(d))),
        },
{
}

/// The decimal of the column, if any.
fn parse_column(row: &Vec<String>, col: Option<usize>) -> (r: Result<Option<Decimal>, ImportError>)
    requires
        col matches Some(i) ==> i < row@.len(),
    ensures
        match opt_decimal(texts(row@), col) {
            Some(Some(d)) => r matches Ok(Some(x)) && x@ == d,
            Some(None) => r matches Ok(None),
            None => r == Err::<Option<Decimal>, ImportError>(ImportError::InvalidDecimal),
        },
{
    match col {
        None => Ok(None),
        Some(i) => {
            assert(texts(row@)[i as int] == row@[i as int]@);
            match str_to_comma_decimal(row[i].as_str()) {
                Ok(d) => Ok(Some(d)),
                Err(e) => Err(e),
            }
        },
    }
}

/// `Other` with the message and the line number.
fn line_failure(msg: &str, line: usize) -> (r: ImportError)
    ensures
        error_text(r) == line_error(msg@, line as nat),
{
    let mut m = String::new();
    assert(m@ =~= Seq::<char>::empty());
    push_str(&mut m, msg);
    push_usize(&mut m, line);
    let r = ImportError::Other(m);
    assert(error_text(r) =~= line_error(msg@, line as nat));
    r
}

/// The transaction of a record at the line, see [`row_outcome`].
pub fn import_row(
    config: &ConfigEntry,
    fm: &FieldMap,
    extractor: &Extractor<CsvMatcher>,
    row: &Vec<String>,
    line: usize,
) -> (r: Result<Option<Txn>, ImportError>)
    ensures
        match row_outcome(*config, *fm, extractor@, texts(row@), line as nat) {
            Ok(None) => r matches Ok(None),
            Ok(Some(t)) => r matches Ok(Some(x)) && crate::import::single_entry::txn_view(x) == t,
            Err(m) => r matches Err(e) && error_text(e) == m,
        },
{
    let ghost cells = texts(row@);
    if row.len() <= fm.max() {
        return Err(line_failure("csv record length too short at line ", line));
    }
    assert(cells[fm.date as int] == row@[fm.date as int]@);
    assert(cells[fm.payee as int] == row@[fm.payee as int]@);
    let datestr = row[fm.date].as_str();
    if datestr.is_empty() {
        return Ok(None);
    }
    let date = match Date::parse(datestr, config.format.date.as_str()) {
        Some(d) => d,
        None => {
            return Err(ImportError::InvalidDatetime);
        },
    };
    let original_payee = row[fm.payee].as_str();
    let amount = match fm.value.amount(config.account_type, row) {
        Ok(a) => a,
        Err(e) => {
            return Err(e);
        },
    };
    let balance = match parse_column(row, fm.balance) {
        Ok(b) => b,
        Err(e) => {
            return Err(e);
        },
    };
    let equivalent_amount = match parse_column(row, fm.equivalent_absolute) {
        Ok(b) => b,
        Err(e) => {
            return Err(e);
        },
    };
    let rate = match parse_column(row, fm.rate) {
        Ok(b) => b,
        Err(e) => {
            return Err(e);
        },
    };
    let category = match fm.category {
        Some(i) => {
            assert(cells[i as int] == row@[i as int]@);
            Some(row[i].clone())
        },
        None => None,
    };
    let commodity = match fm.commodity {
        Some(i) => {
            assert(cells[i as int] == row@[i as int]@);
            row[i].clone()
        },
        None => config.commodity.clone(),
    };
    let record = Record { payee: original_payee.to_string(), category };
    let fragment = extractor.extract(&record);
    let payee = match &fragment.payee {
        Some(p) => p.clone(),
        None => original_payee.to_string(),
    };
    let mut txn = Txn {
        date,
        effective_date: None,
        code: crate::import::extract::copy_opt_string(&fragment.code),
        payee,
        dest_account: crate::import::extract::copy_opt_string(&fragment.account),
        clear_state: if fragment.cleared { ClearState::Cleared } else { ClearState::Pending },
        amount: data::Amount { value: amount, commodity: commodity.clone() },
        balance: match balance {
            Some(b) => Some(data::Amount { value: b, commodity: commodity.clone() }),
            None => None,
        },
        rate: None,
        transferred_amount: None,
    };
    match &fragment.conversion {
        None => {},
        Some(conv) => {
            let rate = match rate {
                Some(r) => r,
                None => {
                    return Err(line_failure("no rate specified: line ", line));
                },
            };
            match conv {
                CommodityConversion::Unspecified(_) => {
                    let eqa = match equivalent_amount {
                        Some(e) => e,
                        None => {
                            return Err(
                                line_failure("equivalent_amount should be specified when primary conversion is used @ line ", line),
                            );
                        },
                    };
                    txn.rate = Some(Exchange::Rate(data::Amount { value: rate, commodity: config.commodity.clone() }));
                    txn.transferred_amount = Some(
                        ExchangedAmount { amount: data::Amount { value: eqa, commodity: config.commodity.clone() }, exchange: None },
                    );
                },
                CommodityConversion::Specified { commodity: rc } => {
                    txn.transferred_amount = Some(
                        ExchangedAmount {
                            amount: data::Amount { value: amount, commodity: rc.clone() },
                            exchange: Some(Exchange::Rate(data::Amount { value: rate, commodity: commodity.clone() })),
                        },
                    );
                },
            }
        },
    }
    Ok(Some(txn))
}

/// The transactions of the records in order: those with a date, or the first error.
pub open spec fn rows_outcome(
    config: ConfigEntry,
    fm: FieldMap,
    rules: Seq<RuleView>,
    rows: Seq<(usize, Seq<Seq<char>>)>,
) -> Result<Seq<TxnView>, Seq<char>>
    decreases rows.len(),
{
    if rows.len() == 0 {
        Ok(Seq::empty())
    } else {
        match rows_outcome(config, fm, rules, rows.drop_last()) {
            Err(m) => Err(m),
            Ok(v) => match row_outcome(config, fm, rules, rows.last().1, rows.last().0 as nat) {
                Err(m) => Err(m),
                Ok(None) => Ok(v),
                Ok(Some(t)) => Ok(v.push(t)),
            },
        }
    }
}

/// The line numbers and the cells of the records.
pub open spec fn rows_view(rows: Seq<(usize, Vec<String>)>) -> Seq<(usize, Seq<Seq<char>>)> {
    rows.map_values(|p: (usize, Vec<String>)| (p.0, texts(p.1@)))
}

/// What an import of the table gives: `Other` when a label of the config is not in the
/// header, the error of the fields or of the rules of the config, else the transactions
/// of the records (see [`rows_outcome`]).
pub open spec fn table_result(
    config: ConfigEntry,
    header: Seq<Seq<char>>,
    rows: Seq<(usize, Seq<Seq<char>>)>,
    complete: bool,
    r: Result<Vec<Txn>, ImportError>,
) -> bool {
    if missing_label(config.format.fields@, header) {
        r matches Err(ImportError::Other(_))
    } else {
        match resolution(config.format.fields@, header) {
            Err(e) => r == Err::<Vec<Txn>, ImportError>(e),
            Ok(fm) => match rules_error::<CsvMatcher>(config.rewrite@, 0) {
                Some(e) => r == Err::<Vec<Txn>, ImportError>(e),
                None => match rows_outcome(config, fm, config_rules(config.rewrite@), rows) {
                    Ok(v) => if complete {
                        r matches Ok(x) && txn_views(x@) == v
                    } else {
                        r == Err::<Vec<Txn>, ImportError>(ImportError::CSV)
                    },
                    Err(m) => r matches Err(e) && error_text(e) == m,
                },
            },
        }
    }
}

/// Imports the records of a CSV table with its header, see [`table_result`]; `complete`
/// tells whether every record of the input was read.
pub fn import_table(
    header: &Vec<String>,
    rows: &Vec<(usize, Vec<String>)>,
    complete: bool,
    config: &ConfigEntry,
) -> (r: Result<Vec<Txn>, ImportError>)
    ensures
        table_result(*config, texts(header@), rows_view(rows@), complete, r),
{
    let fm = match resolve_fields(&config.format.fields, header) {
        Ok(fm) => fm,
        Err(e) => {
            return Err(e);
        },
    };
    let extractor: Extractor<CsvMatcher> = match Extractor::try_from_rules(&config.rewrite) {
        Ok(x) => x,
        Err(e) => {
            return Err(e);
        },
    };
    let ghost rv = rows_view(rows@);
    let mut res: Vec<Txn> = Vec::new();
    assert(rv.subrange(0, 0) =~= Seq::<(usize, Seq<Seq<char>>)>::empty());
    assert(txn_views(res@) =~= Seq::<TxnView>::empty());
    let mut k: usize = 0;
    while k < rows.len()
        invariant
            k <= rows@.len(),
            rv == rows_view(rows@),
            extractor@ == config_rules(config.rewrite@),
            !missing_label(config.format.fields@, texts(header@)),
            resolution(config.format.fields@, texts(header@)) == Ok::<FieldMap, ImportError>(fm),
            rules_error::<CsvMatcher>(config.rewrite@, 0) is None,
            rows_outcome(*config, fm, extractor@, rv.subrange(0, k as int)) == Ok::<Seq<TxnView>, Seq<char>>(txn_views(res@)),
        decreases rows@.len() - k,
    {
        proof {
            assert(rv.subrange(0, k + 1).drop_last() =~= rv.subrange(0, k as int));
            assert(rv.subrange(0, k + 1).last() == rv[k as int]);
            assert(rv[k as int] == (rows@[k as int].0, texts(rows@[k as int].1@)));
        }
        match import_row(config, &fm, &extractor, &rows[k].1, rows[k].0) {
            Ok(Some(t)) => {
                let ghost before = res@;
                res.push(t);
                assert(txn_views(res@) =~= txn_views(before).push(crate::import::single_entry::txn_view(t)));
            },
            Ok(None) => {},
            Err(e) => {
                proof {
                    lemma_rows_error_extends(*config, fm, extractor@, rv, k as int + 1);
                }
                return Err(e);
            },
        }
        k = k + 1;
    }
    assert(rv.subrange(0, rows@.len() as int) =~= rv);
    if !complete {
        return Err(ImportError::CSV);
    }
    Ok(res)
}

/// Once the records so far give an error, all do.
proof fn lemma_rows_error_extends(
    config: ConfigEntry,
    fm: FieldMap,
    rules: Seq<RuleView>,
    rows: Seq<(usize, Seq<Seq<char>>)>,
    n: int,
)
    requires
        0 <= n <= rows.len(),
        rows_outcome(config, fm, rules, rows.subrange(0, n)) is Err,
    ensures
        rows_outcome(config, fm, rules, rows) == rows_outcome(config, fm, rules, rows.subrange(0, n)),
    decreases rows.len() - n,
{
    if n == rows.len() {
        assert(rows.subrange(0, n) =~= rows);
    } else {
        assert(rows.subrange(0, n + 1).drop_last() =~= rows.subrange(0, n));
        lemma_rows_error_extends(config, fm, rules, rows, n + 1);
    }
}

/// The CSV table of the input, read by `csv::Reader` (records of varying length allowed):
/// the header; for each record read before the first one that is not CSV, its line number
/// and cells; and whether every record was read. `None` when the header is not CSV.
pub uninterp spec fn csv_table(input: Seq<u8>) -> Option<(Seq<Seq<char>>, Seq<(usize, Seq<Seq<char>>)>, bool)>;

/// Reads the input with `csv::ReaderBuilder::new().flexible(true)`: the header, the line
/// number and cells of each record up to the first that fails to read, and whether none
/// failed.
#[verifier::external_body]
fn read_csv(input: &[u8]) -> (r: Option<(Vec<String>, Vec<(usize, Vec<String>)>, bool)>)
    ensures
        match r {
            Some(t) => csv_table(input@) == Some((texts(t.0@), rows_view(t.1@), t.2)),
            None => csv_table(input@) is None,
        },
{
    let mut rdr = ::csv::ReaderBuilder::new().flexible(true).from_reader(input);
    let header: Vec<String> = rdr.headers().ok()?.iter().map(|c| c.to_string()).collect();
    let mut complete = true;
    let rows: Vec<(usize, Vec<String>)> = rdr.records().map_while(|rec| match rec {
        Ok(r) => Some((r.position().map_or(0, |p| p.line() as usize), r.iter().map(|c| c.to_string()).collect())),
        Err(_) => {
            complete = false;
            None
        },
    }).collect();
    Some((header, rows, complete))
}

/// Importer of CSV statements.
pub struct CsvImporter {}

impl CsvImporter {
    /// Imports a CSV statement: `CSV` when its header is not CSV, else see [`table_result`].
    pub fn import(&self, input: &[u8], config: &ConfigEntry) -> (r: Result<Vec<Txn>, ImportError>)
        ensures
            match csv_table(input@) {
                None => r == Err::<Vec<Txn>, ImportError>(ImportError::CSV),
                Some(t) => table_result(*config, t.0, t.1, t.2, r),
            },
    {
        match read_csv(input) {
            None => Err(ImportError::CSV),
            Some((header, rows, complete)) => import_table(&header, &rows, complete, config),
        }
    }
}

} // verus!
