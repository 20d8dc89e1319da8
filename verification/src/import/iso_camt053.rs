//! ISO 20022 camt.053 bank-to-customer statements: the document as read from its XML, the
//! rewrite matchers on its entries, and the single-entry transactions of its statements.
use crate::data::{self, AmountView, ClearState, Exchange, ExchangedAmount};
use crate::date::Date;
use crate::decimal::{value_eq, view_neg, Decimal};
use crate::import::config::{ConfigEntry, RewriteField};
use crate::import::error::ImportError;
use crate::import::extract::{
    config_rules, copy_opt_string, extract_spec, opt_text, regex_code_capture, regex_payee_capture, regex_valid, rules_error,
    EntityMatcher, Extractor,
    Fragment, FragmentView, MatchSource, Matched, Pattern, RuleView,
};
use crate::import::single_entry::{txn_view, txn_views, Txn, TxnView};
use crate::text::str_eq;
use vstd::prelude::*;

verus! {

/// Whether an amount is credited to or debited from the account.
#[derive(Debug, PartialEq, Eq, Structural, Clone, Copy)]
pub enum CreditOrDebit {
    Credit,
    Debit,
}

/// An amount of the statement, unsigned: its value and its currency.
#[derive(Debug)]
pub struct Amount {
    pub value: Decimal,
    pub currency: String,
}

/// The amount signed by the indicator: as it is when credited, negated when debited.
pub open spec fn signed(a: Amount, cd: CreditOrDebit) -> AmountView {
    (
        match cd {
            CreditOrDebit::Credit => a.value@,
            CreditOrDebit::Debit => view_neg(a.value@),
        },
        a.currency@,
    )
}

/// The same value (numerically) in the same currency.
pub open spec fn same_amount(a: Amount, b: Amount) -> bool {
    value_eq(a.value@, b.value@) && a.currency@ == b.currency@
}

impl Amount {
    /// The amount signed by the indicator, see [`signed`].
    pub fn to_data(&self, credit_or_debit: CreditOrDebit) -> (r: data::Amount)
        ensures
            r@ == signed(*self, credit_or_debit),
    {
        let value = match credit_or_debit {
            CreditOrDebit::Credit => self.value,
            CreditOrDebit::Debit => self.value.neg(),
        };
        data::Amount { value, commodity: self.currency.clone() }
    }

    /// Whether the two amounts are the same value in the same currency.
    pub fn same(&self, other: &Amount) -> (r: bool)
        ensures
            r == same_amount(*self, *other),
    {
        self.value.value_eq(&other.value) && str_eq(self.currency.as_str(), other.currency.as_str())
    }
}

/// Kind of a balance of a statement.
#[derive(Debug, PartialEq, Eq, Structural, Clone, Copy)]
pub enum BalanceCode {
    /// The booked balance at the start of the statement.
    Opening,
    /// The booked balance at the end of the statement.
    Closing,
    /// Any other balance.
    Other,
}

/// A balance of a statement.
#[derive(Debug)]
pub struct BalanceEntry {
    pub code: BalanceCode,
    pub amount: Amount,
    pub credit_or_debit: CreditOrDebit,
}

/// A charge of an entry or a transaction.
#[derive(Debug)]
pub struct ChargeRecord {
    pub amount: Amount,
    pub credit_or_debit: CreditOrDebit,
    /// Whether the charge is included in the amount of the entry.
    pub is_charge_included: bool,
}

/// A currency exchange: the currency the amount was converted from, and the rate.
#[derive(Debug)]
pub struct CurrencyExchange {
    pub source_currency: String,
    pub exchange_rate: Decimal,
}

/// The transaction amount of the amount details, with its exchange if any.
#[derive(Debug)]
pub struct AmountWithExchange {
    pub amount: Amount,
    pub currency_exchange: Option<CurrencyExchange>,
}

/// The details of one transaction of an entry.
#[derive(Debug)]
pub struct TransactionDetails {
    /// Reference of the transaction given by the bank.
    pub account_servicer_reference: Option<String>,
    pub credit_or_debit: CreditOrDebit,
    pub amount: Amount,
    /// The transaction amount of the amount details, if the details have them.
    pub amount_details: Option<AmountWithExchange>,
    pub charges: Vec<ChargeRecord>,
    pub creditor_name: Option<String>,
    pub creditor_account_id: Option<String>,
    pub ultimate_creditor_name: Option<String>,
    pub debtor_name: Option<String>,
    pub debtor_account_id: Option<String>,
    pub ultimate_debtor_name: Option<String>,
    pub remittance_unstructured_info: Option<String>,
    pub additional_info: Option<String>,
}

/// An entry of a statement: a booking on the account, with the transactions it groups.
#[derive(Debug)]
pub struct Entry {
    pub amount: Amount,
    pub credit_or_debit: CreditOrDebit,
    pub booking_date: Date,
    pub value_date: Date,
    /// The bank transaction code: domain, family and sub-family, as their ISO codes.
    pub domain_code: String,
    pub domain_family_code: String,
    pub domain_sub_family_code: String,
    pub charges: Vec<ChargeRecord>,
    pub additional_info: String,
    pub transactions: Vec<TransactionDetails>,
}

/// A statement of the account: its balances and entries.
#[derive(Debug)]
pub struct Statement {
    pub balances: Vec<BalanceEntry>,
    pub entries: Vec<Entry>,
}

/// A camt.053 document: its statements.
#[derive(Debug)]
pub struct Document {
    pub statements: Vec<Statement>,
}

/// What the matchers read of an entry and, if given, one of its transactions.
pub struct MatchTarget {
    pub domain_code: String,
    pub domain_family_code: String,
    pub domain_sub_family_code: String,
    pub creditor_name: Option<String>,
    pub creditor_account_id: Option<String>,
    pub ultimate_creditor_name: Option<String>,
    pub debtor_name: Option<String>,
    pub debtor_account_id: Option<String>,
    pub ultimate_debtor_name: Option<String>,
    pub remittance_unstructured_info: Option<String>,
    pub additional_info: Option<String>,
}

/// View of a [`MatchTarget`].
pub struct TargetView {
    pub domain_code: Seq<char>,
    pub domain_family_code: Seq<char>,
    pub domain_sub_family_code: Seq<char>,
    pub creditor_name: Option<Seq<char>>,
    pub creditor_account_id: Option<Seq<char>>,
    pub ultimate_creditor_name: Option<Seq<char>>,
    pub debtor_name: Option<Seq<char>>,
    pub debtor_account_id: Option<Seq<char>>,
    pub ultimate_debtor_name: Option<Seq<char>>,
    pub remittance_unstructured_info: Option<Seq<char>>,
    pub additional_info: Option<Seq<char>>,
}

impl View for MatchTarget {
    type V = TargetView;

    open spec fn view(&self) -> TargetView {
        TargetView {
            domain_code: self.domain_code@,
            domain_family_code: self.domain_family_code@,
            domain_sub_family_code: self.domain_sub_family_code@,
            creditor_name: opt_text(self.creditor_name),
            creditor_account_id: opt_text(self.creditor_account_id),
            ultimate_creditor_name: opt_text(self.ultimate_creditor_name),
            debtor_name: opt_text(self.debtor_name),
            debtor_account_id: opt_text(self.debtor_account_id),
            ultimate_debtor_name: opt_text(self.ultimate_debtor_name),
            remittance_unstructured_info: opt_text(self.remittance_unstructured_info),
            additional_info: opt_text(self.additional_info),
        }
    }
}

/// What the matchers read of the entry alone: its bank transaction code, and no texts of a
/// transaction.
pub open spec fn entry_target(e: Entry) -> TargetView {
    TargetView {
        domain_code: e.domain_code@,
        domain_family_code: e.domain_family_code@,
        domain_sub_family_code: e.domain_sub_family_code@,
        creditor_name: None,
        creditor_account_id: None,
        ultimate_creditor_name: None,
        debtor_name: None,
        debtor_account_id: None,
        ultimate_debtor_name: None,
        remittance_unstructured_info: None,
        additional_info: None,
    }
}

/// What the matchers read of the entry and one of its transactions.
pub open spec fn transaction_target(e: Entry, t: TransactionDetails) -> TargetView {
    TargetView {
        domain_code: e.domain_code@,
        domain_family_code: e.domain_family_code@,
        domain_sub_family_code: e.domain_sub_family_code@,
        creditor_name: opt_text(t.creditor_name),
        creditor_account_id: opt_text(t.creditor_account_id),
        ultimate_creditor_name: opt_text(t.ultimate_creditor_name),
        debtor_name: opt_text(t.debtor_name),
        debtor_account_id: opt_text(t.debtor_account_id),
        ultimate_debtor_name: opt_text(t.ultimate_debtor_name),
        remittance_unstructured_info: opt_text(t.remittance_unstructured_info),
        additional_info: opt_text(t.additional_info),
    }
}

impl MatchTarget {
    /// The target of the entry alone, see [`entry_target`].
    pub fn of_entry(e: &Entry) -> (r: MatchTarget)
        ensures
            r@ == entry_target(*e),
    {
        MatchTarget {
            domain_code: e.domain_code.clone(),
            domain_family_code: e.domain_family_code.clone(),
            domain_sub_family_code: e.domain_sub_family_code.clone(),
            creditor_name: None,
            creditor_account_id: None,
            ultimate_creditor_name: None,
            debtor_name: None,
            debtor_account_id: None,
            ultimate_debtor_name: None,
            remittance_unstructured_info: None,
            additional_info: None,
        }
    }

    /// The target of the entry and one of its transactions, see [`transaction_target`].
    pub fn of_transaction(e: &Entry, t: &TransactionDetails) -> (r: MatchTarget)
        ensures
            r@ == transaction_target(*e, *t),
    {
        MatchTarget {
            domain_code: e.domain_code.clone(),
            domain_family_code: e.domain_family_code.clone(),
            domain_sub_family_code: e.domain_sub_family_code.clone(),
            creditor_name: copy_opt_string(&t.creditor_name),
            creditor_account_id: copy_opt_string(&t.creditor_account_id),
            ultimate_creditor_name: copy_opt_string(&t.ultimate_creditor_name),
            debtor_name: copy_opt_string(&t.debtor_name),
            debtor_account_id: copy_opt_string(&t.debtor_account_id),
            ultimate_debtor_name: copy_opt_string(&t.ultimate_debtor_name),
            remittance_unstructured_info: copy_opt_string(&t.remittance_unstructured_info),
            additional_info: copy_opt_string(&t.additional_info),
        }
    }
}

/// The text fields a pattern of a rule can match.
#[derive(Debug, PartialEq, Eq, Structural, Clone, Copy)]
pub enum MatchField {
    CreditorName,
    CreditorAccountId,
    UltimateCreditorName,
    DebtorName,
    DebtorAccountId,
    UltimateDebtorName,
    RemittanceUnstructuredInfo,
    AdditionalTransactionInfo,
    Payee,
}

/// The rewrite field of the text field.
pub open spec fn rewrite_field(f: MatchField) -> RewriteField {
    match f {
        MatchField::CreditorName => RewriteField::CreditorName,
        MatchField::CreditorAccountId => RewriteField::CreditorAccountId,
        MatchField::UltimateCreditorName => RewriteField::UltimateCreditorName,
        MatchField::DebtorName => RewriteField::DebtorName,
        MatchField::DebtorAccountId => RewriteField::DebtorAccountId,
        MatchField::UltimateDebtorName => RewriteField::UltimateDebtorName,
        MatchField::RemittanceUnstructuredInfo => RewriteField::RemittanceUnstructuredInfo,
        MatchField::AdditionalTransactionInfo => RewriteField::AdditionalTransactionInfo,
        MatchField::Payee => RewriteField::Payee,
    }
}

/// Whether the rewrite field is one of the bank transaction code.
pub open spec fn is_code_field(f: RewriteField) -> bool {
    f == RewriteField::DomainCode || f == RewriteField::DomainFamily || f == RewriteField::DomainSubFamily
}

/// The text that a pattern on the field matches: that of the target, or the payee found so
/// far for `Payee`; `None` when there is none.
pub open spec fn target_text(f: RewriteField, payee: Option<Seq<char>>, t: TargetView) -> Option<Seq<char>> {
    match f {
        RewriteField::CreditorName => t.creditor_name,
        RewriteField::CreditorAccountId => t.creditor_account_id,
        RewriteField::UltimateCreditorName => t.ultimate_creditor_name,
        RewriteField::DebtorName => t.debtor_name,
        RewriteField::DebtorAccountId => t.debtor_account_id,
        RewriteField::UltimateDebtorName => t.ultimate_debtor_name,
        RewriteField::RemittanceUnstructuredInfo => t.remittance_unstructured_info,
        RewriteField::AdditionalTransactionInfo => t.additional_info,
        RewriteField::Payee => payee,
        _ => None,
    }
}

/// Matcher of one field of a camt.053 entry: a code of the bank transaction code that must
/// be the same, or a pattern on a text field.
pub enum FieldMatch {
    DomainCode(String),
    DomainFamily(String),
    DomainSubFamily(String),
    RegexMatch(MatchField, Pattern),
}

impl EntityMatcher for FieldMatch {
    type T = MatchTarget;

    /// A code field takes any code; a text field a valid pattern; `Category` is not a field
    /// of camt.053.
    open spec fn accepts(field: RewriteField, pattern: Seq<char>) -> bool {
        is_code_field(field) || (field != RewriteField::Category && regex_valid(pattern))
    }

    /// `InvalidRegex` for an invalid pattern, else `UnknownMatchField`.
    open spec fn refusal(field: RewriteField, pattern: Seq<char>) -> ImportError {
        if !regex_valid(pattern) {
            ImportError::InvalidRegex
        } else {
            ImportError::UnknownMatchField(field)
        }
    }

    open spec fn source(&self) -> MatchSource {
        match self {
            FieldMatch::DomainCode(c) => (RewriteField::DomainCode, c@),
            FieldMatch::DomainFamily(c) => (RewriteField::DomainFamily, c@),
            FieldMatch::DomainSubFamily(c) => (RewriteField::DomainSubFamily, c@),
            FieldMatch::RegexMatch(f, p) => (rewrite_field(*f), p.source()),
        }
    }

    /// A code matches when it is the same as the entry's, capturing nothing; a pattern
    /// matches its text (see [`target_text`]), and its group `payee` gives a new payee.
    open spec fn captured_by(source: MatchSource, payee: Option<Seq<char>>, entity: TargetView) -> Option<Option<Seq<char>>> {
        if source.0 == RewriteField::DomainCode {
            if source.1 == entity.domain_code { Some(None) } else { None }
        } else if source.0 == RewriteField::DomainFamily {
            if source.1 == entity.domain_family_code { Some(None) } else { None }
        } else if source.0 == RewriteField::DomainSubFamily {
            if source.1 == entity.domain_sub_family_code { Some(None) } else { None }
        } else {
            match target_text(source.0, payee, entity) {
                Some(text) => regex_payee_capture(source.1, text),
                None => None,
            }
        }
    }

    open spec fn code_by(source: MatchSource, payee: Option<Seq<char>>, entity: TargetView) -> Option<Seq<char>> {
        if source.0 == RewriteField::DomainCode || source.0 == RewriteField::DomainFamily || source.0
            == RewriteField::DomainSubFamily {
            None
        } else {
            match target_text(source.0, payee, entity) {
                Some(text) => regex_code_capture(source.1, text),
                None => None,
            }
        }
    }

    fn try_from_field(field: RewriteField, pattern: &str) -> (r: Result<FieldMatch, ImportError>) {
        match field {
            RewriteField::DomainCode => {
                return Ok(FieldMatch::DomainCode(pattern.to_string()));
            },
            RewriteField::DomainFamily => {
                return Ok(FieldMatch::DomainFamily(pattern.to_string()));
            },
            RewriteField::DomainSubFamily => {
                return Ok(FieldMatch::DomainSubFamily(pattern.to_string()));
            },
            _ => {},
        }
        let p = match Pattern::new(pattern) {
            Ok(p) => p,
            Err(e) => {
                return Err(e);
            },
        };
        let f = match field {
            RewriteField::CreditorName => MatchField::CreditorName,
            RewriteField::CreditorAccountId => MatchField::CreditorAccountId,
            RewriteField::UltimateCreditorName => MatchField::UltimateCreditorName,
            RewriteField::DebtorName => MatchField::DebtorName,
            RewriteField::DebtorAccountId => MatchField::DebtorAccountId,
            RewriteField::UltimateDebtorName => MatchField::UltimateDebtorName,
            RewriteField::RemittanceUnstructuredInfo => MatchField::RemittanceUnstructuredInfo,
            RewriteField::AdditionalTransactionInfo => MatchField::AdditionalTransactionInfo,
            RewriteField::Payee => MatchField::Payee,
            _ => {
                return Err(ImportError::UnknownMatchField(field));
            },
        };
        Ok(FieldMatch::RegexMatch(f, p))
    }

    fn captures(&self, fragment: &Fragment, entity: &MatchTarget) -> (r: Option<Matched>) {
        let (code, expected) = match self {
            FieldMatch::DomainCode(c) => (&entity.domain_code, c),
            FieldMatch::DomainFamily(c) => (&entity.domain_family_code, c),
            FieldMatch::DomainSubFamily(c) => (&entity.domain_sub_family_code, c),
            FieldMatch::RegexMatch(f, p) => {
                let text = match f {
                    MatchField::CreditorName => &entity.creditor_name,
                    MatchField::CreditorAccountId => &entity.creditor_account_id,
                    MatchField::UltimateCreditorName => &entity.ultimate_creditor_name,
                    MatchField::DebtorName => &entity.debtor_name,
                    MatchField::DebtorAccountId => &entity.debtor_account_id,
                    MatchField::UltimateDebtorName => &entity.ultimate_debtor_name,
                    MatchField::RemittanceUnstructuredInfo => &entity.remittance_unstructured_info,
                    MatchField::AdditionalTransactionInfo => &entity.additional_info,
                    MatchField::Payee => &fragment.payee,
                };
                return match text {
                    Some(t) => match p.captures(t.as_str()) {
                        Some(c) => Some(Matched { payee: c.0, code: c.1 }),
                        None => None,
                    },
                    None => None,
                };
            },
        };
        if str_eq(expected.as_str(), code.as_str()) {
            Some(Matched { payee: None, code: None })
        } else {
            None
        }
    }
}

/// The first balance of the code from `i` on, signed.
pub open spec fn balance_from(bs: Seq<BalanceEntry>, code: BalanceCode, i: int) -> Option<AmountView>
    decreases bs.len() - i,
{
    if i < 0 || i >= bs.len() {
        None
    } else if bs[i].code == code {
        Some(signed(bs[i].amount, bs[i].credit_or_debit))
    } else {
        balance_from(bs, code, i + 1)
    }
}

proof fn lemma_balance_from(bs: Seq<BalanceEntry>, code: BalanceCode, i: int) -> (k: int)
    requires
        0 <= i,
    ensures
        balance_from(bs, code, i) is None <==> forall|j: int| i <= j < bs.len() ==> (#[trigger] bs[j]).code != code,
        balance_from(bs, code, i) matches Some(v) ==> {
            &&& i <= k < bs.len()
            &&& bs[k].code == code
            &&& forall|j: int| i <= j < k ==> (#[trigger] bs[j]).code != code
            &&& v.1 == bs[k].amount.currency@
            &&& bs[k].credit_or_debit is Credit ==> v.0 == bs[k].amount.value@
            &&& bs[k].credit_or_debit is Debit ==> v.0 == view_neg(bs[k].amount.value@)
        },
    decreases bs.len() - i,
{
    if i >= bs.len() {
        i
    } else if bs[i].code == code {
        i
    } else {
        let k = lemma_balance_from(bs, code, i + 1);
        assert(balance_from(bs, code, i) == balance_from(bs, code, i + 1));
        if balance_from(bs, code, i) is Some {
            assert forall|j: int| i <= j < k implies (#[trigger] bs[j]).code != code by {
                if j > i {
                    assert(i + 1 <= j < k);
                }
            }
        }
        k
    }
}

/// The first balance of the code of the statement, signed.
pub open spec fn statement_balance(s: Statement, code: BalanceCode) -> Option<AmountView> {
    balance_from(s.balances@, code, 0)
}

/// The first balance of the code of the statement, signed, see [`statement_balance`].
pub fn find_balance(stmt: &Statement, code: BalanceCode) -> (r: Option<data::Amount>)
    ensures
        match r {
            Some(a) => statement_balance(*stmt, code) == Some(a@),
            None => statement_balance(*stmt, code) is None,
        },
{
    let mut i: usize = 0;
    while i < stmt.balances.len()
        invariant
            i <= stmt.balances@.len(),
            statement_balance(*stmt, code) == balance_from(stmt.balances@, code, i as int),
        decreases stmt.balances@.len() - i,
    {
        if stmt.balances[i].code == code {
            return Some(stmt.balances[i].amount.to_data(stmt.balances[i].credit_or_debit));
        }
        i = i + 1;
    }
    None
}

/// The balance of a code taken from a statement is its first balance entry of that code, in
/// its currency, signed by the entry's own credit or debit indicator: a debit balance of `v`
/// gives `-v`; there is none exactly when no entry has the code.
pub proof fn law_statement_balance_sign(s: Statement, code: BalanceCode)
    ensures
        statement_balance(s, code) is None <==> forall|j: int|
            0 <= j < s.balances@.len() ==> (#[trigger] s.balances@[j]).code != code,
        statement_balance(s, code) matches Some(v) ==> exists|k: int|
            0 <= k < s.balances@.len() && (#[trigger] s.balances@[k]).code == code && (forall|j: int|
                0 <= j < k ==> (#[trigger] s.balances@[j]).code != code) && v.1 == s.balances@[k].amount.currency@
                && (s.balances@[k].credit_or_debit is Credit ==> v.0 == s.balances@[k].amount.value@)
                && (s.balances@[k].credit_or_debit is Debit ==> v.0 == view_neg(s.balances@[k].amount.value@)),
{
    let k = lemma_balance_from(s.balances@, code, 0);
    if let Some(v) = statement_balance(s, code) {
        assert(s.balances@[k].code == code);
    }
}

/// The effective date of a transaction of the entry: its booking date, where it differs
/// from its value date.
pub open spec fn entry_effective(e: Entry) -> Option<int> {
    if e.booking_date != e.value_date {
        Some(e.booking_date@)
    } else {
        None
    }
}

/// A transaction of the entry, with the fragment of the rules: dated on the value date, the
/// payee of the rules (or `unknown payee`), their account, pending unless cleared.
pub open spec fn fragment_txn(
    frag: FragmentView,
    e: Entry,
    code: Option<Seq<char>>,
    amount: AmountView,
    transferred: Option<(AmountView, Option<(bool, AmountView)>)>,
) -> TxnView {
    TxnView {
        date: e.value_date@,
        effective_date: entry_effective(e),
        code,
        payee: match frag.1 {
            Some(p) => p,
            None => "unknown payee"@,
        },
        dest_account: frag.2,
        clear_state: if frag.0 { ClearState::Cleared } else { ClearState::Pending },
        amount,
        balance: None,
        rate: None,
        transferred,
    }
}

/// The transaction of an entry without transaction details: its signed amount.
pub open spec fn entry_txn(rules: Seq<RuleView>, e: Entry) -> TxnView {
    fragment_txn(
        extract_spec::<FieldMatch>(rules, entry_target(e)),
        e,
        None,
        signed(e.amount, e.credit_or_debit),
        None,
    )
}

/// The amount transferred by a transaction: the transaction amount of its details, signed,
/// where it differs from the amount, with the rate of its exchange if any.
pub open spec fn transferred_of(t: TransactionDetails) -> Option<(AmountView, Option<(bool, AmountView)>)> {
    match t.amount_details {
        Some(d) => if same_amount(t.amount, d.amount) {
            None
        } else {
            Some(
                (
                    signed(d.amount, t.credit_or_debit),
                    match d.currency_exchange {
                        Some(x) => Some((false, (x.exchange_rate@, x.source_currency@))),
                        None => None,
                    },
                ),
            )
        },
        None => None,
    }
}

/// The transaction of one transaction of the entry: its signed amount, its reference as the
/// code, and what it transferred.
pub open spec fn detail_txn(rules: Seq<RuleView>, e: Entry, t: TransactionDetails) -> TxnView {
    fragment_txn(
        extract_spec::<FieldMatch>(rules, transaction_target(e, t)),
        e,
        opt_text(t.account_servicer_reference),
        signed(t.amount, t.credit_or_debit),
        transferred_of(t),
    )
}

/// The transactions of the transaction details of the entry.
pub open spec fn details_txns(rules: Seq<RuleView>, e: Entry, ts: Seq<TransactionDetails>) -> Seq<TxnView> {
    ts.map_values(|t: TransactionDetails| detail_txn(rules, e, t))
}

/// The transactions of an entry: the entry's own one when it has no transaction details,
/// then one for each of them.
pub open spec fn entry_txns(rules: Seq<RuleView>, e: Entry) -> Seq<TxnView> {
    (if e.transactions@.len() == 0 { seq![entry_txn(rules, e)] } else { Seq::empty() })
        + details_txns(rules, e, e.transactions@)
}

/// The transactions of the entries, in order.
pub open spec fn entries_txns(rules: Seq<RuleView>, es: Seq<Entry>) -> Seq<TxnView>
    decreases es.len(),
{
    if es.len() == 0 {
        Seq::empty()
    } else {
        entries_txns(rules, es.drop_last()) + entry_txns(rules, es.last())
    }
}

/// The transaction of the opening balance, where the statement has one and an entry: zero in
/// the balance's currency against `Equity:Adjustments`, on the first entry's value date, with
/// the balance.
pub open spec fn opening_txns(s: Statement) -> Seq<TxnView> {
    match statement_balance(s, BalanceCode::Opening) {
        Some(b) => if s.entries@.len() > 0 {
            seq![
                TxnView {
                    date: s.entries@[0].value_date@,
                    effective_date: None,
                    code: None,
                    payee: "Initial Balance"@,
                    dest_account: Some("Equity:Adjustments"@),
                    clear_state: ClearState::Cleared,
                    amount: ((false, 0nat, 0nat), b.1),
                    balance: Some(b),
                    rate: None,
                    transferred: None,
                },
            ]
        } else {
            Seq::empty()
        },
        None => Seq::empty(),
    }
}

/// The amount of an entry's transaction, and of each transaction of its details, is the
/// amount in its currency signed by its own credit or debit indicator: a debit of `v` is
/// `-v`; both are dated on the entry's value date.
pub proof fn law_entry_amount_sign(rules: Seq<RuleView>, e: Entry, t: TransactionDetails)
    ensures
        entry_txn(rules, e).amount.1 == e.amount.currency@,
        e.credit_or_debit is Credit ==> entry_txn(rules, e).amount.0 == e.amount.value@,
        e.credit_or_debit is Debit ==> entry_txn(rules, e).amount.0 == view_neg(e.amount.value@),
        entry_txn(rules, e).date == e.value_date@,
        detail_txn(rules, e, t).amount.1 == t.amount.currency@,
        t.credit_or_debit is Credit ==> detail_txn(rules, e, t).amount.0 == t.amount.value@,
        t.credit_or_debit is Debit ==> detail_txn(rules, e, t).amount.0 == view_neg(t.amount.value@),
        detail_txn(rules, e, t).date == e.value_date@,
{
}

/// A statement with an opening balance and some entry opens with one transaction of zero in
/// the balance's currency, asserting that balance (see [`law_statement_balance_sign`]), on
/// the first entry's value date; else it opens with none.
pub proof fn law_opening_balance(s: Statement)
    ensures
        s.entries@.len() > 0 ==> (statement_balance(s, BalanceCode::Opening) matches Some(b) ==> {
            &&& opening_txns(s).len() == 1
            &&& opening_txns(s)[0].balance == Some(b)
            &&& opening_txns(s)[0].amount == ((false, 0nat, 0nat), b.1)
            &&& opening_txns(s)[0].date == s.entries@[0].value_date@
        }),
        statement_balance(s, BalanceCode::Opening) is None || s.entries@.len() == 0 ==> opening_txns(s).len() == 0,
{
}

/// The transactions so far after a statement: its opening and its entries' transactions are
/// added, and the closing balance, if any, is set on the last transaction so far.
pub open spec fn statement_step(acc: Seq<TxnView>, rules: Seq<RuleView>, s: Statement) -> Seq<TxnView> {
    let all = acc + opening_txns(s) + entries_txns(rules, s.entries@);
    match statement_balance(s, BalanceCode::Closing) {
        Some(b) => if all.len() > 0 {
            all.update(all.len() - 1, TxnView { balance: Some(b), ..all.last() })
        } else {
            all
        },
        None => all,
    }
}

/// The transactions of the statements, in order.
pub open spec fn statements_txns(rules: Seq<RuleView>, ss: Seq<Statement>) -> Seq<TxnView>
    decreases ss.len(),
{
    if ss.len() == 0 {
        Seq::empty()
    } else {
        statement_step(statements_txns(rules, ss.drop_last()), rules, ss.last())
    }
}

/// Some charge is not zero.
pub open spec fn has_charge(cs: Seq<ChargeRecord>) -> bool {
    exists|i: int| 0 <= i < cs.len() && #[trigger] cs[i].amount.value@.1 != 0
}

/// The entry or one of its transactions has a charge.
pub open spec fn entry_charged(e: Entry) -> bool {
    has_charge(e.charges@) || exists|i: int| 0 <= i < e.transactions@.len() && has_charge(#[trigger] e.transactions@[i].charges@)
}

/// An entry of the statement has a charge.
pub open spec fn statement_charged(s: Statement) -> bool {
    exists|i: int| 0 <= i < s.entries@.len() && entry_charged(#[trigger] s.entries@[i])
}

/// A statement of the document has a charge.
pub open spec fn document_charged(d: Document) -> bool {
    exists|i: int| 0 <= i < d.statements@.len() && statement_charged(#[trigger] d.statements@[i])
}

/// The error of a charge without an operator in the config.
pub open spec fn charge_error() -> ImportError {
    ImportError::InvalidConfig("config should have operator to have charge")
}

/// Charges need an operator in the config, who is the payee of the charge.
fn check_charges(config: &ConfigEntry, charges: &Vec<ChargeRecord>) -> (r: Result<(), ImportError>)
    ensures
        r is Ok <==> !(config.operator is None && has_charge(charges@)),
        r is Err ==> r == Err::<(), ImportError>(charge_error()),
{
    let mut i: usize = 0;
    while i < charges.len()
        invariant
            i <= charges@.len(),
            config.operator is None ==> forall|k: int| 0 <= k < i ==> #[trigger] charges@[k].amount.value@.1 == 0,
        decreases charges@.len() - i,
    {
        if !charges[i].amount.value.is_zero() && config.operator.is_none() {
            return Err(ImportError::InvalidConfig("config should have operator to have charge"));
        }
        i = i + 1;
    }
    Ok(())
}

/// The transaction of the fragment, see [`fragment_txn`].
fn new_txn(
    fragment: Fragment,
    e: &Entry,
    code: Option<String>,
    amount: data::Amount,
    transferred: Option<ExchangedAmount>,
) -> (r: Txn)
    ensures
        txn_view(r) == fragment_txn(
            fragment@,
            *e,
            opt_text(code),
            amount@,
            match transferred {
                Some(x) => Some((x.amount@, match x.exchange {
                    Some(Exchange::Rate(a)) => Some((false, a@)),
                    Some(Exchange::Total(a)) => Some((true, a@)),
                    None => None,
                })),
                None => None,
            },
        ),
{
    let cleared = fragment.cleared;
    Txn {
        date: e.value_date,
        effective_date: if e.booking_date != e.value_date { Some(e.booking_date) } else { None },
        code,
        payee: match fragment.payee {
            Some(p) => p,
            None => "unknown payee".to_string(),
        },
        dest_account: fragment.account,
        clear_state: if cleared { ClearState::Cleared } else { ClearState::Pending },
        amount,
        balance: None,
        rate: None,
        transferred_amount: transferred,
    }
}

/// The transactions of an entry, added to `out`, see [`entry_txns`]; the charge error where
/// the entry has a charge and the config no operator.
fn entry_transactions(
    config: &ConfigEntry,
    extractor: &Extractor<FieldMatch>,
    e: &Entry,
    out: &mut Vec<Txn>,
) -> (r: Result<(), ImportError>)
    ensures
        r is Ok <==> !(config.operator is None && entry_charged(*e)),
        r is Err ==> r == Err::<(), ImportError>(charge_error()),
        r is Ok ==> txn_views(final(out)@) == txn_views(old(out)@) + entry_txns(extractor@, *e),
{
    let ghost rules = extractor@;
    let ghost start = txn_views(out@);
    if e.transactions.len() == 0 {
        let amount = e.amount.to_data(e.credit_or_debit);
        let target = MatchTarget::of_entry(e);
        let fragment = extractor.extract(&target);
        let txn = new_txn(fragment, e, None, amount, None);
        match check_charges(config, &e.charges) {
            Ok(()) => {},
            Err(err) => {
                return Err(err);
            },
        }
        out.push(txn);
        proof {
            assert(txn_views(out@) =~= start.push(txn_view(txn)));
            assert(details_txns(rules, *e, e.transactions@) =~= Seq::<TxnView>::empty());
            assert(entry_txns(rules, *e) =~= seq![entry_txn(rules, *e)]);
        }
        return Ok(());
    }
    let mut k: usize = 0;
    while k < e.transactions.len()
        invariant
            k <= e.transactions@.len(),
            e.transactions@.len() > 0,
            rules == extractor@,
            start == txn_views(old(out)@),
            txn_views(out@) == start + details_txns(rules, *e, e.transactions@.subrange(0, k as int)),
            config.operator is None && k > 0 ==> !has_charge(e.charges@),
            config.operator is None ==> forall|j: int| 0 <= j < k ==> !has_charge(#[trigger] e.transactions@[j].charges@),
        decreases e.transactions@.len() - k,
    {
        let t = &e.transactions[k];
        let amount = t.amount.to_data(t.credit_or_debit);
        let target = MatchTarget::of_transaction(e, t);
        let fragment = extractor.extract(&target);
        let transferred = match &t.amount_details {
            Some(d) => if t.amount.same(&d.amount) {
                None
            } else {
                Some(
                    ExchangedAmount {
                        amount: d.amount.to_data(t.credit_or_debit),
                        exchange: match &d.currency_exchange {
                            Some(x) => Some(Exchange::Rate(data::Amount { value: x.exchange_rate, commodity: x.source_currency.clone() })),
                            None => None,
                        },
                    },
                )
            },
            None => None,
        };
        let txn = new_txn(fragment, e, copy_opt_string(&t.account_servicer_reference), amount, transferred);
        match check_charges(config, &e.charges) {
            Ok(()) => {},
            Err(err) => {
                return Err(err);
            },
        }
        match check_charges(config, &t.charges) {
            Ok(()) => {},
            Err(err) => {
                assert(has_charge(e.transactions@[k as int].charges@));
                return Err(err);
            },
        }
        let ghost before = txn_views(out@);
        out.push(txn);
        k = k + 1;
        proof {
            assert(txn_view(txn) == detail_txn(rules, *e, e.transactions@[k - 1]));
            assert(txn_views(out@) =~= before.push(txn_view(txn)));
            assert(details_txns(rules, *e, e.transactions@.subrange(0, k as int)) =~= details_txns(
                rules,
                *e,
                e.transactions@.subrange(0, k - 1),
            ).push(txn_view(txn)));
        }
    }
    proof {
        assert(e.transactions@.subrange(0, k as int) =~= e.transactions@);
        assert(entry_txns(rules, *e) =~= details_txns(rules, *e, e.transactions@));
    }
    Ok(())
}

/// The transactions of a statement, added to `out`, see [`statement_step`]; the charge
/// error where an entry has a charge and the config no operator.
fn statement_transactions(
    config: &ConfigEntry,
    extractor: &Extractor<FieldMatch>,
    s: &Statement,
    out: &mut Vec<Txn>,
) -> (r: Result<(), ImportError>)
    ensures
        r is Ok <==> !(config.operator is None && statement_charged(*s)),
        r is Err ==> r == Err::<(), ImportError>(charge_error()),
        r is Ok ==> txn_views(final(out)@) == statement_step(txn_views(old(out)@), extractor@, *s),
{
    let ghost rules = extractor@;
    let ghost start = txn_views(out@);
    match find_balance(s, BalanceCode::Opening) {
        Some(opening) => if s.entries.len() > 0 {
            let zero = data::Amount { value: Decimal::zero(), commodity: opening.commodity.clone() };
            let txn = Txn {
                date: s.entries[0].value_date,
                effective_date: None,
                code: None,
                payee: "Initial Balance".to_string(),
                dest_account: Some("Equity:Adjustments".to_string()),
                clear_state: ClearState::Cleared,
                amount: zero,
                balance: Some(opening),
                rate: None,
                transferred_amount: None,
            };
            out.push(txn);
            assert(txn_views(out@) =~= start + opening_txns(*s));
        } else {
            assert(txn_views(out@) =~= start + opening_txns(*s));
        },
        None => {
            assert(txn_views(out@) =~= start + opening_txns(*s));
        },
    }
    let closing = find_balance(s, BalanceCode::Closing);
    let mut i: usize = 0;
    while i < s.entries.len()
        invariant
            i <= s.entries@.len(),
            rules == extractor@,
            start == txn_views(old(out)@),
            txn_views(out@) == start + opening_txns(*s) + entries_txns(rules, s.entries@.subrange(0, i as int)),
            config.operator is None ==> forall|j: int| 0 <= j < i ==> !entry_charged(#[trigger] s.entries@[j]),
        decreases s.entries@.len() - i,
    {
        let ghost before = txn_views(out@);
        match entry_transactions(config, extractor, &s.entries[i], out) {
            Ok(()) => {},
            Err(err) => {
                assert(entry_charged(s.entries@[i as int]));
                return Err(err);
            },
        }
        i = i + 1;
        proof {
            assert(s.entries@.subrange(0, i as int).drop_last() =~= s.entries@.subrange(0, i - 1));
            assert(s.entries@.subrange(0, i as int).last() == s.entries@[i - 1]);
            assert(txn_views(out@) =~= start + opening_txns(*s) + entries_txns(rules, s.entries@.subrange(0, i as int)));
        }
    }
    assert(s.entries@.subrange(0, i as int) =~= s.entries@);
    let ghost all = txn_views(out@);
    match closing {
        Some(b) => if out.len() > 0 {
            let mut last = match out.pop() {
                Some(t) => t,
                None => {
                    return Ok(());
                },
            };
            last.balance = Some(b);
            out.push(last);
            assert(txn_views(out@) =~= all.update(all.len() - 1, TxnView { balance: Some(b@), ..all.last() }));
        },
        None => {},
    }
    Ok(())
}

/// Importer of ISO camt.053 statements.
pub struct IsoCamt053Importer {}

/// What an import of the document gives: the error of the rules of the config, else the
/// charge error where a charge needs the operator that the config does not have, else the
/// transactions of its statements (see [`statements_txns`]).
pub open spec fn camt053_result(config: ConfigEntry, doc: Document, r: Result<Vec<Txn>, ImportError>) -> bool {
    match rules_error::<FieldMatch>(config.rewrite@, 0) {
        Some(e) => r == Err::<Vec<Txn>, ImportError>(e),
        None => if config.operator is None && document_charged(doc) {
            r == Err::<Vec<Txn>, ImportError>(charge_error())
        } else {
            r matches Ok(x) && txn_views(x@) == statements_txns(config_rules(config.rewrite@), doc.statements@)
        },
    }
}

impl IsoCamt053Importer {
    /// Imports the document, see [`camt053_result`].
    pub fn import(&self, doc: &Document, config: &ConfigEntry) -> (r: Result<Vec<Txn>, ImportError>)
        ensures
            camt053_result(*config, *doc, r),
    {
        let extractor: Extractor<FieldMatch> = match Extractor::try_from_rules(&config.rewrite) {
            Ok(x) => x,
            Err(e) => {
                return Err(e);
            },
        };
        let ghost rules = config_rules(config.rewrite@);
        let mut res: Vec<Txn> = Vec::new();
        assert(txn_views(res@) =~= Seq::<TxnView>::empty());
        let mut i: usize = 0;
        while i < doc.statements.len()
            invariant
                i <= doc.statements@.len(),
                extractor@ == rules,
                rules == config_rules(config.rewrite@),
                rules_error::<FieldMatch>(config.rewrite@, 0) is None,
                txn_views(res@) == statements_txns(rules, doc.statements@.subrange(0, i as int)),
                config.operator is None ==> forall|j: int| 0 <= j < i ==> !statement_charged(#[trigger] doc.statements@[j]),
            decreases doc.statements@.len() - i,
        {
            match statement_transactions(config, &extractor, &doc.statements[i], &mut res) {
                Ok(()) => {},
                Err(err) => {
                    assert(statement_charged(doc.statements@[i as int]));
                    return Err(err);
                },
            }
            i = i + 1;
            proof {
                assert(doc.statements@.subrange(0, i as int).drop_last() =~= doc.statements@.subrange(0, i - 1));
                assert(doc.statements@.subrange(0, i as int).last() == doc.statements@[i - 1]);
            }
        }
        assert(doc.statements@.subrange(0, i as int) =~= doc.statements@);
        Ok(res)
    }
}

} // verus!
