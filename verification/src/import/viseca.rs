//! Viseca credit card statements, as text: an entry is a line of dates, payee and amount,
//! then its category; an entry in another currency adds a line of the exchange rate and one
//! of the processing fee.
use crate::data::{self, ClearState, ExchangedAmount};
use crate::date::{date_parse, Date};
use crate::decimal::{decimal_from_str, view_neg, Decimal, DecimalView};
use crate::import::config::{ConfigEntry, RewriteField};
use crate::import::error::{error_text, ImportError};
use crate::import::extract::{
    config_rules, copy_opt_string, extract_spec, name_texts, opt_text, opt_texts, regex_captures, regex_check,
    regex_named_groups, regex_code_capture, regex_payee_capture, regex_valid, rules_error, EntityMatcher, Extractor, Fragment, MatchSource,
    Matched, Pattern, RuleView,
};
use crate::import::single_entry::{txn_view, txn_views, Txn, TxnView};
use crate::text::{chars_of, decimal_digits, push_char, push_str, push_u128, split_lines, texts, trim, trim_end, trimmed_end, trimmed_start, lines_of};
use vstd::prelude::*;

verus! {

/// The first line of an entry: date, effective date, payee, the amount in the foreign
/// currency if any, and the amount.
pub const FIRST_LINE: &'static str = r"^(?P<date>\d{2}.\d{2}.\d{2}) (?P<edate>\d{2}.\d{2}.\d{2}) (?P<payee>.*?)(?: (?P<currency>[A-Z]{3}) (?P<examount>[0-9.']+))? (?P<amount>[0-9.']+)$";

/// The exchange rate line: rate, its date, and the amount spent in the account currency.
pub const EXCHANGE_RATE_LINE: &'static str = r"^Exchange rate (?P<rate>[0-9.]+) of (?P<date>\d{2}.\d{2}.\d{2}) (?P<scurrency>[A-Z]{3}) (?P<samount>[0-9.']+)$";

/// The processing fee line: percentage and amount.
pub const FEE_LINE: &'static str = r"^Processing fee (?P<percent>[0-9.]+)% (?P<fcurrency>[A-Z]{3}) (?P<famount>[0-9.']+)$";

/// The groups of the first line.
pub open spec fn first_names() -> Seq<Seq<char>> {
    seq!["date"@, "edate"@, "payee"@, "currency"@, "examount"@, "amount"@]
}

/// The groups of the exchange rate line.
pub open spec fn rate_names() -> Seq<Seq<char>> {
    seq!["rate"@, "date"@, "scurrency"@, "samount"@]
}

/// The groups of the fee line.
pub open spec fn fee_names() -> Seq<Seq<char>> {
    seq!["percent"@, "fcurrency"@, "famount"@]
}

/// The text without its apostrophes (thousands separators).
pub open spec fn without_quotes(s: Seq<char>) -> Seq<char>
    decreases s.len(),
{
    if s.len() == 0 {
        Seq::empty()
    } else {
        without_quotes(s.drop_last()) + if s.last() == '\'' { Seq::empty() } else { seq![s.last()] }
    }
}

/// The decimal of the text, its apostrophes left out.
pub open spec fn quote_decimal(s: Seq<char>) -> Option<DecimalView> {
    decimal_from_str(without_quotes(s))
}

/// The date of a `dd.mm.yy` text.
pub open spec fn euro_date(s: Seq<char>) -> Option<int> {
    date_parse(s, "%d.%m.%y"@)
}

/// Error text of a statement error at the line.
pub open spec fn verr(msg: Seq<char>, line: nat) -> Seq<char> {
    "invalid viseca statement: "@ + msg + " @ line "@ + decimal_digits(line)
}

/// Parses a decimal written with apostrophes as thousands separators.
pub fn parse_decimal(s: &str) -> (r: Result<Decimal, ImportError>)
    ensures
        match r {
            Ok(d) => quote_decimal(s@) == Some(d@),
            Err(e) => quote_decimal(s@) is None && e == ImportError::InvalidDecimal,
        },
{
    let chars = chars_of(s);
    let mut t = String::new();
    assert(t@ =~= without_quotes(s@.subrange(0, 0)));
    let mut i: usize = 0;
    while i < chars.len()
        invariant
            chars@ == s@,
            i <= chars@.len(),
            t@ == without_quotes(s@.subrange(0, i as int)),
        decreases chars@.len() - i,
    {
        assert(s@.subrange(0, i + 1).drop_last() =~= s@.subrange(0, i as int));
        if chars[i] != '\'' {
            push_char(&mut t, chars[i]);
        }
        i = i + 1;
        assert(t@ =~= without_quotes(s@.subrange(0, i as int)));
    }
    assert(s@.subrange(0, s@.len() as int) =~= s@);
    match Decimal::parse(t.as_str()) {
        Some(d) => Ok(d),
        None => Err(ImportError::InvalidDecimal),
    }
}

/// Parses a `dd.mm.yy` date.
pub fn parse_euro_date(s: &str) -> (r: Option<Date>)
    ensures
        match r {
            Some(d) => euro_date(s@) == Some(d@),
            None => euro_date(s@) is None,
        },
{
    Date::parse(s, "%d.%m.%y")
}

/// Currency exchange of an entry.
#[derive(Debug, PartialEq, Eq)]
pub struct Exchange {
    pub rate: Decimal,
    pub rate_date: Date,
    pub exchanged_currency: String,
    pub exchanged_amount: Decimal,
    pub spent_currency: String,
    pub spent_amount: Decimal,
    pub fee_percent: Decimal,
    pub fee_currency: String,
    pub fee_amount: Decimal,
}

/// View of an exchange.
pub struct ExchangeView {
    pub rate: DecimalView,
    pub rate_date: int,
    pub exchanged_currency: Seq<char>,
    pub exchanged_amount: DecimalView,
    pub spent_currency: Seq<char>,
    pub spent_amount: DecimalView,
    pub fee_percent: DecimalView,
    pub fee_currency: Seq<char>,
    pub fee_amount: DecimalView,
}

impl View for Exchange {
    type V = ExchangeView;

    open spec fn view(&self) -> ExchangeView {
        ExchangeView {
            rate: self.rate@,
            rate_date: self.rate_date@,
            exchanged_currency: self.exchanged_currency@,
            exchanged_amount: self.exchanged_amount@,
            spent_currency: self.spent_currency@,
            spent_amount: self.spent_amount@,
            fee_percent: self.fee_percent@,
            fee_currency: self.fee_currency@,
            fee_amount: self.fee_amount@,
        }
    }
}

/// Entry of a statement.
#[derive(Debug, PartialEq, Eq)]
pub struct Entry {
    /// Line number of its first line.
    pub line_count: usize,
    pub date: Date,
    pub effective_date: Date,
    pub payee: String,
    pub amount: Decimal,
    pub category: String,
    pub exchange: Option<Exchange>,
}

/// View of an entry.
pub struct EntryView {
    pub line_count: nat,
    pub date: int,
    pub effective_date: int,
    pub payee: Seq<char>,
    pub amount: DecimalView,
    pub category: Seq<char>,
    pub exchange: Option<ExchangeView>,
}

impl View for Entry {
    type V = EntryView;

    open spec fn view(&self) -> EntryView {
        EntryView {
            line_count: self.line_count as nat,
            date: self.date@,
            effective_date: self.effective_date@,
            payee: self.payee@,
            amount: self.amount@,
            category: self.category@,
            exchange: match self.exchange {
                Some(x) => Some(x@),
                None => None,
            },
        }
    }
}

/// The processing fee line at `m`: percentage, currency and amount.
pub open spec fn fee_outcome(lines: Seq<Seq<char>>, m: int) -> Result<(DecimalView, Seq<char>, DecimalView), Seq<char>> {
    if m >= lines.len() {
        Err(verr("fee line not found"@, (m + 1) as nat))
    } else if !regex_valid(FEE_LINE@) {
        Err("invalid regex"@)
    } else {
        let ln = (m + 1) as nat;
        match regex_captures(FEE_LINE@, trimmed_end(lines[m]), fee_names()) {
            None => Err(verr("Processing fee ... line expected"@, ln)),
            Some(h) => match h[0] {
                None => Err(verr("fee percent must appear"@, ln)),
                Some(ps) => match quote_decimal(ps) {
                    None => Err("invalid decimal"@),
                    Some(p) => match h[1] {
                        None => Err(verr("fee currency must appear"@, ln)),
                        Some(fc) => match h[2] {
                            None => Err(verr("fee amount must appear"@, ln)),
                            Some(fa) => match quote_decimal(fa) {
                                None => Err("invalid decimal"@),
                                Some(f) => Ok((p, fc, f)),
                            },
                        },
                    },
                },
            },
        }
    }
}

/// The exchange rate and fee lines from `n`, of an entry exchanged from `cur`, with the
/// line after them.
pub open spec fn exchange_outcome(lines: Seq<Seq<char>>, n: int, cur: Seq<char>, exam: DecimalView) -> Result<(ExchangeView, int), Seq<char>> {
    if n >= lines.len() {
        Err(verr("exchange rate line not found"@, (n + 1) as nat))
    } else if !regex_valid(EXCHANGE_RATE_LINE@) {
        Err("invalid regex"@)
    } else {
        let ln = (n + 1) as nat;
        match regex_captures(EXCHANGE_RATE_LINE@, trimmed_end(lines[n]), rate_names()) {
            None => Err(verr("Exchange rate ... line expected"@, ln)),
            Some(g) => match g[0] {
                None => Err(verr("rate must appear"@, ln)),
                Some(rs) => match quote_decimal(rs) {
                    None => Err("invalid decimal"@),
                    Some(rate) => match g[1] {
                        None => Err(verr("date must appear"@, ln)),
                        Some(ds) => match euro_date(ds) {
                            None => Err("invalid datetime"@),
                            Some(rd) => match g[2] {
                                None => Err(verr("spent currency must appear"@, ln)),
                                Some(sc) => match g[3] {
                                    None => Err(verr("spent amount must appear"@, ln)),
                                    Some(sa) => match quote_decimal(sa) {
                                        None => Err("invalid decimal"@),
                                        Some(spent) => match fee_outcome(lines, n + 1) {
                                            Err(m) => Err(m),
                                            Ok((p, fc, f)) => Ok(
                                                (
                                                    ExchangeView {
                                                        rate,
                                                        rate_date: rd,
                                                        exchanged_currency: cur,
                                                        exchanged_amount: exam,
                                                        spent_currency: sc,
                                                        spent_amount: spent,
                                                        fee_percent: p,
                                                        fee_currency: fc,
                                                        fee_amount: f,
                                                    },
                                                    n + 2,
                                                ),
                                            ),
                                        },
                                    },
                                },
                            },
                        },
                    },
                },
            },
        }
    }
}

/// The foreign currency and amount of the first line, if any.
pub open spec fn currency_part(g: Seq<Option<Seq<char>>>, ln: nat) -> Result<Option<(Seq<char>, DecimalView)>, Seq<char>> {
    match g[3] {
        None => Ok(None),
        Some(cur) => match g[4] {
            None => Err(verr("currency and examount should exist together"@, ln)),
            Some(ea) => match quote_decimal(ea) {
                None => Err("invalid decimal"@),
                Some(d) => Ok(Some((cur, d))),
            },
        },
    }
}

/// The entry from line `n` on, with the line after it: `None` at the end of the lines.
pub open spec fn entry_outcome(lines: Seq<Seq<char>>, n: int) -> Result<Option<(EntryView, int)>, Seq<char>> {
    if n >= lines.len() {
        Ok(None)
    } else if !regex_valid(FIRST_LINE@) {
        Err("invalid regex"@)
    } else {
        let ln = (n + 1) as nat;
        let l = trimmed_end(lines[n]);
        match regex_captures(FIRST_LINE@, l, first_names()) {
            None => Err(verr("unsupported entry line: "@ + l, ln)),
            Some(g) => match g[0] {
                None => Err(verr("date should exist"@, ln)),
                Some(ds) => match euro_date(ds) {
                    None => Err(verr("invalid date: "@ + ds, ln)),
                    Some(date) => match g[1] {
                        None => Err(verr("effective date should exist"@, ln)),
                        Some(es) => match euro_date(es) {
                            None => Err("invalid datetime"@),
                            Some(edate) => match g[2] {
                                None => Err(verr("payee should exist"@, ln)),
                                Some(payee) => match currency_part(g, ln) {
                                    Err(m) => Err(m),
                                    Ok(ex) => match g[5] {
                                        None => Err(verr("amount should exist"@, ln)),
                                        Some(amt) => match quote_decimal(amt) {
                                            None => Err("invalid decimal"@),
                                            Some(amount) => if n + 1 >= lines.len() {
                                                Err(verr("category line not found"@, ln + 1))
                                            } else {
                                                let base = EntryView {
                                                    line_count: ln,
                                                    date,
                                                    effective_date: edate,
                                                    payee,
                                                    amount,
                                                    category: trimmed_start(trimmed_end(lines[n + 1])),
                                                    exchange: None,
                                                };
                                                match ex {
                                                    None => Ok(Some((base, n + 2))),
                                                    Some((cur, exam)) => match exchange_outcome(lines, n + 2, cur, exam) {
                                                        Err(m) => Err(m),
                                                        Ok((x, n3)) => Ok(Some((EntryView { exchange: Some(x), ..base }, n3))),
                                                    },
                                                }
                                            },
                                        },
                                    },
                                },
                            },
                        },
                    },
                },
            },
        }
    }
}

/// Statement error with the message, its detail and the line.
fn statement_error(msg: &str, detail: &str, line: u128) -> (r: ImportError)
    ensures
        error_text(r) == verr(msg@ + detail@, line as nat),
{
    let mut m = String::new();
    assert(m@ =~= Seq::<char>::empty());
    push_str(&mut m, msg);
    push_str(&mut m, detail);
    push_str(&mut m, " @ line ");
    push_u128(&mut m, line);
    let r = ImportError::Viseca(m);
    assert(error_text(r) =~= verr(msg@ + detail@, line as nat));
    r
}

/// Statement error with the message and the line.
fn error_at(msg: &str, line: u128) -> (r: ImportError)
    ensures
        error_text(r) == verr(msg@, line as nat),
{
    let mut m = String::new();
    assert(m@ =~= Seq::<char>::empty());
    push_str(&mut m, msg);
    push_str(&mut m, " @ line ");
    push_u128(&mut m, line);
    let r = ImportError::Viseca(m);
    assert(error_text(r) =~= verr(msg@, line as nat));
    r
}

/// The group of the captures.
fn group(g: &Vec<Option<String>>, i: usize) -> (r: Option<String>)
    requires
        i < g@.len(),
    ensures
        opt_text(r) == opt_texts(g@)[i as int],
{
    match &g[i] {
        Some(s) => Some(s.clone()),
        None => None,
    }
}

/// Parser of the lines of a statement.
pub struct Parser {
    lines: Vec<String>,
    next: usize,
}

impl Parser {
    #[verifier::type_invariant]
    spec fn inv(self) -> bool {
        self.next <= self.lines@.len()
    }

    /// The lines of the statement.
    pub closed spec fn lines(&self) -> Seq<Seq<char>> {
        texts(self.lines@)
    }

    /// The number of lines read.
    pub closed spec fn position(&self) -> int {
        self.next as int
    }

    /// Parser of the statement text, at its first line.
    pub fn new(input: &str) -> (r: Parser)
        ensures
            r.lines() == lines_of(input@),
            r.position() == 0,
    {
        Parser { lines: split_lines(input), next: 0 }
    }

    /// The line after the read ones, if any.
    fn read_line(&mut self) -> (r: Option<String>)
        ensures
            final(self).lines() == old(self).lines(),
            match r {
                Some(l) => old(self).position() < old(self).lines().len() && l@ == old(self).lines()[old(self).position()]
                    && final(self).position() == old(self).position() + 1,
                None => old(self).position() >= old(self).lines().len() && final(self).position() == old(self).position(),
            },
    {
        proof {
            use_type_invariant(&*self);
        }
        if self.next < self.lines.len() {
            let l = self.lines[self.next].clone();
            assert(texts(self.lines@)[self.next as int] == self.lines@[self.next as int]@);
            self.next = self.next + 1;
            Some(l)
        } else {
            None
        }
    }

    /// The line number of the next line.
    fn next_line_number(&self) -> (r: u128)
        ensures
            r == self.position() + 1,
    {
        self.next as u128 + 1
    }

    /// Parses the exchange rate and fee lines of an entry, see [`exchange_outcome`].
    fn parse_exchange(&mut self, exchanged_currency: String, exchanged_amount: Decimal) -> (r: Result<Exchange, ImportError>)
        ensures
            final(self).lines() == old(self).lines(),
            match exchange_outcome(old(self).lines(), old(self).position(), exchanged_currency@, exchanged_amount@) {
                Ok((x, n)) => r matches Ok(e) && e@ == x && final(self).position() == n,
                Err(m) => r matches Err(e) && error_text(e) == m,
            },
    {
        let eof_line = self.next_line_number();
        let line = match self.read_line() {
            Some(l) => l,
            None => {
                return Err(error_at("exchange rate line not found", eof_line));
            },
        };
        if !regex_check(EXCHANGE_RATE_LINE) {
            return Err(ImportError::InvalidRegex);
        }
        let ln: u128 = eof_line;
        let l = trim_end(line.as_str());
        let names: [&str; 4] = ["rate", "date", "scurrency", "samount"];
        assert(name_texts(names@) =~= rate_names());
        let g = match regex_named_groups(EXCHANGE_RATE_LINE, l.as_str(), &names) {
            Some(g) => g,
            None => {
                return Err(error_at("Exchange rate ... line expected", ln));
            },
        };
        let rate = match group(&g, 0) {
            None => {
                return Err(error_at("rate must appear", ln));
            },
            Some(s) => match parse_decimal(s.as_str()) {
                Ok(d) => d,
                Err(e) => {
                    return Err(e);
                },
            },
        };
        let rate_date = match group(&g, 1) {
            None => {
                return Err(error_at("date must appear", ln));
            },
            Some(s) => match parse_euro_date(s.as_str()) {
                Some(d) => d,
                None => {
                    return Err(ImportError::InvalidDatetime);
                },
            },
        };
        let spent_currency = match group(&g, 2) {
            None => {
                return Err(error_at("spent currency must appear", ln));
            },
            Some(s) => s,
        };
        let spent_amount = match group(&g, 3) {
            None => {
                return Err(error_at("spent amount must appear", ln));
            },
            Some(s) => match parse_decimal(s.as_str()) {
                Ok(d) => d,
                Err(e) => {
                    return Err(e);
                },
            },
        };
        let fee_eof = self.next_line_number();
        let fee_line = match self.read_line() {
            Some(l) => l,
            None => {
                return Err(error_at("fee line not found", fee_eof));
            },
        };
        if !regex_check(FEE_LINE) {
            return Err(ImportError::InvalidRegex);
        }
        let fl = trim_end(fee_line.as_str());
        let fnames: [&str; 3] = ["percent", "fcurrency", "famount"];
        assert(name_texts(fnames@) =~= fee_names());
        let h = match regex_named_groups(FEE_LINE, fl.as_str(), &fnames) {
            Some(h) => h,
            None => {
                return Err(error_at("Processing fee ... line expected", fee_eof));
            },
        };
        let fee_percent = match group(&h, 0) {
            None => {
                return Err(error_at("fee percent must appear", fee_eof));
            },
            Some(s) => match parse_decimal(s.as_str()) {
                Ok(d) => d,
                Err(e) => {
                    return Err(e);
                },
            },
        };
        let fee_currency = match group(&h, 1) {
            None => {
                return Err(error_at("fee currency must appear", fee_eof));
            },
            Some(s) => s,
        };
        let fee_amount = match group(&h, 2) {
            None => {
                return Err(error_at("fee amount must appear", fee_eof));
            },
            Some(s) => match parse_decimal(s.as_str()) {
                Ok(d) => d,
                Err(e) => {
                    return Err(e);
                },
            },
        };
        Ok(
            Exchange {
                rate,
                rate_date,
                exchanged_currency,
                exchanged_amount,
                spent_currency,
                spent_amount,
                fee_percent,
                fee_currency,
                fee_amount,
            },
        )
    }

    /// Parses the next entry, see [`entry_outcome`]: `None` at the end of the statement.
    pub fn parse_entry(&mut self) -> (r: Result<Option<Entry>, ImportError>)
        ensures
            final(self).lines() == old(self).lines(),
            match entry_outcome(old(self).lines(), old(self).position()) {
                Ok(None) => r matches Ok(None) && final(self).position() == old(self).position(),
                Ok(Some((x, n))) => r matches Ok(Some(e)) && e@ == x && final(self).position() == n,
                Err(m) => r matches Err(e) && error_text(e) == m,
            },
            r matches Ok(Some(_)) ==> final(self).position() > old(self).position(),
    {
        let ln: u128 = self.next_line_number();
        let line = match self.read_line() {
            Some(l) => l,
            None => {
                return Ok(None);
            },
        };
        let line_count = self.next;
        if !regex_check(FIRST_LINE) {
            return Err(ImportError::InvalidRegex);
        }
        let l = trim_end(line.as_str());
        let names: [&str; 6] = ["date", "edate", "payee", "currency", "examount", "amount"];
        assert(name_texts(names@) =~= first_names());
        let g = match regex_named_groups(FIRST_LINE, l.as_str(), &names) {
            Some(g) => g,
            None => {
                return Err(statement_error("unsupported entry line: ", l.as_str(), ln));
            },
        };
        let date = match group(&g, 0) {
            None => {
                return Err(error_at("date should exist", ln));
            },
            Some(s) => match parse_euro_date(s.as_str()) {
                Some(d) => d,
                None => {
                    return Err(statement_error("invalid date: ", s.as_str(), ln));
                },
            },
        };
        let effective_date = match group(&g, 1) {
            None => {
                return Err(error_at("effective date should exist", ln));
            },
            Some(s) => match parse_euro_date(s.as_str()) {
                Some(d) => d,
                None => {
                    return Err(ImportError::InvalidDatetime);
                },
            },
        };
        let payee = match group(&g, 2) {
            None => {
                return Err(error_at("payee should exist", ln));
            },
            Some(s) => s,
        };
        let exchange = match group(&g, 3) {
            None => None,
            Some(currency) => match group(&g, 4) {
                None => {
                    return Err(error_at("currency and examount should exist together", ln));
                },
                Some(s) => match parse_decimal(s.as_str()) {
                    Ok(d) => Some((currency, d)),
                    Err(e) => {
                        return Err(e);
                    },
                },
            },
        };
        let amount = match group(&g, 5) {
            None => {
                return Err(error_at("amount should exist", ln));
            },
            Some(s) => match parse_decimal(s.as_str()) {
                Ok(d) => d,
                Err(e) => {
                    return Err(e);
                },
            },
        };
        let category_eof = self.next_line_number();
        let category_line = match self.read_line() {
            Some(c) => c,
            None => {
                return Err(error_at("category line not found", category_eof));
            },
        };
        let category = trim(category_line.as_str());
        let exchange = match exchange {
            None => None,
            Some((currency, examount)) => match self.parse_exchange(currency, examount) {
                Ok(x) => Some(x),
                Err(e) => {
                    return Err(e);
                },
            },
        };
        Ok(Some(Entry { line_count, date, effective_date, payee, amount, category, exchange }))
    }
}

/// Field of an entry a Viseca matcher looks at.
#[derive(Debug, PartialEq, Eq, Structural, Clone, Copy)]
pub enum Field {
    Payee,
    Category,
}

/// Matcher of a Viseca entry.
pub struct VisecaMatcher {
    pub field: Field,
    pub pattern: Pattern,
}

impl EntityMatcher for VisecaMatcher {
    type T = Entry;

    open spec fn accepts(field: RewriteField, pattern: Seq<char>) -> bool {
        (field == RewriteField::Payee || field == RewriteField::Category) && regex_valid(pattern)
    }

    open spec fn refusal(field: RewriteField, pattern: Seq<char>) -> ImportError {
        if field == RewriteField::Payee || field == RewriteField::Category {
            ImportError::InvalidRegex
        } else {
            ImportError::InvalidConfig("unsupported rewrite field")
        }
    }

    open spec fn source(&self) -> MatchSource {
        (
            match self.field {
                Field::Payee => RewriteField::Payee,
                Field::Category => RewriteField::Category,
            },
            self.pattern.source(),
        )
    }

    /// The pattern matches the payee so far (or that of the entry), or the category; its
    /// group `payee` gives a new payee.
    open spec fn captured_by(source: MatchSource, payee: Option<Seq<char>>, entity: EntryView) -> Option<Option<Seq<char>>> {
        if source.0 == RewriteField::Payee {
            regex_payee_capture(
                source.1,
                match payee {
                    Some(p) => p,
                    None => entity.payee,
                },
            )
        } else if source.0 == RewriteField::Category {
            regex_payee_capture(source.1, entity.category)
        } else {
            None
        }
    }

    open spec fn code_by(source: MatchSource, payee: Option<Seq<char>>, entity: EntryView) -> Option<Seq<char>> {
        if source.0 == RewriteField::Payee {
            regex_code_capture(
                source.1,
                match payee {
                    Some(p) => p,
                    None => entity.payee,
                },
            )
        } else if source.0 == RewriteField::Category {
            regex_code_capture(source.1, entity.category)
        } else {
            None
        }
    }

    fn try_from_field(field: RewriteField, pattern: &str) -> (r: Result<VisecaMatcher, ImportError>) {
        let field = match field {
            RewriteField::Payee => Field::Payee,
            RewriteField::Category => Field::Category,
            _ => {
                return Err(ImportError::InvalidConfig("unsupported rewrite field"));
            },
        };
        let pattern = match Pattern::new(pattern) {
            Ok(p) => p,
            Err(e) => {
                return Err(e);
            },
        };
        Ok(VisecaMatcher { field, pattern })
    }

    fn captures(&self, fragment: &Fragment, entity: &Entry) -> (r: Option<Matched>) {
        let target = match self.field {
            Field::Payee => match &fragment.payee {
                Some(p) => p.as_str(),
                None => entity.payee.as_str(),
            },
            Field::Category => entity.category.as_str(),
        };
        match self.pattern.captures(target) {
            Some(p) => Some(Matched { payee: p.0, code: p.1 }),
            None => None,
        }
    }
}

/// The transaction of an entry: the rules give the payee and the account, the amount is
/// spent from the card (negated) in the commodity of the config, an exchange gives the
/// transferred foreign amount at the rate; an exchange (which has a fee) needs an operator
/// in the config.
pub open spec fn entry_txn(config: ConfigEntry, rules: Seq<RuleView>, e: EntryView) -> Result<TxnView, Seq<char>> {
    let frag = extract_spec::<VisecaMatcher>(rules, e);
    if e.exchange is Some && config.operator is None {
        Err("invalid config "@ + "config should have operator to have charge"@)
    } else {
        Ok(
            TxnView {
                date: e.date,
                effective_date: if e.effective_date != e.date { Some(e.effective_date) } else { None },
                code: None,
                payee: match frag.1 {
                    Some(p) => p,
                    None => e.payee,
                },
                dest_account: frag.2,
                clear_state: if frag.0 { ClearState::Cleared } else { ClearState::Pending },
                amount: (view_neg(e.amount), config.commodity@),
                balance: None,
                rate: None,
                transferred: match e.exchange {
                    Some(x) => Some(((view_neg(x.exchanged_amount), x.exchanged_currency), Some((false, (x.rate, x.spent_currency))))),
                    None => None,
                },
            },
        )
    }
}

/// The transaction of an entry is dated on the entry's date (effective on its second date
/// where they differ) and spends its amount (negated) in the commodity of the config;
/// an exchanged entry also transfers the foreign amount (negated) in the foreign currency, at
/// the rate of the statement, a price of one unit given in the currency spent (the one of the
/// exchange rate line), not in the foreign currency.
pub proof fn law_entry_exchange(config: ConfigEntry, rules: Seq<RuleView>, e: EntryView)
    ensures
        entry_txn(config, rules, e) matches Ok(t) ==> {
            &&& t.amount == (view_neg(e.amount), config.commodity@)
            &&& t.date == e.date
            &&& e.effective_date != e.date ==> t.effective_date == Some(e.effective_date)
            &&& e.effective_date == e.date ==> t.effective_date is None
            &&& t.balance is None
            &&& e.exchange is None ==> t.transferred is None
            &&& e.exchange matches Some(x) ==> {
                &&& t.transferred matches Some((tr, Some((total, price))))
                &&& tr == (view_neg(x.exchanged_amount), x.exchanged_currency)
                &&& !total
                &&& price.0 == x.rate
                &&& price.1 == x.spent_currency
            }
        },
        entry_txn(config, rules, e) is Err <==> (e.exchange is Some && config.operator is None),
{
}

/// The exchange read from line `n` is of the foreign currency `cur` and amount `exam` of the
/// entry, and its rate, its date and the currency spent are the groups `rate`, `date` and
/// `scurrency` of the exchange rate line.
pub proof fn law_exchange_line(lines: Seq<Seq<char>>, n: int, cur: Seq<char>, exam: DecimalView)
    ensures
        exchange_outcome(lines, n, cur, exam) matches Ok((x, next)) ==> {
            &&& x.exchanged_currency == cur
            &&& x.exchanged_amount == exam
            &&& next == n + 2
            &&& n < lines.len()
            &&& regex_captures(EXCHANGE_RATE_LINE@, trimmed_end(lines[n]), rate_names()) matches Some(g)
            &&& g[0] matches Some(rs) && quote_decimal(rs) == Some(x.rate)
            &&& g[1] matches Some(ds) && euro_date(ds) == Some(x.rate_date)
            &&& g[2] == Some(x.spent_currency)
            &&& rate_names()[2] == "scurrency"@
        },
{
    reveal_strlit("scurrency");
}

/// The transactions of the entries from line `n` on, or the first error.
pub open spec fn imports_from(config: ConfigEntry, rules: Seq<RuleView>, lines: Seq<Seq<char>>, n: int) -> Result<Seq<TxnView>, Seq<char>>
    decreases lines.len() - n,
{
    match entry_outcome(lines, n) {
        Err(m) => Err(m),
        Ok(None) => Ok(Seq::empty()),
        Ok(Some((e, n2))) => if n2 <= n || n >= lines.len() {
            Ok(Seq::empty())
        } else {
            match entry_txn(config, rules, e) {
                Err(m) => Err(m),
                Ok(t) => match imports_from(config, rules, lines, n2) {
                    Err(m) => Err(m),
                    Ok(rest) => Ok(seq![t] + rest),
                },
            }
        },
    }
}

/// Importer of Viseca statements.
pub struct VisecaImporter {}

/// What an import of the statement text gives: the error of the rules of the config, else
/// the transactions of its entries (see [`imports_from`]).
pub open spec fn viseca_result(config: ConfigEntry, text: Seq<char>, r: Result<Vec<Txn>, ImportError>) -> bool {
    match rules_error::<VisecaMatcher>(config.rewrite@, 0) {
        Some(e) => r == Err::<Vec<Txn>, ImportError>(e),
        None => match imports_from(config, config_rules(config.rewrite@), lines_of(text), 0) {
            Ok(v) => r matches Ok(x) && txn_views(x@) == v,
            Err(m) => r matches Err(e) && error_text(e) == m,
        },
    }
}

/// The transaction of an entry, see [`entry_txn`].
fn entry_transaction(config: &ConfigEntry, extractor: &Extractor<VisecaMatcher>, entry: Entry) -> (r: Result<Txn, ImportError>)
    ensures
        match entry_txn(*config, extractor@, entry@) {
            Ok(t) => r matches Ok(x) && txn_view(x) == t,
            Err(m) => r matches Err(e) && error_text(e) == m,
        },
{
    let fragment = extractor.extract(&entry);
    if entry.exchange.is_some() && config.operator.is_none() {
        return Err(ImportError::InvalidConfig("config should have operator to have charge"));
    }
    let payee = match &fragment.payee {
        Some(p) => p.clone(),
        None => entry.payee.clone(),
    };
    let transferred_amount = match &entry.exchange {
        Some(x) => Some(
            ExchangedAmount {
                amount: data::Amount { value: x.exchanged_amount.neg(), commodity: x.exchanged_currency.clone() },
                exchange: Some(data::Exchange::Rate(data::Amount { value: x.rate, commodity: x.spent_currency.clone() })),
            },
        ),
        None => None,
    };
    Ok(
        Txn {
            date: entry.date,
            effective_date: if entry.effective_date.lt(&entry.date) || entry.date.lt(&entry.effective_date) {
                Some(entry.effective_date)
            } else {
                None
            },
            code: None,
            payee,
            dest_account: copy_opt_string(&fragment.account),
            clear_state: if fragment.cleared { ClearState::Cleared } else { ClearState::Pending },
            amount: data::Amount { value: entry.amount.neg(), commodity: config.commodity.clone() },
            balance: None,
            rate: None,
            transferred_amount,
        },
    )
}

impl VisecaImporter {
    /// Imports the text of a statement: the error of the rules of the config, else the
    /// transactions of its entries (see [`imports_from`]).
    pub fn import(&self, input: &str, config: &ConfigEntry) -> (r: Result<Vec<Txn>, ImportError>)
        ensures
            viseca_result(*config, input@, r),
    {
        let extractor: Extractor<VisecaMatcher> = match Extractor::try_from_rules(&config.rewrite) {
            Ok(x) => x,
            Err(e) => {
                return Err(e);
            },
        };
        let mut parser = Parser::new(input);
        let ghost lines = lines_of(input@);
        let ghost rules = config_rules(config.rewrite@);
        let mut result: Vec<Txn> = Vec::new();
        assert(txn_views(result@) =~= Seq::<TxnView>::empty());
        loop
            invariant
                parser.lines() == lines,
                lines == lines_of(input@),
                0 <= parser.position() <= lines.len(),
                extractor@ == rules,
                rules == config_rules(config.rewrite@),
                rules_error::<VisecaMatcher>(config.rewrite@, 0) is None,
                imports_from(*config, rules, lines, 0) == match imports_from(*config, rules, lines, parser.position()) {
                    Ok(rest) => Ok(txn_views(result@) + rest),
                    Err(m) => Err(m),
                },
            decreases lines.len() - parser.position(),
        {
            let ghost n = parser.position();
            match parser.parse_entry() {
                Err(e) => {
                    assert(imports_from(*config, rules, lines, n) == Err::<Seq<TxnView>, Seq<char>>(error_text(e)));
                    return Err(e);
                },
                Ok(None) => {
                    assert(txn_views(result@) + Seq::<TxnView>::empty() =~= txn_views(result@));
                    return Ok(result);
                },
                Ok(Some(entry)) => {
                    let ghost ev = entry@;
                    let t = match entry_transaction(config, &extractor, entry) {
                        Ok(t) => t,
                        Err(e) => {
                            assert(imports_from(*config, rules, lines, n) == Err::<Seq<TxnView>, Seq<char>>(error_text(e)));
                            return Err(e);
                        },
                    };
                    let ghost before = txn_views(result@);
                    result.push(t);
                    proof {
                        assert(txn_views(result@) =~= before.push(txn_view(t)));
                        match imports_from(*config, rules, lines, parser.position()) {
                            Ok(rest) => {
                                assert(before + (seq![txn_view(t)] + rest) =~= txn_views(result@) + rest);
                            },
                            Err(_) => {},
                        }
                    }
                },
            }
        }
    }
}

} // verus!
