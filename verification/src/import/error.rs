//! Errors of the importers.
use crate::import::config::RewriteField;
use crate::text::push_str;
use vstd::prelude::*;

verus! {

/// Error of an import.
#[derive(Debug, PartialEq, Eq, Clone)]
pub enum ImportError {
    /// The input could not be read.
    IO,
    /// The CSV input could not be read.
    CSV,
    /// A flag has an invalid value.
    InvalidFlag(&'static str),
    /// The config is invalid.
    InvalidConfig(&'static str),
    /// A date or time could not be parsed.
    InvalidDatetime,
    /// A decimal could not be parsed.
    InvalidDecimal,
    /// A pattern of a rewrite rule is not a valid regular expression.
    InvalidRegex,
    /// Other error, with its message.
    Other(String),
    /// A rewrite rule matches a field that the format does not have.
    UnknownMatchField(RewriteField),
    /// A feature the format does not support.
    Unimplemented(&'static str),
    /// The input format is not known.
    UnknownFormat,
    /// A Viseca statement does not have the expected form, with the message.
    Viseca(String),
}

/// Text of the error.
pub open spec fn error_text(e: ImportError) -> Seq<char> {
    match e {
        ImportError::IO => "failed to perform IO"@,
        ImportError::CSV => "failed to parse CSV"@,
        ImportError::InvalidFlag(f) => "invalid flag "@ + f@,
        ImportError::InvalidConfig(c) => "invalid config "@ + c@,
        ImportError::InvalidDatetime => "invalid datetime"@,
        ImportError::InvalidDecimal => "invalid decimal"@,
        ImportError::InvalidRegex => "invalid regex"@,
        ImportError::Other(o) => "other error: "@ + o@,
        ImportError::UnknownMatchField(f) => "other error: "@ + "unknown match field: "@ + field_debug_name(f),
        ImportError::Unimplemented(u) => "unimplemented "@ + u@,
        ImportError::UnknownFormat => "unknown format"@,
        ImportError::Viseca(m) => "invalid viseca statement: "@ + m@,
    }
}

/// The name of the field, as `Debug` writes it.
pub open spec fn field_debug_name(f: RewriteField) -> Seq<char> {
    match f {
        RewriteField::DomainCode => "DomainCode"@,
        RewriteField::DomainFamily => "DomainFamily"@,
        RewriteField::DomainSubFamily => "DomainSubFamily"@,
        RewriteField::CreditorName => "CreditorName"@,
        RewriteField::CreditorAccountId => "CreditorAccountId"@,
        RewriteField::UltimateCreditorName => "UltimateCreditorName"@,
        RewriteField::DebtorName => "DebtorName"@,
        RewriteField::DebtorAccountId => "DebtorAccountId"@,
        RewriteField::UltimateDebtorName => "UltimateDebtorName"@,
        RewriteField::RemittanceUnstructuredInfo => "RemittanceUnstructuredInfo"@,
        RewriteField::AdditionalTransactionInfo => "AdditionalTransactionInfo"@,
        RewriteField::Category => "Category"@,
        RewriteField::Payee => "Payee"@,
    }
}

/// The name of the field, as `Debug` writes it.
pub fn field_name(f: RewriteField) -> (r: &'static str)
    ensures
        r@ == field_debug_name(f),
{
    match f {
        RewriteField::DomainCode => "DomainCode",
        RewriteField::DomainFamily => "DomainFamily",
        RewriteField::DomainSubFamily => "DomainSubFamily",
        RewriteField::CreditorName => "CreditorName",
        RewriteField::CreditorAccountId => "CreditorAccountId",
        RewriteField::UltimateCreditorName => "UltimateCreditorName",
        RewriteField::DebtorName => "DebtorName",
        RewriteField::DebtorAccountId => "DebtorAccountId",
        RewriteField::UltimateDebtorName => "UltimateDebtorName",
        RewriteField::RemittanceUnstructuredInfo => "RemittanceUnstructuredInfo",
        RewriteField::AdditionalTransactionInfo => "AdditionalTransactionInfo",
        RewriteField::Category => "Category",
        RewriteField::Payee => "Payee",
    }
}

impl ImportError {
    /// Text of the error.
    pub fn message(&self) -> (r: String)
        ensures
            r@ == error_text(*self),
    {
        let mut s = String::new();
        assert(s@ =~= Seq::<char>::empty());
        match self {
            ImportError::IO => {
                push_str(&mut s, "failed to perform IO");
            },
            ImportError::CSV => {
                push_str(&mut s, "failed to parse CSV");
            },
            ImportError::InvalidFlag(f) => {
                push_str(&mut s, "invalid flag ");
                push_str(&mut s, f);
            },
            ImportError::InvalidConfig(c) => {
                push_str(&mut s, "invalid config ");
                push_str(&mut s, c);
            },
            ImportError::InvalidDatetime => {
                push_str(&mut s, "invalid datetime");
            },
            ImportError::InvalidDecimal => {
                push_str(&mut s, "invalid decimal");
            },
            ImportError::InvalidRegex => {
                push_str(&mut s, "invalid regex");
            },
            ImportError::Other(o) => {
                push_str(&mut s, "other error: ");
                push_str(&mut s, o.as_str());
            },
            ImportError::UnknownMatchField(f) => {
                push_str(&mut s, "other error: ");
                push_str(&mut s, "unknown match field: ");
                push_str(&mut s, field_name(*f));
            },
            ImportError::Unimplemented(u) => {
                push_str(&mut s, "unimplemented ");
                push_str(&mut s, u);
            },
            ImportError::UnknownFormat => {
                push_str(&mut s, "unknown format");
            },
            ImportError::Viseca(m) => {
                push_str(&mut s, "invalid viseca statement: ");
                push_str(&mut s, m.as_str());
            },
        }
        s
    }
}

} // verus!
