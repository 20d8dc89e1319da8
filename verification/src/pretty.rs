//! Decimal with its printing format, as written in a Ledger file.
use crate::decimal::{Decimal, DecimalView, opt_view};
use vstd::prelude::*;

verus! {

/// Decimal formatting type for pretty-printing.
#[derive(Debug, PartialEq, Eq, Structural, Clone, Copy)]
pub enum Format {
    /// No grouping, such as `1234.5`.
    Plain,
    /// `,` on every thousands, `.` for the decimal point.
    Comma3Dot,
}

/// Code of an optional format: 0 for none, 1 for plain, 2 for comma-grouped.
pub open spec fn format_code(f: Option<Format>) -> int {
    match f {
        None => 0,
        Some(Format::Plain) => 1,
        Some(Format::Comma3Dot) => 2,
    }
}

/// Text that `pretty_decimal` prints for the value with the format (by [`format_code`]).
pub uninterp spec fn pretty_display(format: int, value: DecimalView) -> Seq<char>;

/// Result of `pretty_decimal`'s `FromStr`: the format code and the value.
pub uninterp spec fn pretty_from_str(s: Seq<char>) -> Option<(int, DecimalView)>;

/// Decimal with the pretty printing format information.
#[derive(Debug, PartialEq, Eq, Clone, Copy)]
pub struct PrettyDecimal {
    /// Format of the decimal, `None` when there is no associated format.
    pub format: Option<Format>,
    /// Actual value.
    pub value: Decimal,
}

impl PrettyDecimal {
    /// Unformatted decimal.
    pub fn unformatted(value: Decimal) -> (r: Self)
        ensures
            r.format is None,
            r.value == value,
    {
        PrettyDecimal { format: None, value }
    }

    /// Plain decimal.
    pub fn plain(value: Decimal) -> (r: Self)
        ensures
            r.format == Some(Format::Plain),
            r.value == value,
    {
        PrettyDecimal { format: Some(Format::Plain), value }
    }

    /// Comma-grouped decimal.
    pub fn comma3dot(value: Decimal) -> (r: Self)
        ensures
            r.format == Some(Format::Comma3Dot),
            r.value == value,
    {
        PrettyDecimal { format: Some(Format::Comma3Dot), value }
    }

    /// Decimal with the given format.
    pub fn with_format(value: Decimal, format: Option<Format>) -> (r: Self)
        ensures
            r.format == format,
            r.value == value,
    {
        PrettyDecimal { format, value }
    }

    /// Current scale of the value.
    pub fn scale(&self) -> (r: u32)
        ensures
            r == self.value@.2,
    {
        self.value.scale()
    }

    /// Rescales the underlying value.
    pub fn rescale(&mut self, scale: u32)
        ensures
            final(self).format == old(self).format,
            final(self).value@ == crate::decimal::decimal_rescale(old(self).value@, scale as nat),
    {
        self.value = self.value.rescale(scale);
    }

    /// Text of the decimal in its format.
    pub fn to_string(&self) -> (r: String)
        ensures
            r@ == pretty_display(format_code(self.format), self.value@),
    {
        external_pretty_display(self)
    }

    /// Parses a possibly comma-grouped decimal, deducing its format. The text holds at most 38
    /// digits: `pretty_decimal` sums the digits in an `i128`, which longer digit runs
    /// overflow.
    pub fn parse(s: &str) -> (r: Option<PrettyDecimal>)
        requires
            ascii_digit_count(s@) <= 38,
        ensures
            r is Some <==> pretty_from_str(s@) is Some,
            r matches Some(p) ==> pretty_from_str(s@) == Some(
                (format_code(p.format), p.value@),
            ),
    {
        external_pretty_parse(s)
    }
}

/// `Display` of `pretty_decimal::PrettyDecimal`.
#[verifier::external_body]
fn external_pretty_display(p: &PrettyDecimal) -> (r: String)
    ensures
        r@ == pretty_display(format_code(p.format), p.value@),
{
    let x = p.value.parts();
    let mut v = rust_decimal::Decimal::from_parts(x.0, x.1, x.2, x.3, x.4);
    v.set_sign_negative(x.3);
    let f = match p.format {
        None => None,
        Some(Format::Plain) => Some(pretty_decimal::Format::Plain),
        Some(Format::Comma3Dot) => Some(pretty_decimal::Format::Comma3Dot),
    };
    pretty_decimal::PrettyDecimal::with_format(v, f).to_string()
}

/// Number of ASCII digits in the text.
pub open spec fn ascii_digit_count(s: Seq<char>) -> nat
    decreases s.len(),
{
    if s.len() == 0 {
        0
    } else {
        ascii_digit_count(s.drop_last()) + if '0' <= s.last() && s.last() <= '9' {
            1nat
        } else {
            0nat
        }
    }
}

/// `FromStr` of `pretty_decimal::PrettyDecimal`. It accumulates the digits in an `i128`
/// (`mantissa * 10 + d`), so the text is kept to at most 38 digits, which cannot overflow it.
#[verifier::external_body]
fn external_pretty_parse(s: &str) -> (r: Option<PrettyDecimal>)
    requires
        ascii_digit_count(s@) <= 38,
    ensures
        r is Some <==> pretty_from_str(s@) is Some,
        r matches Some(p) ==> pretty_from_str(s@) == Some((format_code(p.format), p.value@)),
{
    let p: pretty_decimal::PrettyDecimal = s.parse().ok()?;
    let format = match p.format {
        Some(pretty_decimal::Format::Plain) => Some(Format::Plain),
        Some(pretty_decimal::Format::Comma3Dot) => Some(Format::Comma3Dot),
        _ => None,
    };
    let value = Decimal::from_parts(p.value.is_sign_negative(), p.value.mantissa().unsigned_abs(), p.value.scale())?;
    Some(PrettyDecimal { format, value })
}

} // verus!
