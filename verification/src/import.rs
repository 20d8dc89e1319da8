//! Importers of bank statements into Ledger transactions.
pub mod error;
pub mod config;
pub mod extract;
pub mod single_entry;
pub mod csv;
pub mod viseca;
pub mod iso_camt053;

use crate::data;
use crate::import::config::ConfigEntry;
use crate::import::csv::{csv_table, table_result, CsvImporter};
use crate::import::error::ImportError;
use crate::import::single_entry::{double_entry, txn_view, txn_views, Txn, TxnView};
use crate::import::iso_camt053::{camt053_result, Document, IsoCamt053Importer};
use crate::import::viseca::{viseca_result, VisecaImporter};
use crate::syntax;
use crate::syntax::convert::{is_transaction_of, transaction_from};
use crate::syntax::display::{no_option, transaction_text, CommodityDisplayOption, DisplayContext};
use crate::text::{push_str, str_eq};
use vstd::prelude::*;

verus! {

/// Format of a statement.
#[derive(Debug, PartialEq, Eq, Structural, Clone, Copy)]
pub enum Format {
    Csv,
    IsoCamt053,
    Viseca,
}

/// The format of a statement file by its extension: `csv`, `xml` (ISO camt.053) or `txt`
/// (Viseca); any other is `UnknownFormat`.
pub open spec fn format_of_extension(ext: Option<Seq<char>>) -> Result<Format, ImportError> {
    match ext {
        Some(e) => if e == "csv"@ {
            Ok(Format::Csv)
        } else if e == "xml"@ {
            Ok(Format::IsoCamt053)
        } else if e == "txt"@ {
            Ok(Format::Viseca)
        } else {
            Err(ImportError::UnknownFormat)
        },
        None => Err(ImportError::UnknownFormat),
    }
}

impl Format {
    /// The format of a statement file by its extension, see [`format_of_extension`].
    pub fn from_extension(ext: Option<&str>) -> (r: Result<Format, ImportError>)
        ensures
            r == format_of_extension(match ext {
                Some(e) => Some(e@),
                None => None,
            }),
    {
        proof {
            reveal_strlit("csv");
            reveal_strlit("xml");
            reveal_strlit("txt");
        }
        match ext {
            Some(e) => if str_eq(e, "csv") {
                Ok(Format::Csv)
            } else if str_eq(e, "xml") {
                Ok(Format::IsoCamt053)
            } else if str_eq(e, "txt") {
                Ok(Format::Viseca)
            } else {
                Err(ImportError::UnknownFormat)
            },
            None => Err(ImportError::UnknownFormat),
        }
    }
}

/// The text of the UTF-8 bytes, if they are.
pub uninterp spec fn utf8_text(bytes: Seq<u8>) -> Option<Seq<char>>;

/// `std::str::from_utf8`.
#[verifier::external_body]
fn decode_utf8(bytes: &[u8]) -> (r: Option<String>)
    ensures
        match r {
            Some(s) => utf8_text(bytes@) == Some(s@),
            None => utf8_text(bytes@) is None,
        },
{
    std::str::from_utf8(bytes).ok().map(|s| s.to_string())
}

/// The double-entry transactions of the single-entry ones on the account, in order.
pub open spec fn double_entries(views: Seq<TxnView>, src: Seq<char>, v: Seq<data::Transaction>) -> bool {
    v.len() == views.len() && forall|i: int| 0 <= i < views.len() ==> double_entry(views[i], src, #[trigger] v[i])
}

/// The import converted to double entries on the account: the same error, or the double
/// entries of the transactions.
pub open spec fn converted(single: Result<Vec<Txn>, ImportError>, src: Seq<char>, r: Result<Vec<data::Transaction>, ImportError>) -> bool {
    match single {
        Ok(txns) => r matches Ok(v) && double_entries(txn_views(txns@), src, v@),
        Err(e) => r == Err::<Vec<data::Transaction>, ImportError>(e),
    }
}

/// The double-entry transactions of the single-entry ones on the account.
fn to_double_entries(txns: &Vec<Txn>, src: &str) -> (r: Vec<data::Transaction>)
    ensures
        double_entries(txn_views(txns@), src@, r@),
{
    let mut res: Vec<data::Transaction> = Vec::new();
    let mut i: usize = 0;
    while i < txns.len()
        invariant
            i <= txns@.len(),
            res@.len() == i,
            forall|k: int| 0 <= k < i ==> double_entry(txn_view(txns@[k]), src@, #[trigger] res@[k]),
        decreases txns@.len() - i,
    {
        let t = match txns[i].to_double_entry(src) {
            Ok(t) => t,
            Err(_) => {
                assert(false);
                return res;
            },
        };
        res.push(t);
        i = i + 1;
    }
    res
}

/// Imports a statement of the format on the account of the config, as double-entry
/// transactions. CSV: `CSV` when its header is not CSV, else see
/// [`table_result`](crate::import::csv::table_result); Viseca: `IO` when the input is not
/// UTF-8, else see [`viseca_result`](crate::import::viseca::viseca_result); ISO camt.053:
/// `Unimplemented`, as its XML is read into a [`Document`] by the caller and imported by
/// [`import_document`].
pub fn import(input: &[u8], fmt: Format, config: &ConfigEntry) -> (r: Result<Vec<data::Transaction>, ImportError>)
    ensures
        fmt == Format::Csv ==> match csv_table(input@) {
            None => r == Err::<Vec<data::Transaction>, ImportError>(ImportError::CSV),
            Some(t) => exists|single: Result<Vec<Txn>, ImportError>|
                table_result(*config, t.0, t.1, t.2, single) && #[trigger] converted(single, config.account@, r),
        },
        fmt == Format::Viseca ==> match utf8_text(input@) {
            None => r == Err::<Vec<data::Transaction>, ImportError>(ImportError::IO),
            Some(text) => exists|single: Result<Vec<Txn>, ImportError>|
                viseca_result(*config, text, single) && #[trigger] converted(single, config.account@, r),
        },
        fmt == Format::IsoCamt053 ==> r matches Err(ImportError::Unimplemented(_)),
{
    let single = match fmt {
        Format::Csv => CsvImporter {}.import(input, config),
        Format::Viseca => match decode_utf8(input) {
            None => {
                return Err(ImportError::IO);
            },
            Some(text) => VisecaImporter {}.import(text.as_str(), config),
        },
        Format::IsoCamt053 => {
            return Err(ImportError::Unimplemented("reading ISO camt.053 XML"));
        },
    };
    let ghost s0 = single;
    let r = match single {
        Ok(txns) => Ok(to_double_entries(&txns, config.account.as_str())),
        Err(e) => Err(e),
    };
    assert(converted(s0, config.account@, r));
    r
}

/// Imports an ISO camt.053 document on the account of the config, as double-entry
/// transactions: see [`camt053_result`](crate::import::iso_camt053::camt053_result).
pub fn import_document(doc: &Document, config: &ConfigEntry) -> (r: Result<Vec<data::Transaction>, ImportError>)
    ensures
        exists|single: Result<Vec<Txn>, ImportError>|
            camt053_result(*config, *doc, single) && #[trigger] converted(single, config.account@, r),
{
    let single = IsoCamt053Importer {}.import(doc, config);
    let ghost s0 = single;
    let r = match single {
        Ok(txns) => Ok(to_double_entries(&txns, config.account.as_str())),
        Err(e) => Err(e),
    };
    assert(converted(s0, config.account@, r));
    r
}

/// The context that prints the commodities of the config with their precision as the least
/// scale, and the others as they are.
pub open spec fn is_config_context(ctx: DisplayContext, config: ConfigEntry) -> bool {
    &&& ctx.default_commodity == no_option()
    &&& ctx.commodity_overrides@.len() == config.format.commodity@.len()
    &&& forall|i: int|
        0 <= i < config.format.commodity@.len() ==> (#[trigger] ctx.commodity_overrides@[i]).0@
            == config.format.commodity@[i].0@ && ctx.commodity_overrides@[i].1 == (CommodityDisplayOption {
            format: None,
            min_scale: Some(config.format.commodity@[i].1.precision),
        })
}

/// The context of the config, see [`is_config_context`].
pub fn display_context_of(config: &ConfigEntry) -> (r: DisplayContext)
    ensures
        is_config_context(r, *config),
{
    let mut overrides: Vec<(String, CommodityDisplayOption)> = Vec::new();
    let mut i: usize = 0;
    while i < config.format.commodity.len()
        invariant
            i <= config.format.commodity@.len(),
            overrides@.len() == i,
            forall|k: int|
                0 <= k < i ==> (#[trigger] overrides@[k]).0@ == config.format.commodity@[k].0@ && overrides@[k].1
                    == (CommodityDisplayOption { format: None, min_scale: Some(config.format.commodity@[k].1.precision) }),
        decreases config.format.commodity@.len() - i,
    {
        let name = config.format.commodity[i].0.clone();
        let precision = config.format.commodity[i].1.precision;
        overrides.push((name, CommodityDisplayOption { format: None, min_scale: Some(precision) }));
        i = i + 1;
    }
    DisplayContext::new(CommodityDisplayOption { format: None, min_scale: None }, overrides)
}

/// The texts of the transactions, each followed by an empty line.
pub open spec fn transactions_text(ctx: DisplayContext, ts: Seq<syntax::Transaction>) -> Seq<char>
    decreases ts.len(),
{
    if ts.len() == 0 {
        Seq::empty()
    } else {
        transactions_text(ctx, ts.drop_last()) + transaction_text(ctx, ts.last()) + "\n"@
    }
}

/// The Ledger text of imported transactions: each one printed in the context, then an empty
/// line.
pub fn imported_text(ctx: &DisplayContext, txns: Vec<data::Transaction>) -> (r: String)
    ensures
        exists|ts: Seq<syntax::Transaction>|
            ts.len() == txns@.len() && (forall|i: int| 0 <= i < ts.len() ==> is_transaction_of(#[trigger] ts[i], txns@[i]))
                && r@ == transactions_text(*ctx, ts),
{
    let mut out = String::new();
    let ghost all = txns@;
    let n = txns.len();
    let mut rest = txns;
    let ghost mut done: Seq<syntax::Transaction> = Seq::empty();
    let mut i: usize = 0;
    assert(out@ =~= transactions_text(*ctx, done));
    while rest.len() > 0
        invariant
            all.len() == n,
            i + rest@.len() == all.len(),
            rest@ == all.subrange(i as int, all.len() as int),
            done.len() == i,
            forall|k: int| 0 <= k < i ==> is_transaction_of(#[trigger] done[k], all[k]),
            out@ == transactions_text(*ctx, done),
        decreases rest@.len(),
    {
        let d = rest.remove(0);
        assert(d == all[i as int]);
        let t = transaction_from(d);
        let text = ctx.display_transaction(&t);
        push_str(&mut out, text.as_str());
        push_str(&mut out, "\n");
        proof {
            let before = done;
            done = done.push(t);
            assert(done.drop_last() =~= before);
        }
        i = i + 1;
        assert(rest@ =~= all.subrange(i as int, all.len() as int));
    }
    out
}

} // verus!
