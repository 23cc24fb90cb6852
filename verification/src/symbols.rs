//! The symbol table of a binary, as plain values.

use object::{Object, ObjectSymbol};
use vstd::prelude::*;

use crate::error::{Error, Result};

verus! {

/// One entry of a symbol table.
#[derive(Debug, PartialEq)]
pub struct Symbol {
    /// The name as the table holds it, `None` where it cannot be read as text
    pub raw_name: Option<String>,
    /// Whether the symbol is visible outside its compilation unit
    pub is_global: bool,
}

/// What a [`Symbol`] stands for.
pub struct SymbolView {
    pub raw_name: Option<Seq<char>>,
    pub is_global: bool,
}

impl DeepView for Symbol {
    type V = SymbolView;

    open spec fn deep_view(&self) -> SymbolView {
        SymbolView { raw_name: self.raw_name.deep_view(), is_global: self.is_global }
    }
}

impl View for Symbol {
    type V = SymbolView;

    open spec fn view(&self) -> SymbolView {
        self.deep_view()
    }
}

/// The symbols that the object file `data` lists, in the order of its symbol
/// table, or `None` where `data` is no object file that the reader can parse.
pub uninterp spec fn object_symbols(data: Seq<u8>) -> Option<Seq<SymbolView>>;

/// Calls `object::File::parse` on `data` and walks `Object::symbols` of the
/// file, taking from each symbol `ObjectSymbol::name` (`None` where the reader
/// reports an error for it) and `ObjectSymbol::is_global`. The contract gives
/// the outcome a name, [`object_symbols`]: the same bytes always give the same
/// symbols, or always fail. A failure carries the reader's message.
#[verifier::external_body]
fn parse_symbols(data: &[u8]) -> (parsed: core::result::Result<Vec<Symbol>, String>)
    ensures
        match parsed {
            Ok(symbols) => object_symbols(data@) == Some(symbols.deep_view()),
            Err(_) => object_symbols(data@) is None,
        },
{
    let file = object::File::parse(data).map_err(|e| e.to_string())?;
    Ok(
        file.symbols().map(
            |s| Symbol { raw_name: s.name().ok().map(String::from), is_global: s.is_global() },
        ).collect(),
    )
}

/// Reads the symbol table of a binary held in memory. Nothing is filtered and
/// no name is interpreted. Bytes that are no object file give
/// [`Error::ObjectOutput`].
pub fn read_symbols(data: &[u8]) -> (read: Result<Vec<Symbol>>)
    ensures
        match read {
            Ok(symbols) => object_symbols(data@) == Some(symbols.deep_view()),
            Err(error) => object_symbols(data@) is None && error is ObjectOutput,
        },
{
    match parse_symbols(data) {
        Ok(symbols) => Ok(symbols),
        Err(words) => Err(Error::ObjectOutput(words)),
    }
}

} // verus!
