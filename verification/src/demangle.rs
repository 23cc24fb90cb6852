//! Symbol names as a reader of the source would write them.

use symbolic_common::Name;
use symbolic_demangle::{Demangle, DemangleOptions};
use vstd::prelude::*;
use vstd::string::StringExecFns;

verus! {

/// The readable form that the demangler gives for `raw`, or `None` where it
/// knows no mangling scheme for it or cannot undo the one it found.
pub uninterp spec fn demangled(raw: Seq<char>) -> Option<Seq<char>>;

/// The readable form of a symbol name: the demangled one where there is one,
/// else the name itself.
pub open spec fn normalized(raw: Seq<char>) -> Seq<char> {
    match demangled(raw) {
        Some(readable) => readable,
        None => raw,
    }
}

/// Calls `symbolic_demangle::Demangle::demangle` on a `symbolic_common::Name`
/// made from `raw` with no language or mangling given, asking for names only
/// (`DemangleOptions::name_only`). The contract gives the answer a name,
/// [`demangled`], which holds that equal names always get equal answers, and
/// claims nothing about what the answer is.
#[verifier::external_body]
fn demangle(raw: &str) -> (readable: Option<String>)
    ensures
        readable.deep_view() == demangled(raw@),
{
    Name::from(raw).demangle(DemangleOptions::name_only())
}

/// The name to match on, given what the demangler said of `raw`: its answer
/// where it gave one, else `raw` unchanged.
pub fn readable_or_raw(raw: &str, readable: Option<String>) -> (name: String)
    ensures
        name@ == match readable {
            Some(text) => text@,
            None => raw@,
        },
{
    match readable {
        Some(text) => text,
        None => String::from_str(raw),
    }
}

/// The readable form of a symbol name. A name that the demangler does not
/// take for a mangled one, or cannot demangle, comes back unchanged.
pub fn normalize(raw: &str) -> (name: String)
    ensures
        name@ == normalized(raw@),
        demangled(raw@) is None ==> name@ == raw@,
{
    let readable = demangle(raw);
    readable_or_raw(raw, readable)
}

} // verus!
