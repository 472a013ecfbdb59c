use vstd::prelude::*;

use crate::args::Args;
use crate::error::ReadError;
use crate::error::WriteError;
use crate::options::FormatOptions;
use polars::prelude::LazyFrame;

verus! {

/// The capability every pluggable encoding must satisfy: a stable canonical
/// name, the advisory set of option keys it understands, a read operation
/// from a file into the shared lazy tabular value, and a write operation
/// from that value into a file. Implementations are stateless: each call
/// opens, uses and closes its own file handle, and unrecognized argument
/// keys are ignored, never rejected.
pub trait Format {
    /// The canonical name, as a mathematical value.
    spec fn spec_name(&self) -> Seq<char>;

    /// The declared option keys, as a mathematical value.
    spec fn spec_options(&self) -> Set<Seq<char>>;

    /// The stable, lowercase name this format registers under; it doubles
    /// as the file extension the resolver maps to this format.
    fn canonical_name(&self) -> (r: String)
        ensures
            r@ == self.spec_name(),
    ;

    /// The configuration keys this format's reader and writer collectively
    /// understand; advisory only.
    fn read_options(&self) -> (r: FormatOptions)
        ensures
            r.spec_keys() == self.spec_options(),
    ;

    /// Reads the file at `path` into the shared lazy tabular value,
    /// honoring any recognized keys of `args`. Whether a table or an error
    /// comes back depends on what is on disk at `path`.
    fn read(&self, path: &str, args: &Args) -> Result<LazyFrame, ReadError>;

    /// Creates or truncates the file at `path` and serializes `data` into
    /// it, honoring any recognized keys of `args`. Forcing the deferred
    /// table happens here, so a malformed source may only surface now.
    fn write(&self, path: &str, args: &Args, data: LazyFrame) -> Result<(), WriteError>;
}

// ---------------------------------------------------------------------------
// Option negotiation shared by the delimited-text formats.
// ---------------------------------------------------------------------------

/// The effective field separator of a delimited-text call: the first byte
/// of the `separator` value when the bag carries one, else the format's
/// default byte.
pub open spec fn spec_separator(args: &Args, default: u8) -> u8 {
    match args.spec_char("separator"@) {
        Some(b) => b,
        None => default,
    }
}

/// The effective quote character override of a delimited-text call: the
/// first byte of the `quote-char` value when the bag carries one; absent
/// means the engine's default quoting.
pub open spec fn spec_quote(args: &Args) -> Option<u8> {
    args.spec_char("quote-char"@)
}

/// Reads the separator and quote overrides a delimited-text format honors
/// out of the argument bag: the `separator` override wins over the format's
/// default; quoting is overridden only when `quote-char` is present.
pub fn delimited_settings(args: &Args, default_sep: u8) -> (r: (u8, Option<u8>))
    ensures
        r.0 == spec_separator(args, default_sep),
        r.1 == spec_quote(args),
{
    let sep = match args.char("separator") {
        Some(b) => b,
        None => default_sep,
    };
    (sep, args.char("quote-char"))
}

} // verus!
