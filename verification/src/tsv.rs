use vstd::prelude::*;
use vstd::string::StringExecFns;

use crate::args::Args;
use crate::engine::csv_scan;
use crate::engine::csv_sink;
use crate::engine::engine_error_message;
use crate::error::ReadError;
use crate::error::WriteError;
use crate::format::Format;
use crate::format::delimited_settings;
use crate::options::FormatOptions;
use polars::prelude::LazyFrame;

verus! {

/// The tab-delimited text format: fields separated by a tab unless
/// overridden, quoted with the engine's default quoting unless overridden.
pub struct TsvFormat;

impl TsvFormat {
    pub fn new() -> (r: TsvFormat)
        ensures
            r == (TsvFormat {  }),
    {
        TsvFormat {  }
    }
}

impl Format for TsvFormat {
    open spec fn spec_name(&self) -> Seq<char> {
        "tsv"@
    }

    open spec fn spec_options(&self) -> Set<Seq<char>> {
        set!["separator"@, "quote-char"@]
    }

    fn canonical_name(&self) -> (r: String) {
        String::from_str("tsv")
    }

    fn read_options(&self) -> (r: FormatOptions) {
        let mut ks: Vec<&str> = Vec::new();
        ks.push("separator");
        ks.push("quote-char");
        let r = FormatOptions::from_keys(ks.as_slice());
        proof {
            assert(ks@[0]@ == "separator"@);
            assert(ks@[1]@ == "quote-char"@);
            assert(r.spec_keys().contains("separator"@));
            assert(r.spec_keys().contains("quote-char"@));
            assert forall|k: Seq<char>| #[trigger] r.spec_keys().contains(k)
                implies self.spec_options().contains(k) by {
                let i = choose|i: int| 0 <= i < ks@.len() && #[trigger] ks@[i]@ == k;
                assert(i == 0 || i == 1);
            }
            assert(r.spec_keys() =~= self.spec_options());
        }
        r
    }

    fn read(&self, path: &str, args: &Args) -> Result<LazyFrame, ReadError> {
        let settings = delimited_settings(args, 9u8);
        match csv_scan(path, settings.0, settings.1) {
            Ok(lf) => Ok(lf),
            Err(e) => Err(ReadError { message: engine_error_message(&e) }),
        }
    }

    fn write(&self, path: &str, args: &Args, data: LazyFrame) -> Result<(), WriteError> {
        let settings = delimited_settings(args, 9u8);
        match csv_sink(data, path, settings.0, settings.1, true) {
            Ok(()) => Ok(()),
            Err(e) => Err(WriteError { message: engine_error_message(&e) }),
        }
    }
}

} // verus!
