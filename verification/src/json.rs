use vstd::prelude::*;
use vstd::string::StringExecFns;

use crate::args::Args;
use crate::engine::engine_error_message;
use crate::engine::json_lines_scan;
use crate::engine::json_lines_sink;
use crate::error::ReadError;
use crate::error::WriteError;
use crate::format::Format;
use crate::options::FormatOptions;
use polars::prelude::LazyFrame;

verus! {

/// The line-delimited structured-record format: one self-contained record
/// per line; no configurable keys in this minimal variant.
pub struct JsonFormat;

impl JsonFormat {
    pub fn new() -> (r: JsonFormat)
        ensures
            r == (JsonFormat {  }),
    {
        JsonFormat {  }
    }
}

impl Format for JsonFormat {
    open spec fn spec_name(&self) -> Seq<char> {
        "json"@
    }

    open spec fn spec_options(&self) -> Set<Seq<char>> {
        Set::empty()
    }

    fn canonical_name(&self) -> (r: String) {
        String::from_str("json")
    }

    fn read_options(&self) -> (r: FormatOptions) {
        let r = FormatOptions::new();
        proof {
            assert(r.spec_keys() =~= self.spec_options());
        }
        r
    }

    fn read(&self, path: &str, _args: &Args) -> Result<LazyFrame, ReadError> {
        match json_lines_scan(path) {
            Ok(lf) => Ok(lf),
            Err(e) => Err(ReadError { message: engine_error_message(&e) }),
        }
    }

    fn write(&self, path: &str, _args: &Args, data: LazyFrame) -> Result<(), WriteError> {
        match json_lines_sink(data, path, true) {
            Ok(()) => Ok(()),
            Err(e) => Err(WriteError { message: engine_error_message(&e) }),
        }
    }
}

} // verus!
