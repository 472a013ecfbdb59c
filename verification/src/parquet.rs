use vstd::prelude::*;
use vstd::string::StringExecFns;

use crate::args::Args;
use crate::engine::engine_error_message;
use crate::engine::parquet_scan;
use crate::engine::parquet_sink;
use crate::error::ReadError;
use crate::error::WriteError;
use crate::format::Format;
use crate::options::FormatOptions;
use polars::prelude::LazyFrame;

verus! {

/// The binary columnar format: read and write go straight through the
/// engine's native scan and sink; no configurable keys.
pub struct ParquetFormat;

impl ParquetFormat {
    pub fn new() -> (r: ParquetFormat)
        ensures
            r == (ParquetFormat {  }),
    {
        ParquetFormat {  }
    }
}

impl Format for ParquetFormat {
    open spec fn spec_name(&self) -> Seq<char> {
        "parquet"@
    }

    open spec fn spec_options(&self) -> Set<Seq<char>> {
        Set::empty()
    }

    fn canonical_name(&self) -> (r: String) {
        String::from_str("parquet")
    }

    fn read_options(&self) -> (r: FormatOptions) {
        let r = FormatOptions::new();
        proof {
            assert(r.spec_keys() =~= self.spec_options());
        }
        r
    }

    fn read(&self, path: &str, _args: &Args) -> Result<LazyFrame, ReadError> {
        match parquet_scan(path) {
            Ok(lf) => Ok(lf),
            Err(e) => Err(ReadError { message: engine_error_message(&e) }),
        }
    }

    fn write(&self, path: &str, _args: &Args, data: LazyFrame) -> Result<(), WriteError> {
        match parquet_sink(data, path) {
            Ok(()) => Ok(()),
            Err(e) => Err(WriteError { message: engine_error_message(&e) }),
        }
    }
}

} // verus!
