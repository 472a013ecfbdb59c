use vstd::prelude::*;
use vstd::string::StringExecFns;

use crate::args::Args;
use crate::engine::avro_scan;
use crate::engine::avro_sink;
use crate::engine::engine_error_message;
use crate::error::ReadError;
use crate::error::WriteError;
use crate::format::Format;
use crate::options::FormatOptions;
use polars::prelude::LazyFrame;

verus! {

/// The schema-carrying binary record-columnar format. Writing consolidates
/// the table into one contiguous chunk, as the codec requires, and embeds a
/// fixed logical dataset name in the container header; no configurable keys.
pub struct AvroFormat;

impl AvroFormat {
    pub fn new() -> (r: AvroFormat)
        ensures
            r == (AvroFormat {  }),
    {
        AvroFormat {  }
    }
}

impl Format for AvroFormat {
    open spec fn spec_name(&self) -> Seq<char> {
        "avro"@
    }

    open spec fn spec_options(&self) -> Set<Seq<char>> {
        Set::empty()
    }

    fn canonical_name(&self) -> (r: String) {
        String::from_str("avro")
    }

    fn read_options(&self) -> (r: FormatOptions) {
        let r = FormatOptions::new();
        proof {
            assert(r.spec_keys() =~= self.spec_options());
        }
        r
    }

    fn read(&self, path: &str, _args: &Args) -> Result<LazyFrame, ReadError> {
        match avro_scan(path) {
            Ok(lf) => Ok(lf),
            Err(e) => Err(ReadError { message: engine_error_message(&e) }),
        }
    }

    fn write(&self, path: &str, _args: &Args, data: LazyFrame) -> Result<(), WriteError> {
        match avro_sink(data, path, "pandata") {
            Ok(()) => Ok(()),
            Err(e) => Err(WriteError { message: engine_error_message(&e) }),
        }
    }
}

} // verus!
