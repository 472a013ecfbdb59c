//! Conversion of tabular data files between self-describing formats, routed
//! through one shared lazy tabular value: a registry maps canonical format
//! names to pluggable format implementations, a resolver derives a format
//! name from an explicit override or a path's extension, and an argument bag
//! carries per-call options into each implementation.

use vstd::prelude::*;
use vstd::string::StrSliceExecFns;

mod args;
mod avro;
mod csv;
mod engine;
mod error;
mod format;
mod json;
mod options;
mod pandata;
mod parquet;
mod tsv;

pub use args::Args;
pub use avro::AvroFormat;
pub use csv::CsvFormat;
pub use error::ConvError;
pub use error::ReadError;
pub use error::Side;
pub use error::WriteError;
pub use format::Format;
pub use json::JsonFormat;
pub use options::FormatOptions;
pub use pandata::AnyFormat;
pub use pandata::Pandata;
pub use parquet::ParquetFormat;
pub use tsv::TsvFormat;

verus! {

// ---------------------------------------------------------------------------
// Format-name resolution: an explicit override wins; otherwise the name is
// the path's filename extension, taken as written, with no case change.
// ---------------------------------------------------------------------------

/// The position of the last occurrence of `c` in `s`, or -1 when absent.
pub open spec fn last_index_of(s: Seq<char>, c: char) -> int
    decreases s.len(),
{
    if s.len() == 0 {
        -1
    } else if s.last() == c {
        s.len() - 1
    } else {
        last_index_of(s.drop_last(), c)
    }
}

/// The filename component of a path: everything after the last `/`.
pub open spec fn spec_file_name(p: Seq<char>) -> Seq<char> {
    p.subrange(last_index_of(p, '/') + 1, p.len() as int)
}

/// The extension of a path: what follows the last `.` of its filename.
/// Absent when the filename holds no `.`, or only starts with one.
pub open spec fn spec_extension(p: Seq<char>) -> Option<Seq<char>> {
    let f = spec_file_name(p);
    let d = last_index_of(f, '.');
    if d <= 0 {
        None
    } else {
        Some(f.subrange(d + 1, f.len() as int))
    }
}

/// What format name a conversion side resolves to: the explicit override
/// when one is given, unchanged and unvalidated; else the path's extension.
pub open spec fn spec_resolve(explicit: Option<Seq<char>>, p: Seq<char>) -> Option<Seq<char>> {
    match explicit {
        Some(n) => Some(n),
        None => spec_extension(p),
    }
}

/// The view of an optional owned string.
pub open spec fn option_str_view(o: Option<String>) -> Option<Seq<char>> {
    match o {
        Some(s) => Some(s@),
        None => None,
    }
}

proof fn lemma_last_index_bounds(s: Seq<char>, c: char)
    ensures
        -1 <= last_index_of(s, c) < s.len(),
    decreases s.len(),
{
    if s.len() > 0 {
        lemma_last_index_bounds(s.drop_last(), c);
    }
}

proof fn lemma_last_index_absent(s: Seq<char>, c: char)
    requires
        forall|i: int| 0 <= i < s.len() ==> s[i] != c,
    ensures
        last_index_of(s, c) == -1,
    decreases s.len(),
{
    if s.len() > 0 {
        lemma_last_index_absent(s.drop_last(), c);
    }
}

proof fn lemma_last_index_at(s: Seq<char>, c: char, i: int)
    requires
        0 <= i < s.len(),
        s[i] == c,
        forall|j: int| i < j < s.len() ==> s[j] != c,
    ensures
        last_index_of(s, c) == i,
    decreases s.len(),
{
    if i == s.len() - 1 {
    } else {
        lemma_last_index_at(s.drop_last(), c, i);
    }
}

/// The position of the last occurrence of `c` in `s`, if there is one.
fn last_occurrence(s: &str, c: char) -> (r: Option<usize>)
    ensures
        match r {
            Some(i) => last_index_of(s@, c) == i as int,
            None => last_index_of(s@, c) == -1,
        },
{
    let n = s.unicode_len();
    let mut i: usize = n;
    while i > 0
        invariant
            i <= n,
            n == s@.len(),
            forall|j: int| i <= j < n ==> s@[j] != c,
        decreases i,
    {
        i = i - 1;
        if s.get_char(i) == c {
            proof {
                lemma_last_index_at(s@, c, i as int);
            }
            return Some(i);
        }
    }
    proof {
        lemma_last_index_absent(s@, c);
    }
    None
}

/// Derives a format name from the path's filename extension.
fn parse_format_path(p: &str) -> (r: Option<String>)
    ensures
        match r {
            Some(e) => spec_extension(p@) == Some(e@),
            None => spec_extension(p@) is None,
        },
{
    let n = p.unicode_len();
    proof {
        lemma_last_index_bounds(p@, '/');
    }
    let fstart: usize = match last_occurrence(p, '/') {
        Some(i) => i + 1,
        None => 0,
    };
    let file = p.substring_char(fstart, n);
    proof {
        assert(file@ == spec_file_name(p@));
    }
    let flen = n - fstart;
    proof {
        lemma_last_index_bounds(file@, '.');
    }
    match last_occurrence(file, '.') {
        Some(d) => {
            if d > 0 {
                Some(file.substring_char(d + 1, flen).to_owned())
            } else {
                None
            }
        },
        None => None,
    }
}

/// Resolves the format name for one side of a conversion: an explicit
/// override is returned as given; otherwise the path's filename extension
/// decides; absent when neither is available.
pub fn parse_format(format: Option<String>, input_path: &str) -> (r: Option<String>)
    ensures
        match r {
            Some(s) => spec_resolve(option_str_view(format), input_path@) == Some(s@),
            None => spec_resolve(option_str_view(format), input_path@) is None,
        },
{
    match format {
        Some(f) => Some(f),
        None => parse_format_path(input_path),
    }
}

/// Builds the registry this library ships: every baseline format,
/// registered under its canonical name, and nothing else.
pub fn build_pandata() -> (r: Pandata)
    ensures
        r.spec_lookup("csv"@) == Some(AnyFormat::Csv(CsvFormat {  })),
        r.spec_lookup("json"@) == Some(AnyFormat::Json(JsonFormat {  })),
        r.spec_lookup("parquet"@) == Some(AnyFormat::Parquet(ParquetFormat {  })),
        r.spec_lookup("tsv"@) == Some(AnyFormat::Tsv(TsvFormat {  })),
        r.spec_lookup("avro"@) == Some(AnyFormat::Avro(AvroFormat {  })),
        forall|n: Seq<char>|
            !(n == "csv"@ || n == "json"@ || n == "parquet"@ || n == "tsv"@ || n == "avro"@)
                ==> #[trigger] r.spec_lookup(n) is None,
{
    proof {
        reveal_strlit("csv");
        reveal_strlit("json");
        reveal_strlit("parquet");
        reveal_strlit("tsv");
        reveal_strlit("avro");
        assert("csv"@.len() == 3 && "json"@.len() == 4 && "parquet"@.len() == 7
            && "tsv"@.len() == 3 && "avro"@.len() == 4);
        assert("csv"@[0] == 'c' && "tsv"@[0] == 't' && "json"@[0] == 'j' && "avro"@[0]
            == 'a');
        assert("csv"@ != "json"@ && "csv"@ != "parquet"@ && "csv"@ != "tsv"@ && "csv"@
            != "avro"@);
        assert("json"@ != "parquet"@ && "json"@ != "tsv"@ && "json"@ != "avro"@);
        assert("parquet"@ != "tsv"@ && "parquet"@ != "avro"@);
        assert("tsv"@ != "avro"@);
    }
    let mut pandata = Pandata::new();
    pandata.add_format(AnyFormat::Csv(CsvFormat::new()));
    pandata.add_format(AnyFormat::Json(JsonFormat::new()));
    pandata.add_format(AnyFormat::Parquet(ParquetFormat::new()));
    pandata.add_format(AnyFormat::Tsv(TsvFormat::new()));
    pandata.add_format(AnyFormat::Avro(AvroFormat::new()));
    pandata
}

/// Law: an explicit format name always wins over the path's extension,
/// whatever the path holds.
pub proof fn lemma_explicit_name_wins(name: Seq<char>, path: Seq<char>)
    ensures
        spec_resolve(Some(name), path) == Some(name),
{
}

/// Law: a path without any `.` yields no format name when no explicit one
/// is given.
pub proof fn lemma_no_extension_no_name(path: Seq<char>)
    requires
        forall|i: int| 0 <= i < path.len() ==> path[i] != '.',
    ensures
        spec_resolve(None, path) is None,
{
    let f = spec_file_name(path);
    lemma_last_index_bounds(path, '/');
    assert forall|i: int| 0 <= i < f.len() implies f[i] != '.' by {
        assert(f[i] == path[last_index_of(path, '/') + 1 + i]);
    }
    lemma_last_index_absent(f, '.');
}

} // verus!

