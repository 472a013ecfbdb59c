//! The boundary to the columnar data-processing engine. Every byte-level
//! codec (delimited text, line-delimited records, binary columnar storage)
//! is the engine's own; this module only hands plain argument values to it
//! and carries its lazy table value and its errors back. Each function here
//! is trusted: its body is the engine call, nothing else.

use vstd::prelude::*;

use polars::io::SerReader;
use polars::io::SerWriter;
use polars::io::avro::AvroReader;
use polars::io::avro::AvroWriter;
use polars::prelude::CsvParseOptions;
use polars::prelude::CsvReadOptions;
use polars::prelude::CsvWriterOptions;
use polars::prelude::IntoLazy;
use polars::prelude::JsonReader;
use polars::prelude::JsonWriterOptions;
use polars::prelude::LazyFrame;
use polars::prelude::ParquetWriteOptions;
use polars::prelude::PolarsError;
use polars::prelude::ScanArgsParquet;

verus! {

/// The engine's lazy, columnar, typed table value: the shared intermediate
/// representation every read produces and every write consumes. Opaque to
/// the conversion core, which only routes it from a reader to a writer.
#[verifier::external_type_specification]
#[verifier::external_body]
pub struct ExLazyFrame(LazyFrame);

/// The engine's error value, carried verbatim back to the caller.
#[verifier::external_type_specification]
#[verifier::external_body]
pub struct ExPolarsError(PolarsError);

/// Relies on PolarsError's Display implementation: the engine's own
/// description of what went wrong, verbatim.
#[verifier::external_body]
pub(crate) fn engine_error_message(e: &PolarsError) -> String {
    e.to_string()
}

/// Relies on polars' CsvReadOptions::try_into_reader_with_file_path and
/// CsvReader::finish: parses the delimited-text file at `path` with the
/// given field separator, and quote character where one is supplied,
/// into a lazy table. Whether this returns a table or an error depends on
/// what is on disk at `path`.
#[verifier::external_body]
pub(crate) fn csv_scan(path: &str, separator: u8, quote_char: Option<u8>) -> Result<
    LazyFrame,
    PolarsError,
> {
    let mut parse = CsvParseOptions::default().with_separator(separator);
    if let Some(q) = quote_char {
        parse = parse.with_quote_char(Some(q));
    }
    let df = CsvReadOptions::default().with_parse_options(parse).try_into_reader_with_file_path(
        Some(std::path::PathBuf::from(path)),
    )?.finish()?;
    Ok(df.lazy())
}

/// Relies on polars' LazyFrame::sink_csv: forces the lazy table and
/// serializes it to delimited text at `path` with the given separator,
/// quote character where one is supplied, and row order kept exactly when
/// `maintain_order` is set.
#[verifier::external_body]
pub(crate) fn csv_sink(
    frame: LazyFrame,
    path: &str,
    separator: u8,
    quote_char: Option<u8>,
    maintain_order: bool,
) -> Result<(), PolarsError> {
    let mut options = CsvWriterOptions::default();
    options.maintain_order = maintain_order;
    options.serialize_options.separator = separator;
    if let Some(q) = quote_char {
        options.serialize_options.quote_char = q;
    }
    frame.sink_csv(path, options)
}

/// Relies on polars_utils' open_file and polars' JsonReader with the
/// line-delimited record format: parses one self-contained record per line
/// from the file at `path` into a lazy table.
#[verifier::external_body]
pub(crate) fn json_lines_scan(path: &str) -> Result<LazyFrame, PolarsError> {
    let file = polars_utils::io::open_file(std::path::Path::new(path))?;
    let df = JsonReader::new(file).with_json_format(polars::prelude::JsonFormat::JsonLines)
        .finish()?;
    Ok(df.lazy())
}

/// Relies on polars' LazyFrame::sink_json: forces the lazy table and
/// serializes it as one record per line at `path`, with row order kept
/// exactly when `maintain_order` is set.
#[verifier::external_body]
pub(crate) fn json_lines_sink(frame: LazyFrame, path: &str, maintain_order: bool) -> Result<
    (),
    PolarsError,
> {
    let mut options = JsonWriterOptions::default();
    options.maintain_order = maintain_order;
    frame.sink_json(path, options)
}

/// Relies on polars' LazyFrame::scan_parquet with default scan arguments:
/// opens the binary columnar file at `path` as a lazy table.
#[verifier::external_body]
pub(crate) fn parquet_scan(path: &str) -> Result<LazyFrame, PolarsError> {
    LazyFrame::scan_parquet(path, ScanArgsParquet::default())
}

/// Relies on polars' LazyFrame::sink_parquet with default write options:
/// forces the lazy table and encodes it as a binary columnar file at `path`.
#[verifier::external_body]
pub(crate) fn parquet_sink(frame: LazyFrame, path: &str) -> Result<(), PolarsError> {
    frame.sink_parquet(path, ParquetWriteOptions::default())
}

/// Relies on polars_utils' open_file and polars' AvroReader: decodes the
/// schema-carrying record-columnar file at `path` into a lazy table.
#[verifier::external_body]
pub(crate) fn avro_scan(path: &str) -> Result<LazyFrame, PolarsError> {
    let file = polars_utils::io::open_file(std::path::Path::new(path))?;
    let df = AvroReader::new(file).finish()?;
    Ok(df.lazy())
}

/// Relies on polars_utils' create_file and polars' AvroWriter: collects the
/// lazy table, consolidates it into one contiguous chunk as the codec
/// requires, and encodes it at `path` under the given container name.
#[verifier::external_body]
pub(crate) fn avro_sink(frame: LazyFrame, path: &str, name: &str) -> Result<(), PolarsError> {
    let mut file = polars_utils::io::create_file(std::path::Path::new(path))?;
    let mut df = frame.collect()?;
    df.as_single_chunk_par();
    AvroWriter::new(&mut file).with_name(name.to_owned()).finish(&mut df)
}

} // verus!
