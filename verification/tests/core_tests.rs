use pandata::build_pandata;
use pandata::parse_format;
use pandata::AnyFormat;
use pandata::Args;
use pandata::ConvError;
use pandata::CsvFormat;
use pandata::Format;
use pandata::FormatOptions;
use pandata::JsonFormat;
use pandata::Pandata;
use pandata::ParquetFormat;
use pandata::Side;
use polars::prelude::Column;
use polars::prelude::DataFrame;
use polars::prelude::IntoLazy;
use polars::prelude::NamedFrom;
use polars::prelude::Series;

// ---------------------------------------------------------------------------
// Argument bag accessors
// ---------------------------------------------------------------------------

#[test]
fn args_list_keeps_insertion_order_per_key() {
    let mut args = Args::new();
    args.add("k", "a");
    args.add("other", "x");
    args.add("k", "b");
    let list = args.list("k").expect("list");
    assert_eq!(list.len(), 2);
    assert_eq!(list[0], "a");
    assert_eq!(list[1], "b");
    assert!(args.list("missing").is_none());
}

#[test]
fn args_string_returns_first_value() {
    let mut args = Args::new();
    args.add("k", "first");
    args.add("k", "second");
    assert_eq!(args.string("k"), Some("first".to_string()));
    assert_eq!(args.string("missing"), None);
}

#[test]
fn args_long_parses_base_ten() {
    let mut args = Args::new();
    args.add("a", "42");
    args.add("b", "-7");
    args.add("c", "+8");
    assert_eq!(args.long("a"), Some(42));
    assert_eq!(args.long("b"), Some(-7));
    assert_eq!(args.long("c"), Some(8));
    assert_eq!(args.long("missing"), None);
}

#[test]
fn args_long_treats_malformed_as_absent() {
    let mut args = Args::new();
    args.add("trailing", "12x");
    args.add("empty", "");
    args.add("sign_only", "-");
    args.add("spaced", " 3");
    assert_eq!(args.long("trailing"), None);
    assert_eq!(args.long("empty"), None);
    assert_eq!(args.long("sign_only"), None);
    assert_eq!(args.long("spaced"), None);
}

#[test]
fn args_long_handles_extremes() {
    let mut args = Args::new();
    args.add("max", "9223372036854775807");
    args.add("min", "-9223372036854775808");
    args.add("over", "9223372036854775808");
    args.add("under", "-9223372036854775809");
    assert_eq!(args.long("max"), Some(i64::MAX));
    assert_eq!(args.long("min"), Some(i64::MIN));
    assert_eq!(args.long("over"), None);
    assert_eq!(args.long("under"), None);
}

#[test]
fn args_char_returns_first_byte() {
    let mut args = Args::new();
    args.add("semi", ";");
    args.add("word", "abc");
    args.add("empty", "");
    args.add("accent", "édi");
    assert_eq!(args.char("semi"), Some(b';'));
    assert_eq!(args.char("word"), Some(b'a'));
    assert_eq!(args.char("empty"), None);
    assert_eq!(args.char("accent"), Some(0xC3));
    assert_eq!(args.char("missing"), None);
}

// ---------------------------------------------------------------------------
// Option descriptor
// ---------------------------------------------------------------------------

#[test]
fn options_collapse_duplicates() {
    let opts = FormatOptions::from_keys(&["separator", "quote-char", "separator"]);
    assert!(opts.contains("separator"));
    assert!(opts.contains("quote-char"));
    assert!(!opts.contains("other"));
    assert_eq!(opts.keys().len(), 2);
}

#[test]
fn options_empty_descriptor() {
    let opts = FormatOptions::new();
    assert!(!opts.contains("separator"));
    assert_eq!(opts.keys().len(), 0);
}

#[test]
fn formats_declare_their_keys() {
    let csv = CsvFormat::new();
    let declared = csv.read_options();
    assert!(declared.contains("separator"));
    assert!(declared.contains("quote-char"));
    let json = JsonFormat::new();
    assert_eq!(json.read_options().keys().len(), 0);
    let parquet = ParquetFormat::new();
    assert_eq!(parquet.read_options().keys().len(), 0);
}

#[test]
fn formats_report_canonical_names() {
    assert_eq!(CsvFormat::new().canonical_name(), "csv");
    assert_eq!(JsonFormat::new().canonical_name(), "json");
    assert_eq!(ParquetFormat::new().canonical_name(), "parquet");
}

// ---------------------------------------------------------------------------
// Resolver precedence
// ---------------------------------------------------------------------------

#[test]
fn resolver_explicit_wins_over_extension() {
    assert_eq!(
        parse_format(Some("json".to_string()), "data.csv"),
        Some("json".to_string())
    );
}

#[test]
fn resolver_takes_extension_as_written() {
    assert_eq!(parse_format(None, "data.csv"), Some("csv".to_string()));
    assert_eq!(parse_format(None, "data.CSV"), Some("CSV".to_string()));
    assert_eq!(parse_format(None, "dir/archive.tar.gz"), Some("gz".to_string()));
}

#[test]
fn resolver_absent_without_extension() {
    assert_eq!(parse_format(None, "data"), None);
    assert_eq!(parse_format(None, ".bashrc"), None);
    assert_eq!(parse_format(None, "some.dir/file"), None);
}

// ---------------------------------------------------------------------------
// Conversion error reporting
// ---------------------------------------------------------------------------

fn small_frame() -> DataFrame {
    let values = Series::new("v".into(), &[Some(1_i64), Some(2)]);
    DataFrame::new(vec![Column::from(values)]).expect("frame")
}

#[test]
fn unknown_destination_rejected_before_any_write() {
    let input = "/tmp/pandata_unknown_dest_input.csv";
    let output = "/tmp/pandata_unknown_dest_output.xyz";
    let csv = CsvFormat::new();
    csv.write(input, &Args::new(), small_frame().lazy())
        .map_err(|e| e.message)
        .expect("write input");

    let pandata = build_pandata();
    let r = pandata.convert(input, output, "csv", "doesnotexist");
    match r {
        Err(ConvError::UnknownFormat(Side::Destination, name)) => {
            assert_eq!(name, "doesnotexist");
        }
        _ => panic!("expected an unknown-format error for the destination"),
    }
    // The destination file was never created: reading it fails.
    assert!(csv.read(output, &Args::new()).is_err());
}

#[test]
fn unknown_source_rejected_before_any_read() {
    let input = "/tmp/pandata_unknown_src_input.csv";
    let output = "/tmp/pandata_unknown_src_output.csv";
    let csv = CsvFormat::new();
    csv.write(input, &Args::new(), small_frame().lazy())
        .map_err(|e| e.message)
        .expect("write input");

    let pandata = build_pandata();
    let r = pandata.convert(input, output, "doesnotexist", "csv");
    match r {
        Err(ConvError::UnknownFormat(Side::Source, name)) => {
            assert_eq!(name, "doesnotexist");
        }
        _ => panic!("expected an unknown-format error for the source"),
    }
    assert!(csv.read(output, &Args::new()).is_err());
}

#[test]
fn describe_names_the_failing_side() {
    let source = ConvError::UnknownFormat(Side::Source, "xml".to_string());
    assert_eq!(source.describe(), "no reader for format: xml");
    let dest = ConvError::UnknownFormat(Side::Destination, "xml".to_string());
    assert_eq!(dest.describe(), "no writer for format: xml");
}

// ---------------------------------------------------------------------------
// Delimiter and quote overrides
// ---------------------------------------------------------------------------

#[test]
fn separator_override_round_trips_embedded_commas() {
    let path = "/tmp/pandata_sep_override.csv";
    let field = Series::new(
        "field".into(),
        &[Some("comma, inside"), Some("plain"), Some("a;b")],
    );
    let df = DataFrame::new(vec![Column::from(field)]).expect("frame");

    let mut args = Args::new();
    args.add("separator", ";");

    let csv = CsvFormat::new();
    csv.write(path, &args, df.clone().lazy())
        .map_err(|e| e.message)
        .expect("write");
    let back = csv
        .read(path, &args)
        .map_err(|e| e.message)
        .expect("read")
        .collect()
        .expect("collect");

    assert!(df.equals_missing(&back));
}

#[test]
fn default_quoting_round_trips_embedded_commas() {
    let path = "/tmp/pandata_default_quote.csv";
    let field = Series::new("field".into(), &[Some("comma, inside"), Some("plain")]);
    let df = DataFrame::new(vec![Column::from(field)]).expect("frame");

    let csv = CsvFormat::new();
    csv.write(path, &Args::new(), df.clone().lazy())
        .map_err(|e| e.message)
        .expect("write");
    let back = csv
        .read(path, &Args::new())
        .map_err(|e| e.message)
        .expect("read")
        .collect()
        .expect("collect");

    assert!(df.equals_missing(&back));
}

// ---------------------------------------------------------------------------
// Registration overwrite
// ---------------------------------------------------------------------------

#[test]
fn registering_a_name_again_keeps_the_last_entry_reachable() {
    let input = "/tmp/pandata_reregister_input.csv";
    let output = "/tmp/pandata_reregister_output.json";
    let csv = CsvFormat::new();
    csv.write(input, &Args::new(), small_frame().lazy())
        .map_err(|e| e.message)
        .expect("write input");

    let mut pandata = Pandata::new();
    pandata.add_format(AnyFormat::Csv(CsvFormat::new()));
    pandata.add_format(AnyFormat::Json(JsonFormat::new()));
    // Register the same canonical name a second time: the later entry is
    // the one every later lookup reaches.
    pandata.add_format(AnyFormat::Csv(CsvFormat::new()));
    pandata
        .convert(input, output, "csv", "json")
        .map_err(|e| e.describe())
        .expect("convert");
}

// ---------------------------------------------------------------------------
// Null handling
// ---------------------------------------------------------------------------

#[test]
fn csv_empty_field_stays_null_through_parquet() {
    let input = "/tmp/pandata_null_input.csv";
    let output = "/tmp/pandata_null_output.parquet";
    let strings = Series::new("s".into(), &[Some("x"), None, Some("y")]);
    let ints = Series::new("n".into(), &[Some(1_i64), Some(2), Some(3)]);
    let df = DataFrame::new(vec![Column::from(strings), Column::from(ints)]).expect("frame");

    let csv = CsvFormat::new();
    csv.write(input, &Args::new(), df.lazy())
        .map_err(|e| e.message)
        .expect("write input");

    let pandata = build_pandata();
    pandata
        .convert(input, output, "csv", "parquet")
        .map_err(|e| e.describe())
        .expect("convert");

    let back = ParquetFormat::new()
        .read(output, &Args::new())
        .map_err(|e| e.message)
        .expect("read")
        .collect()
        .expect("collect");
    let s = back.column("s").expect("column s");
    assert_eq!(s.null_count(), 1);
    let values = s.str().expect("string column");
    assert_eq!(values.get(0), Some("x"));
    assert_eq!(values.get(1), None);
    assert_eq!(values.get(2), Some("y"));
}

#[test]
fn parquet_distinguishes_null_from_empty_string() {
    let path = "/tmp/pandata_null_vs_empty.parquet";
    let strings = Series::new("s".into(), &[Some(""), None]);
    let df = DataFrame::new(vec![Column::from(strings)]).expect("frame");

    let parquet = ParquetFormat::new();
    parquet
        .write(path, &Args::new(), df.lazy())
        .map_err(|e| e.message)
        .expect("write");
    let back = parquet
        .read(path, &Args::new())
        .map_err(|e| e.message)
        .expect("read")
        .collect()
        .expect("collect");
    let s = back.column("s").expect("column s");
    assert_eq!(s.null_count(), 1);
    let values = s.str().expect("string column");
    assert_eq!(values.get(0), Some(""));
    assert_eq!(values.get(1), None);
}
