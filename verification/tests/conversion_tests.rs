use pandata::build_pandata;
use pandata::AnyFormat;
use pandata::Args;
use pandata::AvroFormat;
use pandata::CsvFormat;
use pandata::Format;
use pandata::JsonFormat;
use pandata::ParquetFormat;
use pandata::TsvFormat;
use polars::prelude::Column;
use polars::prelude::DataFrame;
use polars::prelude::DataType;
use polars::prelude::IntoLazy;
use polars::prelude::NamedFrom;
use polars::prelude::Series;

#[derive(Clone, Copy)]
enum FormatKind {
    Csv,
    Json,
    Parquet,
    Tsv,
    Avro,
}

impl FormatKind {
    fn name(self) -> &'static str {
        match self {
            FormatKind::Csv => "csv",
            FormatKind::Json => "json",
            FormatKind::Parquet => "parquet",
            FormatKind::Tsv => "tsv",
            FormatKind::Avro => "avro",
        }
    }

    fn extension(self) -> &'static str {
        self.name()
    }
}

fn sample_dataframe() -> DataFrame {
    let int_col = Series::new("int_col".into(), &[Some(1_i64), None, Some(-7), Some(42)]);
    let float_col = Series::new(
        "float_col".into(),
        &[Some(1.25_f64), Some(-2.5), None, Some(3.0)],
    );
    let bool_col = Series::new(
        "bool_col".into(),
        &[Some(true), Some(false), None, Some(true)],
    );
    let string_col = Series::new(
        "string_col".into(),
        &[
            Some("plain"),
            Some("comma, value"),
            Some("quote \"here\""),
            Some("utf8 café"),
        ],
    );
    let date_str = Series::new(
        "date_str".into(),
        &[
            Some("2024-01-02"),
            Some("1999-12-31"),
            None,
            Some("2020-02-29"),
        ],
    );
    let timestamp_str = Series::new(
        "timestamp_str".into(),
        &[
            Some("2024-01-02T03:04:05Z"),
            None,
            Some("1999-12-31T23:59:59Z"),
            Some("2020-02-29T12:00:00Z"),
        ],
    );

    DataFrame::new(vec![
        Column::from(int_col),
        Column::from(float_col),
        Column::from(bool_col),
        Column::from(string_col),
        Column::from(date_str),
        Column::from(timestamp_str),
    ])
    .expect("sample frame")
}

fn format_for(kind: FormatKind) -> AnyFormat {
    match kind {
        FormatKind::Csv => AnyFormat::Csv(CsvFormat::new()),
        FormatKind::Json => AnyFormat::Json(JsonFormat::new()),
        FormatKind::Parquet => AnyFormat::Parquet(ParquetFormat::new()),
        FormatKind::Tsv => AnyFormat::Tsv(TsvFormat::new()),
        FormatKind::Avro => AnyFormat::Avro(AvroFormat::new()),
    }
}

fn read_frame(kind: FormatKind, path: &str) -> DataFrame {
    let format = format_for(kind);
    let lf = format
        .read(path, &Args::new())
        .map_err(|e| e.message)
        .expect("read");
    lf.collect().expect("collect")
}

fn write_frame(kind: FormatKind, path: &str, df: &DataFrame) {
    let format = format_for(kind);
    format
        .write(path, &Args::new(), df.clone().lazy())
        .map_err(|e| e.message)
        .expect("write");
}

fn assert_frames_equal(expected: &DataFrame, actual: &DataFrame) {
    assert_eq!(expected.shape(), actual.shape());
    assert_eq!(expected.get_column_names(), actual.get_column_names());

    for (expected_col, actual_col) in expected.get_columns().iter().zip(actual.get_columns()) {
        assert_eq!(expected_col.name(), actual_col.name());

        let expected_dtype = expected_col.dtype();
        let actual_dtype = actual_col.dtype();

        if expected_dtype == actual_dtype {
            assert!(
                expected_col.equals_missing(actual_col),
                "column {} differs: expected {:?} actual {:?}",
                expected_col.name(),
                expected_col.as_materialized_series(),
                actual_col.as_materialized_series()
            );
            continue;
        }

        if expected_dtype.is_numeric() && actual_dtype.is_numeric() {
            let expected_series = expected_col
                .as_materialized_series()
                .cast(&DataType::Float64)
                .expect("cast");
            let actual_series = actual_col
                .as_materialized_series()
                .cast(&DataType::Float64)
                .expect("cast");
            assert!(
                expected_series.equals_missing(&actual_series),
                "column {} differs",
                expected_col.name()
            );
            continue;
        }

        assert_eq!(expected_dtype, actual_dtype);
    }
}

fn assert_conversion(from: FormatKind, to: FormatKind) {
    let input_path = format!(
        "/tmp/pandata_conv_{}_{}_input.{}",
        from.name(),
        to.name(),
        from.extension()
    );
    let output_path = format!(
        "/tmp/pandata_conv_{}_{}_output.{}",
        from.name(),
        to.name(),
        to.extension()
    );

    let df = sample_dataframe();
    write_frame(from, &input_path, &df);

    let expected = read_frame(from, &input_path);

    let pandata = build_pandata();
    pandata
        .convert(&input_path, &output_path, from.name(), to.name())
        .map_err(|e| e.describe())
        .expect("convert");

    let actual = read_frame(to, &output_path);
    assert_frames_equal(&expected, &actual);
}

#[test]
fn converts_csv_to_json() {
    assert_conversion(FormatKind::Csv, FormatKind::Json)
}

#[test]
fn converts_csv_to_parquet() {
    assert_conversion(FormatKind::Csv, FormatKind::Parquet)
}

#[test]
fn converts_json_to_csv() {
    assert_conversion(FormatKind::Json, FormatKind::Csv)
}

#[test]
fn converts_json_to_parquet() {
    assert_conversion(FormatKind::Json, FormatKind::Parquet)
}

#[test]
fn converts_parquet_to_csv() {
    assert_conversion(FormatKind::Parquet, FormatKind::Csv)
}

#[test]
fn converts_parquet_to_json() {
    assert_conversion(FormatKind::Parquet, FormatKind::Json)
}

#[test]
fn converts_csv_to_tsv() {
    assert_conversion(FormatKind::Csv, FormatKind::Tsv)
}

#[test]
fn converts_tsv_to_csv() {
    assert_conversion(FormatKind::Tsv, FormatKind::Csv)
}

#[test]
fn converts_csv_to_avro() {
    assert_conversion(FormatKind::Csv, FormatKind::Avro)
}

#[test]
fn converts_avro_to_json() {
    assert_conversion(FormatKind::Avro, FormatKind::Json)
}
