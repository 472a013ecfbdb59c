use vstd::prelude::*;

use crate::args::Args;
use crate::avro::AvroFormat;
use crate::csv::CsvFormat;
use crate::error::ConvError;
use crate::error::Side;
use crate::format::Format;
use crate::json::JsonFormat;
use crate::parquet::ParquetFormat;
use crate::tsv::TsvFormat;
use polars::prelude::LazyFrame;

verus! {

/// One registered format implementation: the closed set of encodings this
/// library ships. The registry stores these; each delegates the capability
/// operations to the concrete format inside.
pub enum AnyFormat {
    Csv(CsvFormat),
    Tsv(TsvFormat),
    Json(JsonFormat),
    Parquet(ParquetFormat),
    Avro(AvroFormat),
}

impl Format for AnyFormat {
    open spec fn spec_name(&self) -> Seq<char> {
        match self {
            AnyFormat::Csv(f) => f.spec_name(),
            AnyFormat::Tsv(f) => f.spec_name(),
            AnyFormat::Json(f) => f.spec_name(),
            AnyFormat::Parquet(f) => f.spec_name(),
            AnyFormat::Avro(f) => f.spec_name(),
        }
    }

    open spec fn spec_options(&self) -> Set<Seq<char>> {
        match self {
            AnyFormat::Csv(f) => f.spec_options(),
            AnyFormat::Tsv(f) => f.spec_options(),
            AnyFormat::Json(f) => f.spec_options(),
            AnyFormat::Parquet(f) => f.spec_options(),
            AnyFormat::Avro(f) => f.spec_options(),
        }
    }

    fn canonical_name(&self) -> (r: String) {
        match self {
            AnyFormat::Csv(f) => f.canonical_name(),
            AnyFormat::Tsv(f) => f.canonical_name(),
            AnyFormat::Json(f) => f.canonical_name(),
            AnyFormat::Parquet(f) => f.canonical_name(),
            AnyFormat::Avro(f) => f.canonical_name(),
        }
    }

    fn read_options(&self) -> (r: crate::options::FormatOptions) {
        match self {
            AnyFormat::Csv(f) => f.read_options(),
            AnyFormat::Tsv(f) => f.read_options(),
            AnyFormat::Json(f) => f.read_options(),
            AnyFormat::Parquet(f) => f.read_options(),
            AnyFormat::Avro(f) => f.read_options(),
        }
    }

    fn read(&self, path: &str, args: &Args) -> Result<LazyFrame, crate::error::ReadError> {
        match self {
            AnyFormat::Csv(f) => f.read(path, args),
            AnyFormat::Tsv(f) => f.read(path, args),
            AnyFormat::Json(f) => f.read(path, args),
            AnyFormat::Parquet(f) => f.read(path, args),
            AnyFormat::Avro(f) => f.read(path, args),
        }
    }

    fn write(&self, path: &str, args: &Args, data: LazyFrame) -> Result<
        (),
        crate::error::WriteError,
    > {
        match self {
            AnyFormat::Csv(f) => f.write(path, args, data),
            AnyFormat::Tsv(f) => f.write(path, args, data),
            AnyFormat::Json(f) => f.write(path, args, data),
            AnyFormat::Parquet(f) => f.write(path, args, data),
            AnyFormat::Avro(f) => f.write(path, args, data),
        }
    }
}

/// The registered format reachable under `name`, later registrations
/// shadowing earlier ones.
spec fn lookup_format(s: Seq<AnyFormat>, name: Seq<char>) -> Option<AnyFormat>
    decreases s.len(),
{
    if s.len() == 0 {
        None
    } else if s.last().spec_name() == name {
        Some(s.last())
    } else {
        lookup_format(s.drop_last(), name)
    }
}

proof fn lemma_lookup_absent(s: Seq<AnyFormat>, name: Seq<char>)
    requires
        forall|j: int| 0 <= j < s.len() ==> (#[trigger] s[j]).spec_name() != name,
    ensures
        lookup_format(s, name) is None,
    decreases s.len(),
{
    if s.len() > 0 {
        lemma_lookup_absent(s.drop_last(), name);
    }
}

proof fn lemma_lookup_at(s: Seq<AnyFormat>, name: Seq<char>, i: int)
    requires
        0 <= i < s.len(),
        s[i].spec_name() == name,
        forall|j: int| i < j < s.len() ==> (#[trigger] s[j]).spec_name() != name,
    ensures
        lookup_format(s, name) == Some(s[i]),
    decreases s.len(),
{
    if i < s.len() - 1 {
        lemma_lookup_at(s.drop_last(), name, i);
    }
}

/// What one registration does to a registry, stated over its lookup model:
/// the format becomes reachable under its canonical name, and every other
/// name resolves as before.
pub open spec fn spec_registered(before: Pandata, format: AnyFormat, after: Pandata) -> bool {
    forall|n: Seq<char>|
        #[trigger] after.spec_lookup(n) == if n == format.spec_name() {
            Some(format)
        } else {
            before.spec_lookup(n)
        }
}

/// The format registry and conversion orchestrator: maps each canonical
/// format name to the last implementation registered under it, and runs a
/// one-shot conversion by resolving both ends and threading the shared lazy
/// tabular value from the source format's read to the destination format's
/// write.
pub struct Pandata {
    formats: Vec<AnyFormat>,
}

impl Pandata {
    /// The format registered under `name`, if any; the model every contract
    /// of this registry speaks of.
    pub closed spec fn spec_lookup(&self, name: Seq<char>) -> Option<AnyFormat> {
        lookup_format(self.formats@, name)
    }

    /// An empty registry: no name resolves.
    pub fn new() -> (r: Pandata)
        ensures
            forall|n: Seq<char>| #[trigger] r.spec_lookup(n) is None,
    {
        Pandata { formats: Vec::new() }
    }

    /// Registers `format` under its canonical name, silently replacing
    /// whatever was registered there before: the last registration wins.
    pub fn add_format(&mut self, format: AnyFormat)
        ensures
            spec_registered(*old(self), format, *final(self)),
    {
        self.formats.push(format);
        proof {
            assert(self.formats@.drop_last() =~= old(self).formats@);
            assert(self.formats@.last() == format);
        }
    }

    /// Looks `name` up in the registry.
    fn find(&self, name: &String) -> (r: Option<&AnyFormat>)
        ensures
            match r {
                Some(f) => self.spec_lookup(name@) == Some(*f),
                None => self.spec_lookup(name@) is None,
            },
    {
        let n = self.formats.len();
        let mut i: usize = n;
        while i > 0
            invariant
                i <= n,
                n == self.formats@.len(),
                forall|j: int|
                    i <= j < n ==> (#[trigger] self.formats@[j]).spec_name() != name@,
            decreases i,
        {
            i = i - 1;
            let candidate = self.formats[i].canonical_name();
            if candidate.eq(name) {
                proof {
                    lemma_lookup_at(self.formats@, name@, i as int);
                }
                return Some(&self.formats[i]);
            }
        }
        proof {
            lemma_lookup_absent(self.formats@, name@);
        }
        None
    }

    /// Converts the file at `from_path` into the file at `to_path`: resolves
    /// both format names first and fails with an unknown-format error naming
    /// the offending side before any file is touched; then the source
    /// format's read produces the lazy table and the destination format's
    /// write consumes it, each with a fresh empty argument bag, either
    /// call's error propagating unchanged.
    pub fn convert(&self, from_path: &str, to_path: &str, from_format: &str, to_format: &str)
        -> (r: Result<(), ConvError>)
        ensures
            match r {
                Ok(()) => self.spec_lookup(from_format@) is Some && self.spec_lookup(
                    to_format@,
                ) is Some,
                Err(e) => match e {
                    ConvError::UnknownFormat(Side::Source, n) => self.spec_lookup(
                        from_format@,
                    ) is None && n@ == from_format@,
                    ConvError::UnknownFormat(Side::Destination, n) => self.spec_lookup(
                        from_format@,
                    ) is Some && self.spec_lookup(to_format@) is None && n@ == to_format@,
                    ConvError::Read(_) => self.spec_lookup(from_format@) is Some
                        && self.spec_lookup(to_format@) is Some,
                    ConvError::Write(_) => self.spec_lookup(from_format@) is Some
                        && self.spec_lookup(to_format@) is Some,
                },
            },
    {
        let from_name = from_format.to_owned();
        let to_name = to_format.to_owned();
        let reader = match self.find(&from_name) {
            Some(f) => f,
            None => {
                return Err(ConvError::UnknownFormat(Side::Source, from_name));
            },
        };
        let writer = match self.find(&to_name) {
            Some(f) => f,
            None => {
                return Err(ConvError::UnknownFormat(Side::Destination, to_name));
            },
        };
        let lf = match reader.read(from_path, &Args::new()) {
            Ok(lf) => lf,
            Err(e) => {
                return Err(ConvError::Read(e));
            },
        };
        match writer.write(to_path, &Args::new(), lf) {
            Ok(()) => Ok(()),
            Err(e) => Err(ConvError::Write(e)),
        }
    }
}

/// Law: the last registration wins. After registering `f` and then `g`
/// under one canonical name, only `g` is reachable under that name, and
/// every other name resolves exactly as it did before `g` arrived.
pub proof fn lemma_last_registration_wins(
    p0: Pandata,
    p1: Pandata,
    p2: Pandata,
    f: AnyFormat,
    g: AnyFormat,
)
    requires
        f.spec_name() == g.spec_name(),
        spec_registered(p0, f, p1),
        spec_registered(p1, g, p2),
    ensures
        p2.spec_lookup(g.spec_name()) == Some(g),
        forall|n: Seq<char>|
            n != g.spec_name() ==> #[trigger] p2.spec_lookup(n) == p0.spec_lookup(n),
{
}

} // verus!
