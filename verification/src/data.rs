//! Proxy data sources: the names of the proxies each source offers, and which
//! column of a concrete sample a proxy name reads.

use vstd::prelude::*;
use crate::text::text_equals;

verus! {

/// A column of a UCI concrete sample.
#[derive(Debug, Clone, Copy, PartialEq, Eq, Structural)]
pub enum SampleField {
    Cement,
    Slag,
    FlyAsh,
    Water,
    Superplasticizer,
    CoarseAgg,
    FineAgg,
    Age,
    Temperature,
    Humidity,
}

/// The column a proxy name denotes, for the names the correlation ranking knows.
pub open spec fn field_named(name: Seq<char>) -> Option<SampleField> {
    if name == "cement"@ { Some(SampleField::Cement) }
    else if name == "slag"@ { Some(SampleField::Slag) }
    else if name == "fly_ash"@ { Some(SampleField::FlyAsh) }
    else if name == "water"@ { Some(SampleField::Water) }
    else if name == "superplasticizer"@ { Some(SampleField::Superplasticizer) }
    else if name == "coarse_agg"@ { Some(SampleField::CoarseAgg) }
    else if name == "fine_agg"@ { Some(SampleField::FineAgg) }
    else if name == "age"@ { Some(SampleField::Age) }
    else if name == "temperature"@ { Some(SampleField::Temperature) }
    else if name == "humidity"@ { Some(SampleField::Humidity) }
    else { None }
}

/// The name of a sample column, as the dataset's proxy list writes it.
pub open spec fn column_name(f: SampleField) -> Seq<char> {
    match f {
        SampleField::Cement => "cement"@,
        SampleField::Slag => "slag"@,
        SampleField::FlyAsh => "fly_ash"@,
        SampleField::Water => "water"@,
        SampleField::Superplasticizer => "superplasticizer"@,
        SampleField::CoarseAgg => "coarse_agg"@,
        SampleField::FineAgg => "fine_agg"@,
        SampleField::Age => "age"@,
        SampleField::Temperature => "temperature"@,
        SampleField::Humidity => "humidity"@,
    }
}

/// Every column's name denotes that very column and no other name denotes it,
/// so distinct names denote distinct columns; revealing a proxy reads the
/// column its name denotes.
pub proof fn proxy_names_denote_their_columns(name: Seq<char>, f: SampleField)
    ensures
        field_named(column_name(f)) == Some(f),
        field_named(name) == Some(f) ==> name == column_name(f),
        revealed_field(name) == field_named(name),
{
    reveal_strlit("cement");
    reveal_strlit("slag");
    reveal_strlit("fly_ash");
    reveal_strlit("water");
    reveal_strlit("superplasticizer");
    reveal_strlit("coarse_agg");
    reveal_strlit("fine_agg");
    reveal_strlit("age");
    reveal_strlit("temperature");
    reveal_strlit("humidity");
    assert("cement"@.len() == 6 && "slag"@.len() == 4 && "fly_ash"@.len() == 7 && "water"@.len() == 5);
    assert("superplasticizer"@.len() == 16 && "coarse_agg"@.len() == 10 && "fine_agg"@.len() == 8);
    assert("age"@.len() == 3 && "temperature"@.len() == 11 && "humidity"@.len() == 8);
    assert("fine_agg"@[0] != "humidity"@[0]);
    assert("fine_agg"@ != "humidity"@);
}

/// The column a proxy name reads in correlation ranking; unknown names read none.
pub fn correlation_field(name: &str) -> (f: Option<SampleField>)
    ensures
        f == field_named(name@),
{
    if text_equals(name, "cement") { Some(SampleField::Cement) }
    else if text_equals(name, "slag") { Some(SampleField::Slag) }
    else if text_equals(name, "fly_ash") { Some(SampleField::FlyAsh) }
    else if text_equals(name, "water") { Some(SampleField::Water) }
    else if text_equals(name, "superplasticizer") { Some(SampleField::Superplasticizer) }
    else if text_equals(name, "coarse_agg") { Some(SampleField::CoarseAgg) }
    else if text_equals(name, "fine_agg") { Some(SampleField::FineAgg) }
    else if text_equals(name, "age") { Some(SampleField::Age) }
    else if text_equals(name, "temperature") { Some(SampleField::Temperature) }
    else if text_equals(name, "humidity") { Some(SampleField::Humidity) }
    else { None }
}

/// The column a measurement of a proxy reveals: every proxy the UCI provider
/// lists, curing temperature and humidity included, reveals its own column.
pub open spec fn revealed_field(name: Seq<char>) -> Option<SampleField> {
    field_named(name)
}

/// The column that revealing the proxy `name` reads; unknown names read none.
pub fn reveal_field(name: &str) -> (f: Option<SampleField>)
    ensures
        f == revealed_field(name@),
{
    correlation_field(name)
}

/// The proxies of the UCI dataset, in order.
pub open spec fn uci_proxy_list() -> Seq<Seq<char>> {
    seq!["cement"@, "slag"@, "fly_ash"@, "water"@, "superplasticizer"@, "coarse_agg"@,
        "fine_agg"@, "age"@, "temperature"@, "humidity"@]
}

/// The proxies of the synthetic source, in order.
pub open spec fn synthetic_proxy_list() -> Seq<Seq<char>> {
    seq!["cement"@, "water"@, "age"@, "slag"@, "superplasticizer"@]
}

/// The names of a list of strings.
pub open spec fn names_of(v: Seq<String>) -> Seq<Seq<char>> {
    v.map_values(|s: String| s@)
}

/// The proxy names the UCI dataset provider offers.
pub fn uci_proxy_names() -> (v: Vec<String>)
    ensures
        names_of(v@) == uci_proxy_list(),
{
    let v = vec![
        String::from_str("cement"),
        String::from_str("slag"),
        String::from_str("fly_ash"),
        String::from_str("water"),
        String::from_str("superplasticizer"),
        String::from_str("coarse_agg"),
        String::from_str("fine_agg"),
        String::from_str("age"),
        String::from_str("temperature"),
        String::from_str("humidity"),
    ];
    proof {
        assert(names_of(v@) =~= uci_proxy_list());
    }
    v
}

/// Every proxy the UCI provider offers names a column of the sample, and
/// revealing it reads that same column.
pub proof fn uci_proxies_name_columns(i: int)
    requires
        0 <= i < uci_proxy_list().len(),
    ensures
        field_named(uci_proxy_list()[i]) is Some,
        revealed_field(uci_proxy_list()[i]) == field_named(uci_proxy_list()[i]),
{
    reveal_strlit("cement");
    reveal_strlit("slag");
    reveal_strlit("fly_ash");
    reveal_strlit("water");
    reveal_strlit("superplasticizer");
    reveal_strlit("coarse_agg");
    reveal_strlit("fine_agg");
    reveal_strlit("age");
    reveal_strlit("temperature");
    reveal_strlit("humidity");
}

// ── Reading the UCI dataset ───────────────────────────────────────────────────

/// What a `csv` reader with a header row makes of `input`: the text fields of
/// every record after the header, or the message of the first error met.
pub uninterp spec fn csv_records_after_header(input: Seq<u8>) -> Result<Seq<Seq<Seq<char>>>, Seq<char>>;

/// The texts of a list of records.
pub open spec fn fields_view(v: Seq<Vec<String>>) -> Seq<Seq<Seq<char>>> {
    v.map_values(|r: Vec<String>| r@.map_values(|f: String| f@))
}

/// `csv::ReaderBuilder::new().has_headers(true).from_reader(input).records()`:
/// the records after the header row, each as its field texts, or the first
/// error's message. Both are exactly what the `csv` reader yields for these bytes.
#[verifier::external_body]
fn read_csv_records(input: &[u8]) -> (r: Result<Vec<Vec<String>>, String>)
    ensures
        match r {
            Ok(v) => csv_records_after_header(input@) == Ok::<Seq<Seq<Seq<char>>>, Seq<char>>(fields_view(v@)),
            Err(m) => csv_records_after_header(input@) == Err::<Seq<Seq<Seq<char>>>, Seq<char>>(m@),
        },
{
    let mut reader = csv::ReaderBuilder::new().has_headers(true).from_reader(input);
    let mut rows = Vec::new();
    for rec in reader.records() {
        match rec {
            Ok(r) => rows.push(r.iter().map(|f| f.to_string()).collect()),
            Err(e) => return Err(e.to_string()),
        }
    }
    Ok(rows)
}

/// The record column that fills the `k`-th sample text: cement, slag, fly ash,
/// water, superplasticizer, coarse and fine aggregate, age and strength come
/// from columns 0 to 8; temperature and humidity from columns 10 and 11.
pub open spec fn uci_column(k: int) -> int {
    if k < 9 { k } else { k + 1 }
}

/// The text a sample field takes when its column is missing from a record.
pub open spec fn uci_default(k: int) -> Seq<char> {
    if k < 9 { "0"@ } else if k == 9 { "20.0"@ } else { "0.5"@ }
}

/// The eleven field texts of a sample (cement, slag, fly ash, water,
/// superplasticizer, coarse aggregate, fine aggregate, age, strength,
/// temperature, humidity) taken from one record.
pub open spec fn sample_texts(record: Seq<Seq<char>>) -> Seq<Seq<char>> {
    Seq::new(11, |k: int| if uci_column(k) < record.len() { record[uci_column(k)] } else { uci_default(k) })
}

/// The field texts of a sample taken from one record.
pub fn record_sample_texts(record: &Vec<String>) -> (t: Vec<String>)
    ensures
        t@.map_values(|f: String| f@) == sample_texts(record@.map_values(|f: String| f@)),
{
    let ghost rec = record@.map_values(|f: String| f@);
    let mut t: Vec<String> = Vec::new();
    let mut k: usize = 0;
    while k < 11
        invariant
            k <= 11,
            t@.len() == k,
            rec == record@.map_values(|f: String| f@),
            forall|j: int| 0 <= j < k ==> (#[trigger] t@[j])@ == sample_texts(rec)[j],
        decreases 11 - k,
    {
        let col: usize = if k < 9 { k } else { k + 1 };
        let f = if col < record.len() {
            record[col].clone()
        } else if k < 9 {
            String::from_str("0")
        } else if k == 9 {
            String::from_str("20.0")
        } else {
            String::from_str("0.5")
        };
        t.push(f);
        k = k + 1;
    }
    proof {
        assert(t@.map_values(|f: String| f@) =~= sample_texts(rec));
    }
    t
}

/// The samples of a UCI dataset file, as the field texts of each record after
/// the header (see `sample_texts`), or the `csv` reader's first error.
pub fn uci_sample_texts(input: &[u8]) -> (r: Result<Vec<Vec<String>>, String>)
    ensures
        match r {
            Ok(v) => csv_records_after_header(input@) is Ok && v@.len() == csv_records_after_header(input@)->Ok_0.len()
                && forall|i: int| 0 <= i < v@.len() ==> (#[trigger] v@[i])@.map_values(|f: String| f@)
                    == sample_texts(csv_records_after_header(input@)->Ok_0[i]),
            Err(m) => csv_records_after_header(input@) == Err::<Seq<Seq<Seq<char>>>, Seq<char>>(m@),
        },
{
    let records = match read_csv_records(input) {
        Ok(v) => v,
        Err(m) => { return Err(m); },
    };
    let ghost recs = fields_view(records@);
    let mut out: Vec<Vec<String>> = Vec::new();
    let mut i: usize = 0;
    while i < records.len()
        invariant
            i <= records@.len(),
            out@.len() == i,
            recs == fields_view(records@),
            csv_records_after_header(input@) == Ok::<Seq<Seq<Seq<char>>>, Seq<char>>(recs),
            forall|j: int| 0 <= j < i ==> (#[trigger] out@[j])@.map_values(|f: String| f@)
                == sample_texts(recs[j]),
        decreases records@.len() - i,
    {
        let t = record_sample_texts(&records[i]);
        out.push(t);
        i = i + 1;
    }
    Ok(out)
}

/// Synthetic proxy source for tests when the real dataset is unavailable.
pub struct SyntheticDataProvider {
    n_samples: usize,
    proxy_names: Vec<String>,
}

impl SyntheticDataProvider {
    pub closed spec fn spec_n_samples(&self) -> usize {
        self.n_samples
    }

    pub closed spec fn spec_proxy_names(&self) -> Seq<Seq<char>> {
        names_of(self.proxy_names@)
    }

    pub fn new(n_samples: usize) -> (p: Self)
        ensures
            p.spec_n_samples() == n_samples,
            p.spec_proxy_names() == synthetic_proxy_list(),
    {
        let proxy_names = vec![
            String::from_str("cement"),
            String::from_str("water"),
            String::from_str("age"),
            String::from_str("slag"),
            String::from_str("superplasticizer"),
        ];
        proof {
            assert(names_of(proxy_names@) =~= synthetic_proxy_list());
        }
        SyntheticDataProvider { n_samples, proxy_names }
    }

    pub fn n_samples(&self) -> (n: usize)
        ensures
            n == self.spec_n_samples(),
    {
        self.n_samples
    }

    pub fn proxy_names(&self) -> (v: &[String])
        ensures
            names_of(v@) == self.spec_proxy_names(),
    {
        self.proxy_names.as_slice()
    }
}

} // verus!
