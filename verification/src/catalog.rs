//! The embedded star catalog as a table of text cells: decompression, CSV parsing,
//! and column lookup by header name.
use vstd::prelude::*;
use std::io::Read;

verus! {

/// The text that gunzip (`flate2::read::GzDecoder` read to a `String`) makes of
/// `bytes`, or `None` when they are not a gzip stream of UTF-8 text.
pub uninterp spec fn gunzipped_text(bytes: Seq<u8>) -> Option<Seq<char>>;

/// The header cells and the records of CSV text with a header line, as
/// `csv::ReaderBuilder::new().has_headers(true)` reads it: `None` when the header
/// cannot be read; a record is `None` when it cannot be read.
pub uninterp spec fn csv_table(text: Seq<char>) -> Option<(Seq<Seq<char>>, Seq<Option<Seq<Seq<char>>>>)>;

pub open spec fn strings_view(v: Seq<String>) -> Seq<Seq<char>> {
    v.map_values(|s: String| s@)
}

pub open spec fn option_string_view(t: Option<String>) -> Option<Seq<char>> {
    match t {
        Some(s) => Some(s@),
        None => None,
    }
}

pub open spec fn record_view(r: Option<Vec<String>>) -> Option<Seq<Seq<char>>> {
    match r {
        Some(cells) => Some(strings_view(cells@)),
        None => None,
    }
}

pub open spec fn csv_view(t: Option<(Vec<String>, Vec<Option<Vec<String>>>)>) -> Option<(Seq<Seq<char>>, Seq<Option<Seq<Seq<char>>>>)> {
    match t {
        Some((headers, records)) => Some((strings_view(headers@), records@.map_values(|r: Option<Vec<String>>| record_view(r)))),
        None => None,
    }
}

/// Decompresses gzip data with `flate2::read::GzDecoder` and reads it as UTF-8 text
/// (`Read::read_to_string`); the text is named by `gunzipped_text`.
#[verifier::external_body]
fn gunzip_to_string(bytes: &[u8]) -> (text: Option<String>)
    ensures
        option_string_view(text) == gunzipped_text(bytes@),
{
    let mut decoder = flate2::read::GzDecoder::new(bytes);
    let mut text = String::new();
    match decoder.read_to_string(&mut text) {
        Ok(_) => Some(text),
        Err(_) => None,
    }
}

/// Reads CSV text with a header line through `csv::ReaderBuilder` (`headers` and
/// `records`), converting each cell to a `String`; the table is named by `csv_table`.
#[verifier::external_body]
fn parse_csv(text: &str) -> (table: Option<(Vec<String>, Vec<Option<Vec<String>>>)>)
    ensures
        csv_view(table) == csv_table(text@),
{
    let mut reader = csv::ReaderBuilder::new().has_headers(true).from_reader(text.as_bytes());
    let headers: Vec<String> = match reader.headers() {
        Ok(h) => h.iter().map(|c| c.to_string()).collect(),
        Err(_) => return None,
    };
    let records = reader.records().map(|r| r.ok().map(|rec| rec.iter().map(|c| c.to_string()).collect())).collect();
    Some((headers, records))
}

/// A catalog read as text: its column names and the cells of each readable record.
pub struct CatalogTable {
    pub headers: Vec<String>,
    pub records: Vec<Vec<String>>,
}

/// The readable records, in order.
pub open spec fn readable_records(records: Seq<Option<Seq<Seq<char>>>>) -> Seq<Seq<Seq<char>>>
    decreases records.len(),
{
    if records.len() == 0 {
        Seq::empty()
    } else {
        let rest = readable_records(records.drop_last());
        match records.last() {
            Some(r) => rest.push(r),
            None => rest,
        }
    }
}

/// The catalog table in gzip-compressed CSV `bytes`: `None` when they do not
/// decompress to text or the header line cannot be read; unreadable records are left out.
pub open spec fn catalog_table_spec(bytes: Seq<u8>) -> Option<(Seq<Seq<char>>, Seq<Seq<Seq<char>>>)> {
    match gunzipped_text(bytes) {
        None => None,
        Some(text) => match csv_table(text) {
            None => None,
            Some((headers, records)) => Some((headers, readable_records(records))),
        },
    }
}

pub open spec fn table_view(t: CatalogTable) -> (Seq<Seq<char>>, Seq<Seq<Seq<char>>>) {
    (strings_view(t.headers@), t.records@.map_values(|r: Vec<String>| strings_view(r@)))
}

/// Decompresses and parses the star catalog, keeping the records that read.
pub fn read_catalog(bytes: &[u8]) -> (table: Option<CatalogTable>)
    ensures
        match table {
            Some(t) => catalog_table_spec(bytes@) == Some(table_view(t)),
            None => catalog_table_spec(bytes@) is None,
        },
{
    let text = match gunzip_to_string(bytes) {
        Some(t) => t,
        None => return None,
    };
    let (headers, records) = match parse_csv(text.as_str()) {
        Some(parsed) => parsed,
        None => return None,
    };
    let ghost rv = records@.map_values(|r: Option<Vec<String>>| record_view(r));
    let mut kept: Vec<Vec<String>> = Vec::new();
    let mut i: usize = 0;
    while i < records.len()
        invariant
            i <= records.len(),
            rv == records@.map_values(|r: Option<Vec<String>>| record_view(r)),
            kept@.map_values(|r: Vec<String>| strings_view(r@)) == readable_records(rv.take(i as int)),
        decreases records.len() - i,
    {
        assert(rv.take(i + 1).drop_last() =~= rv.take(i as int));
        match &records[i] {
            Some(cells) => {
                let ghost before = kept@;
                kept.push(cells.clone());
                assert(kept@.map_values(|r: Vec<String>| strings_view(r@)) =~= before.map_values(
                    |r: Vec<String>| strings_view(r@),
                ).push(strings_view(cells@)));
            },
            None => {},
        }
        i = i + 1;
    }
    assert(rv.take(records.len() as int) =~= rv);
    Some(CatalogTable { headers, records: kept })
}

/// Column `c` is the first column called `name`.
pub open spec fn first_column_named(headers: Seq<Seq<char>>, name: Seq<char>, c: int) -> bool {
    &&& 0 <= c < headers.len()
    &&& headers[c] == name
    &&& forall|j: int| 0 <= j < c ==> headers[j] != name
}

/// The index of the first column called `name`, if there is one.
pub fn column_index(headers: &Vec<String>, name: &str) -> (index: Option<usize>)
    ensures
        match index {
            Some(c) => first_column_named(strings_view(headers@), name@, c as int),
            None => forall|j: int| 0 <= j < headers.len() ==> headers@[j]@ != name@,
        },
{
    let wanted = name.to_owned();
    let mut c: usize = 0;
    while c < headers.len()
        invariant
            c <= headers.len(),
            wanted@ == name@,
            forall|j: int| 0 <= j < c ==> headers@[j]@ != name@,
        decreases headers.len() - c,
    {
        if headers[c] == wanted {
            return Some(c);
        }
        c = c + 1;
    }
    None
}

/// Cell `c` of a record, or the empty text when the record is shorter.
pub open spec fn cell_or_empty(record: Seq<Seq<char>>, c: int) -> Seq<char> {
    if 0 <= c < record.len() { record[c] } else { Seq::empty() }
}

/// The `(constellation, Bayer designation)` pair of every record, read from the columns
/// `con_col` and `bayer_col` (empty where a record lacks the cell).
pub fn designation_table(table: &CatalogTable, con_col: usize, bayer_col: usize) -> (rows: Vec<(String, String)>)
    ensures
        rows.len() == table.records.len(),
        forall|k: int|
            #![trigger rows@[k]]
            0 <= k < rows.len() ==> rows@[k].0@ == cell_or_empty(strings_view(table.records@[k]@), con_col as int)
                && rows@[k].1@ == cell_or_empty(strings_view(table.records@[k]@), bayer_col as int),
{
    let mut rows: Vec<(String, String)> = Vec::new();
    let mut k: usize = 0;
    while k < table.records.len()
        invariant
            k <= table.records.len(),
            rows.len() == k,
            forall|t: int|
                #![trigger rows@[t]]
                0 <= t < k ==> rows@[t].0@ == cell_or_empty(strings_view(table.records@[t]@), con_col as int)
                    && rows@[t].1@ == cell_or_empty(strings_view(table.records@[t]@), bayer_col as int),
        decreases table.records.len() - k,
    {
        let record = &table.records[k];
        let con = if con_col < record.len() { record[con_col].clone() } else { String::new() };
        let bayer = if bayer_col < record.len() { record[bayer_col].clone() } else { String::new() };
        rows.push((con, bayer));
        k = k + 1;
    }
    rows
}

} // verus!
