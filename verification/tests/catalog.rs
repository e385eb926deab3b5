use std::io::Write;

use world_wgpu::catalog::{column_index, designation_table, read_catalog, CatalogTable};

fn gzip(text: &str) -> Vec<u8> {
    let mut encoder = flate2::write::GzEncoder::new(Vec::new(), flate2::Compression::default());
    encoder.write_all(text.as_bytes()).unwrap();
    encoder.finish().unwrap()
}

fn strings(cells: &[&str]) -> Vec<String> {
    cells.iter().map(|c| c.to_string()).collect()
}

#[test]
fn catalog_reads_headers_and_records() {
    let table = read_catalog(&gzip("id,bayer,con\n1,Alp,Ori\n2,Bet,Ori\n")).expect("reads");
    assert_eq!(table.headers, strings(&["id", "bayer", "con"]));
    assert_eq!(table.records, vec![strings(&["1", "Alp", "Ori"]), strings(&["2", "Bet", "Ori"])]);
}

#[test]
fn catalog_skips_records_that_do_not_read() {
    let table = read_catalog(&gzip("a,b\n1,2\n3\n4,5\n")).expect("reads");
    assert_eq!(table.records, vec![strings(&["1", "2"]), strings(&["4", "5"])]);
}

#[test]
fn catalog_of_bytes_that_are_not_gzip_is_none() {
    assert!(read_catalog(b"id,bayer,con\n1,Alp,Ori\n").is_none());
    assert!(read_catalog(&[]).is_none());
}

#[test]
fn catalog_with_only_a_header_has_no_records() {
    let table = read_catalog(&gzip("id,bayer,con\n")).expect("reads");
    assert_eq!(table.headers.len(), 3);
    assert!(table.records.is_empty());
}

#[test]
fn column_index_finds_the_first_column_of_a_name() {
    let headers = strings(&["id", "con", "bayer", "con"]);
    assert_eq!(column_index(&headers, "con"), Some(1));
    assert_eq!(column_index(&headers, "bayer"), Some(2));
    assert_eq!(column_index(&headers, "mag"), None);
    assert_eq!(column_index(&Vec::new(), "con"), None);
}

#[test]
fn designation_table_reads_two_columns() {
    let table = CatalogTable {
        headers: strings(&["id", "bayer", "con"]),
        records: vec![strings(&["1", "Alp", "Ori"]), strings(&["2"]), strings(&["3", "", "Cas"])],
    };
    let rows = designation_table(&table, 2, 1);
    assert_eq!(
        rows,
        vec![
            ("Ori".to_string(), "Alp".to_string()),
            (String::new(), String::new()),
            ("Cas".to_string(), String::new()),
        ]
    );
}
