use std::io::Write;

use world_wgpu::catalog::{column_index, designation_table, read_catalog};
use world_wgpu::constellations::{
    constellation_segments, figure_keys, figure_table, push_resolved_runs, resolve_designations,
    resolve_figures, split_designation, Designation, ResolvedFigure,
};

/// Gzip-compressed CSV in the layout of the HYG star catalog: an id, a few numeric
/// columns, then the Bayer designation and the constellation, as the original columns.
fn gzip_catalog(rows: &[(String, String)]) -> Vec<u8> {
    let mut text = String::from("id,hip,proper,ra,dec,mag,bayer,flam,con\n");
    text.push_str("0,,Sol,0.0,0.0,-26.7,,,\n");
    for (i, (con, bayer)) in rows.iter().enumerate() {
        text.push_str(&format!("{},{},,1.0,2.0,3.0,{},,{}\n", i + 1, 1000 + i, bayer, con));
    }
    text.push_str("99999,,,5.0,6.0,7.0,Alp,,Xyz\n");
    let mut encoder = flate2::write::GzEncoder::new(Vec::new(), flate2::Compression::default());
    encoder.write_all(text.as_bytes()).unwrap();
    encoder.finish().unwrap()
}

/// The catalog keys of the figures, looked up in a catalog read the way the renderer
/// reads its star catalog: decompressed, parsed, columns found by header name.
fn resolve_against_catalog(keys: &Vec<Designation>, catalog: &[(String, String)]) -> Vec<Option<usize>> {
    let table = read_catalog(&gzip_catalog(catalog)).expect("catalog reads");
    let con = column_index(&table.headers, "con").expect("con column");
    let bayer = column_index(&table.headers, "bayer").expect("bayer column");
    let rows = designation_table(&table, con, bayer);
    resolve_designations(keys, &rows)
}

/// The designations of the figure stars as the catalog spells them, with each star
/// listed once, in catalog order (sorted, as the catalog is not in figure order).
fn catalog_excerpt(keys: &Vec<Designation>) -> Vec<(String, String)> {
    let mut rows: Vec<(String, String)> = keys.iter().map(|(c, b)| (c.to_string(), b.to_string())).collect();
    rows.sort();
    rows.dedup();
    rows
}

#[test]
fn every_figure_star_resolves() {
    let figures = figure_table();
    let keys = figure_keys(&figures);
    let catalog = catalog_excerpt(&keys);

    let missing: Vec<_> = resolve_against_catalog(&keys, &catalog)
        .iter()
        .zip(&keys)
        .filter(|(hit, _)| hit.is_none())
        .map(|(_, (con, bayer))| format!("{con} {bayer}"))
        .collect();

    assert!(missing.is_empty(), "unresolved designations: {missing:?}");
}

#[test]
fn a_star_missing_from_the_catalog_does_not_resolve() {
    let figures = figure_table();
    let keys = figure_keys(&figures);
    let catalog: Vec<(String, String)> = catalog_excerpt(&keys)
        .into_iter()
        .filter(|(c, b)| !(c == "Ori" && b == "Kap"))
        .collect();
    let hits = resolve_against_catalog(&keys, &catalog);
    let missing: Vec<Designation> = hits.iter().zip(&keys).filter(|(h, _)| h.is_none()).map(|(_, k)| *k).collect();
    assert_eq!(missing, vec![("Ori", "Kap")]);
}

#[test]
fn figure_table_lists_twenty_one_figures() {
    let figures = figure_table();
    assert_eq!(figures.len(), 21);
    assert_eq!(figures[0].name, "Ursa Major");
    assert_eq!(figures[0].con, "UMa");
    assert_eq!(figures[0].paths, vec![vec!["Eta", "Zet", "Eps", "Del", "Gam", "Bet", "Alp", "Del"]]);
    assert_eq!(figures[3].name, "Orion");
    assert_eq!(figures[3].paths.len(), 6);
    assert_eq!(figures[20].name, "Auriga");
}

#[test]
fn figure_keys_follow_figures_and_paths() {
    let figures = figure_table();
    let keys = figure_keys(&figures);
    assert_eq!(keys.len(), 173);
    assert_eq!(keys[0], ("UMa", "Eta"));
    assert_eq!(keys[7], ("UMa", "Del"));
    assert_eq!(keys[8], ("UMi", "Alp"));
    // Pegasus borrows Alpheratz from Andromeda at both ends of its square.
    let pegasus_start = keys.iter().position(|k| k.0 == "Peg").unwrap();
    assert_eq!(keys[pegasus_start - 1], ("And", "Alp"));
    assert!(keys.contains(&("Tau", "Bet")));
    assert_eq!(keys[172], ("Aur", "Alp"));
}

#[test]
fn split_designation_reaches_into_neighbours() {
    assert_eq!(split_designation("Peg", "And:Alp"), ("And", "Alp"));
    assert_eq!(split_designation("Aur", "Tau:Bet"), ("Tau", "Bet"));
    assert_eq!(split_designation("Ori", "Alp"), ("Ori", "Alp"));
    assert_eq!(split_designation("Tau", "The-2"), ("Tau", "The-2"));
    assert_eq!(split_designation("Sco", "a:b:c"), ("a", "b:c"));
    assert_eq!(split_designation("Sco", ":Alp"), ("", "Alp"));
    assert_eq!(split_designation("Sco", ""), ("Sco", ""));
}

#[test]
fn resolve_designations_takes_the_first_matching_row() {
    let keys: Vec<Designation> = vec![("Ori", "Alp"), ("Ori", "Bet"), ("Cas", "Alp")];
    let table = vec![
        ("Ori".to_string(), "Bet".to_string()),
        ("Ori".to_string(), "Alp".to_string()),
        ("Ori".to_string(), "Alp".to_string()),
        ("Alp".to_string(), "Cas".to_string()),
    ];
    assert_eq!(resolve_designations(&keys, &table), vec![Some(1), Some(0), None]);
    assert_eq!(resolve_designations(&keys, &Vec::new()), vec![None, None, None]);
}

#[test]
fn missing_star_splits_a_path_in_two() {
    let mut paths: Vec<Vec<u32>> = Vec::new();
    push_resolved_runs(&[Some(1), Some(2), None, Some(3), Some(4)], &mut paths);
    assert_eq!(paths, vec![vec![1, 2], vec![3, 4]]);
}

#[test]
fn resolved_path_is_drawn_whole() {
    let mut paths: Vec<Vec<u32>> = vec![vec![9, 9]];
    push_resolved_runs(&[Some(1), Some(2), Some(3)], &mut paths);
    assert_eq!(paths, vec![vec![9, 9], vec![1, 2, 3]]);
}

#[test]
fn lone_stars_draw_nothing() {
    let mut paths: Vec<Vec<u32>> = Vec::new();
    push_resolved_runs(&[Some(1), None, Some(2), Some(3), None, None, Some(4)], &mut paths);
    assert_eq!(paths, vec![vec![2, 3]]);
    let mut none: Vec<Vec<u32>> = Vec::new();
    push_resolved_runs(&[None, None], &mut none);
    push_resolved_runs(&[], &mut none);
    assert!(none.is_empty());
}

#[test]
fn resolve_figures_keeps_figure_order_and_paths() {
    let figures = figure_table();
    let keys = figure_keys(&figures);
    let resolved: Vec<Option<usize>> = (0..keys.len()).map(Some).collect();
    let out = resolve_figures(&figures, &resolved);
    assert_eq!(out.len(), 21);
    assert_eq!(out[0].name, "Ursa Major");
    assert_eq!(out[0].abbreviation, "UMa");
    assert_eq!(out[0].paths, vec![(0..8).collect::<Vec<usize>>()]);
    assert_eq!(out[1].paths, vec![(8..16).collect::<Vec<usize>>()]);
    assert_eq!(out[3].name, "Orion");
    assert_eq!(out[3].paths.len(), 6);
    assert_eq!(out[3].paths[0], vec![21, 22, 23]);
    assert_eq!(out[3].paths[5], vec![34, 35]);
}

#[test]
fn resolve_figures_splits_at_unresolved_stars() {
    let figures = figure_table();
    let keys = figure_keys(&figures);
    let resolved: Vec<Option<usize>> = (0..keys.len()).map(|k| if k == 2 { None } else { Some(k) }).collect();
    let out = resolve_figures(&figures, &resolved);
    assert_eq!(out[0].paths, vec![vec![0, 1], vec![3, 4, 5, 6, 7]]);
}

#[test]
fn segments_join_consecutive_stars() {
    let figures = vec![
        ResolvedFigure { name: "A", abbreviation: "Aaa", paths: vec![vec![1u32, 2, 3], vec![7]] },
        ResolvedFigure { name: "B", abbreviation: "Bbb", paths: vec![vec![4, 5]] },
    ];
    assert_eq!(constellation_segments(&figures), vec![1, 2, 2, 3, 4, 5]);
    let empty: Vec<ResolvedFigure<u32>> = Vec::new();
    assert!(constellation_segments(&empty).is_empty());
}

#[test]
fn every_figure_gives_an_even_segment_list() {
    let figures = figure_table();
    let keys = figure_keys(&figures);
    let resolved: Vec<Option<usize>> = (0..keys.len()).map(Some).collect();
    let segments = constellation_segments(&resolve_figures(&figures, &resolved));
    // One segment per pair of consecutive stars in each path: 173 stars in 43 paths.
    assert_eq!(segments.len(), 2 * (173 - 43));
    for pair in segments.chunks_exact(2) {
        assert_eq!(pair[0] + 1, pair[1]);
    }
}

#[test]
fn every_vertex_lands_on_a_resolved_star() {
    let figures = figure_table();
    let keys = figure_keys(&figures);
    let resolved: Vec<Option<usize>> = (0..keys.len()).map(|k| if k % 7 == 3 { None } else { Some(1000 + k) }).collect();
    let segments = constellation_segments(&resolve_figures(&figures, &resolved));
    assert!(!segments.is_empty());
    assert_eq!(segments.len() % 2, 0);
    for v in &segments {
        assert!(resolved.contains(&Some(*v)), "vertex {v} is not a resolved star");
    }
}
