use cairo_trace::trace::{get_casm_contract_builtins, EntryPointRecord};

fn entry(offset: u64, builtins: &[&str]) -> EntryPointRecord {
    EntryPointRecord {
        offset,
        builtins: builtins.iter().map(|b| b.to_string()).collect(),
    }
}

#[test]
fn builtins_of_matching_entry_point() {
    let entry_points = vec![
        entry(0, &["pedersen", "range_check"]),
        entry(64, &["range_check"]),
    ];
    let found = get_casm_contract_builtins(&entry_points, 64);
    assert_eq!(found, Some(&vec!["range_check".to_string()]));
}

#[test]
fn missing_entry_point_offset_finds_nothing() {
    let entry_points = vec![entry(0, &["range_check"])];
    assert_eq!(get_casm_contract_builtins(&entry_points, 10), None);
}

#[test]
fn first_matching_entry_point_wins() {
    let entry_points = vec![entry(8, &["a"]), entry(8, &["b"])];
    let found = get_casm_contract_builtins(&entry_points, 8);
    assert_eq!(found, Some(&vec!["a".to_string()]));
}
