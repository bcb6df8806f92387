use cairo_trace::cairo_sierra::{
    generate_sierra_to_cairo_statement_info, get_diagnostic_locations, position_at,
    resolve_location, CairoLocation, DiagnosticFact, TextPosition,
};

fn fact(file_name: &str, content: Option<&str>, is_virtual: bool, start: usize, end: usize)
    -> DiagnosticFact {
    DiagnosticFact {
        file_name: file_name.to_string(),
        file_content: content.map(|c| c.to_string()),
        is_virtual,
        start,
        end,
    }
}

#[test]
fn two_statement_program() {
    // Statement 0: function "main", no diagnostic location.
    // Statement 1: function "main", one location in "main.src" at (0,0)-(0,10).
    let names = vec![(0u64, "main".to_string()), (1u64, "main".to_string())];
    let locations = vec![(1u64, vec![fact("main.src", Some("let x = 10;"), false, 0, 10)])];
    let result = generate_sierra_to_cairo_statement_info(2, &names, &locations);
    let table = &result.sierra_cairo_statement_info;
    assert_eq!(table.len(), 2);
    assert_eq!(table[0].fn_name, Some("main".to_string()));
    assert!(table[0].cairo_locations.is_empty());
    assert_eq!(table[1].fn_name, Some("main".to_string()));
    assert_eq!(
        table[1].cairo_locations,
        vec![CairoLocation {
            file_name: "main.src".to_string(),
            start: TextPosition { line: 0, col: 0 },
            end: TextPosition { line: 0, col: 10 },
        }]
    );
}

#[test]
fn table_is_dense_for_sparse_facts() {
    // Only statement 7 has a fact; the table still has one record per index.
    let names = vec![(7u64, "f".to_string())];
    let locations: Vec<(u64, Vec<DiagnosticFact>)> = Vec::new();
    let result = generate_sierra_to_cairo_statement_info(10, &names, &locations);
    let table = &result.sierra_cairo_statement_info;
    assert_eq!(table.len(), 10);
    for (i, record) in table.iter().enumerate() {
        if i == 7 {
            assert_eq!(record.fn_name, Some("f".to_string()));
        } else {
            assert_eq!(record.fn_name, None);
        }
        assert!(record.cairo_locations.is_empty());
    }
}

#[test]
fn position_resolution_counts_lines_and_columns() {
    let content = "ab\ncd\n\nef".to_string();
    assert_eq!(position_at(&content, 0), Some(TextPosition { line: 0, col: 0 }));
    assert_eq!(position_at(&content, 2), Some(TextPosition { line: 0, col: 2 }));
    assert_eq!(position_at(&content, 3), Some(TextPosition { line: 1, col: 0 }));
    assert_eq!(position_at(&content, 5), Some(TextPosition { line: 1, col: 2 }));
    assert_eq!(position_at(&content, 6), Some(TextPosition { line: 2, col: 0 }));
    assert_eq!(position_at(&content, 9), Some(TextPosition { line: 3, col: 2 }));
    assert_eq!(position_at(&content, 10), None);
}

#[test]
fn resolution_failure_degrades_to_origin() {
    // Offset beyond the end of the file text degrades to (0, 0).
    let out_of_range = fact("a.src", Some("ab"), false, 1, 9);
    let loc = resolve_location(&out_of_range);
    assert_eq!(loc.start, TextPosition { line: 0, col: 1 });
    assert_eq!(loc.end, TextPosition { line: 0, col: 0 });

    // A malformed file record degrades both positions.
    let no_content = fact("a.src", None, false, 1, 2);
    let loc = resolve_location(&no_content);
    assert_eq!(loc.start, TextPosition { line: 0, col: 0 });
    assert_eq!(loc.end, TextPosition { line: 0, col: 0 });
    assert_eq!(loc.file_name, "a.src");
}

#[test]
fn span_order_is_kept_and_duplicates_stay() {
    let f1 = fact("a.src", Some("xy\nz"), false, 3, 4);
    let f2 = fact("b.src", Some("q"), false, 0, 1);
    let locations = vec![(0u64, vec![f1.clone(), f2.clone(), f1.clone()])];
    let names: Vec<(u64, String)> = Vec::new();
    let result = generate_sierra_to_cairo_statement_info(1, &names, &locations);
    let spans = &result.sierra_cairo_statement_info[0].cairo_locations;
    assert_eq!(spans.len(), 3);
    assert_eq!(spans[0].file_name, "a.src");
    assert_eq!(spans[0].start, TextPosition { line: 1, col: 0 });
    assert_eq!(spans[1].file_name, "b.src");
    assert_eq!(spans[2], spans[0]);
}

#[test]
fn contract_text_is_captured_once() {
    let generated = fact("contract", Some("generated code"), true, 0, 0);
    let later = fact("contract", Some("other text"), true, 0, 0);
    let locations = vec![(0u64, vec![generated]), (1u64, vec![later])];
    let names: Vec<(u64, String)> = Vec::new();
    let result = generate_sierra_to_cairo_statement_info(2, &names, &locations);
    assert_eq!(result.contract_code, "generated code");
}

#[test]
fn contract_capture_requires_virtual_file() {
    let on_disk = fact("contract", Some("not generated"), false, 0, 0);
    let locations = vec![(0u64, vec![on_disk])];
    let names: Vec<(u64, String)> = Vec::new();
    let result = generate_sierra_to_cairo_statement_info(1, &names, &locations);
    assert_eq!(result.contract_code, "");
}

#[test]
fn resolved_span_is_ordered() {
    // With the file text available and start <= end within it, the resolved
    // start never comes after the resolved end in (line, column) order.
    let f = fact("a.src", Some("ab\ncd\nef"), false, 1, 7);
    let loc = resolve_location(&f);
    assert!(
        loc.start.line < loc.end.line
            || (loc.start.line == loc.end.line && loc.start.col <= loc.end.col)
    );
    assert_eq!(loc.start, TextPosition { line: 0, col: 1 });
    assert_eq!(loc.end, TextPosition { line: 2, col: 1 });
}

#[test]
fn diagnostics_group_by_statement_in_report_order() {
    let a = fact("a.src", None, false, 0, 0);
    let b = fact("b.src", None, false, 0, 0);
    let c = fact("c.src", None, false, 0, 0);
    let reported = vec![(2u64, a.clone()), (1u64, b.clone()), (2u64, c.clone())];
    let grouped = get_diagnostic_locations(reported);
    assert_eq!(grouped.len(), 2);
    assert_eq!(grouped[0].0, 2);
    assert_eq!(grouped[0].1, vec![a, c]);
    assert_eq!(grouped[1].0, 1);
    assert_eq!(grouped[1].1, vec![b]);
}
