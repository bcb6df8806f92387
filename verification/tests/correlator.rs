use cairo_trace::cairo_sierra::{
    CairoInfo, CairoLocation, ContractFullProgram, FullProgram, TextPosition,
};
use cairo_trace::casm_sierra::{
    CasmSierraMapping, CasmSierraMappingInstruction, SierraCompile, SierraContractCompile,
};
use cairo_trace::correlate::{
    trace_error, CompilationResult, CompilationResultType, ContractCompilationResult, LocateResult,
};

fn span(file_name: &str, line: usize, col_start: usize, col_end: usize) -> CairoLocation {
    CairoLocation {
        file_name: file_name.to_string(),
        start: TextPosition { line, col: col_start },
        end: TextPosition { line, col: col_end },
    }
}

fn record(spans: Vec<CairoLocation>) -> CairoInfo {
    CairoInfo { fn_name: None, cairo_locations: spans }
}

fn general(table: Vec<CairoInfo>, mapping: CasmSierraMapping) -> CompilationResultType {
    CompilationResultType::General(CompilationResult {
        cairo_sierra: FullProgram {
            contract: String::new(),
            sierra_cairo_info_mapping: table,
        },
        casm_sierra: SierraCompile {
            casm_sierra_mapping_instruction: CasmSierraMappingInstruction {
                casm_instructions: Vec::new(),
                casm_sierra_mapping: mapping,
            },
            casm: String::new(),
        },
    })
}

#[test]
fn locate_collects_spans_of_mapped_statements() {
    // Instruction ordinal 5 maps to statements 12 and 13; statement 12 has
    // spans, statement 13 has none: the result is exactly statement 12's
    // spans, and 13 contributes nothing without being an error.
    let mut table: Vec<CairoInfo> = (0..14).map(|_| record(Vec::new())).collect();
    table[12] = record(vec![span("a.src", 3, 0, 7)]);
    let mapping = vec![(5u64, vec![12u64, 13u64])];
    let result = trace_error(5, &general(table, mapping));
    assert_eq!(result, LocateResult::Found(vec![span("a.src", 3, 0, 7)]));
}

#[test]
fn locate_missing_pc_is_not_found() {
    let table = vec![record(vec![span("a.src", 0, 0, 1)])];
    let mapping = vec![(0u64, vec![0u64])];
    let result = trace_error(999, &general(table, mapping));
    assert_eq!(result, LocateResult::NotFound);
}

#[test]
fn locate_accepts_any_pc_value() {
    let table = vec![record(Vec::new())];
    let mapping = vec![(0u64, vec![0u64])];
    let compilation = general(table, mapping);
    assert_eq!(trace_error(u64::MAX, &compilation), LocateResult::NotFound);
    assert_eq!(trace_error(1, &compilation), LocateResult::NotFound);
    assert_eq!(trace_error(0, &compilation), LocateResult::Found(Vec::new()));
}

#[test]
fn found_with_empty_spans_differs_from_not_found() {
    let table = vec![record(Vec::new())];
    let mapping = vec![(7u64, vec![0u64])];
    let compilation = general(table, mapping);
    assert_eq!(trace_error(7, &compilation), LocateResult::Found(Vec::new()));
    assert_ne!(trace_error(7, &compilation), LocateResult::NotFound);
}

#[test]
fn locate_skips_statement_indices_beyond_table() {
    let table = vec![record(vec![span("a.src", 1, 2, 3)])];
    let mapping = vec![(0u64, vec![0u64, 42u64])];
    let result = trace_error(0, &general(table, mapping));
    assert_eq!(result, LocateResult::Found(vec![span("a.src", 1, 2, 3)]));
}

#[test]
fn locate_works_on_contract_results() {
    let table = vec![record(vec![span("c.src", 0, 0, 4)])];
    let mapping = vec![(3u64, vec![0u64])];
    let compilation = CompilationResultType::Contract(ContractCompilationResult {
        cairo_sierra: ContractFullProgram { sierra_cairo_info_mapping: table },
        casm_sierra: SierraContractCompile {
            casm_sierra_mapping_instruction: CasmSierraMappingInstruction {
                casm_instructions: Vec::new(),
                casm_sierra_mapping: mapping,
            },
        },
    });
    assert_eq!(trace_error(3, &compilation), LocateResult::Found(vec![span("c.src", 0, 0, 4)]));
    assert_eq!(trace_error(4, &compilation), LocateResult::NotFound);
}
