//! The query surface: given a runtime program counter reported by the
//! execution engine, chain the instruction-to-statements table and the
//! per-statement table to recover the source spans responsible for it.

use vstd::prelude::*;

use crate::cairo_sierra::{CairoInfo, CairoInfoView, CairoLocation, CairoLocationView,
    ContractFullProgram, FullProgram};
use crate::casm_sierra::{SierraCompile, SierraContractCompile};
use crate::grouping::lookup;
use crate::grouping::lookup_ref;

verus! {

/// Everything one plain compilation pass produced: the statement-side and the
/// instruction-side results.
#[derive(Debug, Clone, PartialEq, Eq)]
pub struct CompilationResult {
    pub cairo_sierra: FullProgram,
    pub casm_sierra: SierraCompile,
}

/// Everything one contract compilation pass produced.
#[derive(Debug, Clone, PartialEq, Eq)]
pub struct ContractCompilationResult {
    pub cairo_sierra: ContractFullProgram,
    pub casm_sierra: SierraContractCompile,
}

/// A completed compilation of either kind, as the correlator queries it.
#[derive(Debug, Clone, PartialEq, Eq)]
pub enum CompilationResultType {
    Contract(ContractCompilationResult),
    General(CompilationResult),
}

/// The instruction-to-statements table of a compilation result.
pub open spec fn spec_mapping(c: CompilationResultType) -> Seq<(u64, Seq<u64>)> {
    match c {
        CompilationResultType::Contract(r) => r
            .casm_sierra
            .casm_sierra_mapping_instruction
            .casm_sierra_mapping
            .deep_view(),
        CompilationResultType::General(r) => r
            .casm_sierra
            .casm_sierra_mapping_instruction
            .casm_sierra_mapping
            .deep_view(),
    }
}

/// The per-statement table of a compilation result.
pub open spec fn spec_info_table(c: CompilationResultType) -> Seq<CairoInfoView> {
    match c {
        CompilationResultType::Contract(r) => r.cairo_sierra.sierra_cairo_info_mapping.deep_view(),
        CompilationResultType::General(r) => r.cairo_sierra.sierra_cairo_info_mapping.deep_view(),
    }
}

/// The spans the listed statements contribute, concatenated in the order the
/// statement indices are listed. A statement index beyond the table
/// contributes nothing, as does a statement whose span list is empty.
pub open spec fn collected_spans(indices: Seq<u64>, table: Seq<CairoInfoView>) -> Seq<
    CairoLocationView,
>
    decreases indices.len(),
{
    if indices.len() == 0 {
        Seq::empty()
    } else {
        collected_spans(indices.drop_last(), table) + {
            let k = indices.last();
            if k < table.len() {
                table[k as int].cairo_locations
            } else {
                Seq::empty()
            }
        }
    }
}

/// What a lookup at program counter `pc` yields: `None` when no instruction
/// ordinal `pc` is in the mapping, otherwise the concatenated spans of the
/// statements mapped to it.
pub open spec fn locate_spec(pc: u64, c: CompilationResultType) -> Option<Seq<CairoLocationView>> {
    match lookup(spec_mapping(c), pc) {
        Some(indices) => Some(collected_spans(indices, spec_info_table(c))),
        None => None,
    }
}

/// Outcome of a program-counter lookup: an explicit not-found answer, kept
/// distinct from a found answer whose span list happens to be empty.
#[derive(Debug, Clone, PartialEq, Eq)]
pub enum LocateResult {
    NotFound,
    Found(Vec<CairoLocation>),
}

/// Looks up the runtime offset `pc` in the instruction-to-statements table
/// and resolves every statement mapped to it against the per-statement table,
/// returning the matched source spans in the order the statements are listed.
///
/// Any `pc` value is accepted: one without an entry yields the explicit
/// not-found outcome, never a failure.
pub fn trace_error(pc: u64, compilation_result: &CompilationResultType) -> (r: LocateResult)
    ensures
        match r {
            LocateResult::Found(spans) => locate_spec(pc, *compilation_result) == Some(
                spans.deep_view(),
            ),
            LocateResult::NotFound => locate_spec(pc, *compilation_result) is None,
        },
{
    let casm_sierra_mapping = match compilation_result {
        CompilationResultType::Contract(contract_compilation_result) => &contract_compilation_result
            .casm_sierra
            .casm_sierra_mapping_instruction
            .casm_sierra_mapping,
        CompilationResultType::General(general_compilation_result) => &general_compilation_result
            .casm_sierra
            .casm_sierra_mapping_instruction
            .casm_sierra_mapping,
    };
    let sierra_statement_indices = match lookup_ref(casm_sierra_mapping, pc) {
        Some(indices) => indices,
        None => {
            return LocateResult::NotFound;
        },
    };
    let sierra_cairo_info_mapping = match compilation_result {
        CompilationResultType::Contract(contract_compilation_result) => &contract_compilation_result
            .cairo_sierra
            .sierra_cairo_info_mapping,
        CompilationResultType::General(general_compilation_result) => &general_compilation_result
            .cairo_sierra
            .sierra_cairo_info_mapping,
    };
    let ghost indices = sierra_statement_indices.deep_view();
    let ghost table = spec_info_table(*compilation_result);
    let mut spans: Vec<CairoLocation> = Vec::new();
    let mut j: usize = 0;
    while j < sierra_statement_indices.len()
        invariant
            0 <= j <= sierra_statement_indices@.len(),
            indices == sierra_statement_indices.deep_view(),
            indices.len() == sierra_statement_indices@.len(),
            table == sierra_cairo_info_mapping.deep_view(),
            table.len() == sierra_cairo_info_mapping@.len(),
            spans.deep_view() =~= collected_spans(indices.take(j as int), table),
        decreases sierra_statement_indices@.len() - j,
    {
        let statement_index = sierra_statement_indices[j];
        proof {
            assert(indices[j as int] == statement_index);
        }
        let ghost spans_at_j = spans.deep_view();
        if statement_index < sierra_cairo_info_mapping.len() as u64 {
            let cairo_info = &sierra_cairo_info_mapping[statement_index as usize];
            let ghost locs = cairo_info.cairo_locations.deep_view();
            proof {
                assert(table[statement_index as int].cairo_locations == locs);
            }
            let mut l: usize = 0;
            while l < cairo_info.cairo_locations.len()
                invariant
                    0 <= l <= cairo_info.cairo_locations@.len(),
                    locs == cairo_info.cairo_locations.deep_view(),
                    locs.len() == cairo_info.cairo_locations@.len(),
                    spans.deep_view() =~= spans_at_j + locs.take(l as int),
                decreases cairo_info.cairo_locations@.len() - l,
            {
                let loc = cairo_info.cairo_locations[l].clone();
                proof {
                    assert(loc.deep_view() == locs[l as int]);
                }
                let ghost sb_at = spans@;
                let ghost s_before = spans.deep_view();
                proof {
                    assert(s_before.len() == sb_at.len());
                    assert(forall|t: int|
                        0 <= t < sb_at.len() ==> s_before[t] == #[trigger] sb_at[t].deep_view());
                }
                spans.push(loc);
                proof {
                    assert(spans@ == sb_at.push(loc));
                    assert forall|t: int| 0 <= t < spans@.len() implies spans.deep_view()[t] == (
                    spans_at_j + locs.take(l + 1))[t] by {
                        assert(spans.deep_view()[t] == spans@[t].deep_view());
                        if t < sb_at.len() {
                            assert(spans@[t] == sb_at[t]);
                            assert(spans@[t].deep_view() == s_before[t]);
                        } else {
                            assert(spans@[t] == loc);
                        }
                    }
                    assert(spans.deep_view().len() == spans@.len());
                    assert(spans.deep_view() =~= spans_at_j + locs.take(l + 1));
                }
                l = l + 1;
            }
            proof {
                assert(locs.take(locs.len() as int) =~= locs);
            }
        }
        proof {
            assert(indices.take(j + 1).drop_last() =~= indices.take(j as int));
            assert(indices.take(j + 1).last() == indices[j as int]);
            assert(spans.deep_view() =~= collected_spans(indices.take(j + 1), table));
        }
        j = j + 1;
    }
    proof {
        assert(indices.take(indices.len() as int) =~= indices);
    }
    LocateResult::Found(spans)
}

} // verus!
