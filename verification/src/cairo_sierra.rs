//! The statement-side table: per Sierra statement, the enclosing Cairo
//! function's name and the source spans attributed to it by the front end's
//! diagnostics.
//!
//! The front end itself is an external collaborator; it hands this module
//! plain facts (per-statement function names and diagnostic locations, each
//! with the owning file's name and text), and the builder folds them into a
//! dense table with exactly one record per statement index.

use vstd::prelude::*;

use crate::grouping::{group_by_key, group_pairs, lookup, lookup_ref};

verus! {

/// A zero-based (line, column) position inside a source file.
#[derive(Debug, Clone, Copy, PartialEq, Eq, Structural)]
pub struct TextPosition {
    /// Line index, 0 based.
    pub line: usize,
    /// Character index inside the line, 0 based.
    pub col: usize,
}

/// A resolved source span: a file name and the start and end positions.
#[derive(Debug, PartialEq, Eq)]
pub struct CairoLocation {
    pub file_name: String,
    pub start: TextPosition,
    pub end: TextPosition,
}

impl Clone for CairoLocation {
    fn clone(&self) -> (r: Self)
        ensures
            r@ == self@,
    {
        CairoLocation { file_name: self.file_name.clone(), start: self.start, end: self.end }
    }
}

/// Mathematical value of a [`CairoLocation`].
#[verifier::ext_equal]
pub struct CairoLocationView {
    pub file_name: Seq<char>,
    pub start: TextPosition,
    pub end: TextPosition,
}

impl View for CairoLocation {
    type V = CairoLocationView;

    open spec fn view(&self) -> CairoLocationView {
        CairoLocationView { file_name: self.file_name@, start: self.start, end: self.end }
    }
}

impl DeepView for CairoLocation {
    type V = CairoLocationView;

    open spec fn deep_view(&self) -> CairoLocationView {
        self.view()
    }
}

/// What one statement of the intermediate representation is known to come
/// from: the enclosing function's display name, if any, and the source spans
/// attributed to the statement, in the order the diagnostics reported them.
#[derive(Debug, Clone, PartialEq, Eq)]
pub struct CairoInfo {
    pub fn_name: Option<String>,
    pub cairo_locations: Vec<CairoLocation>,
}

/// Mathematical value of a [`CairoInfo`].
#[verifier::ext_equal]
pub struct CairoInfoView {
    pub fn_name: Option<Seq<char>>,
    pub cairo_locations: Seq<CairoLocationView>,
}

impl View for CairoInfo {
    type V = CairoInfoView;

    open spec fn view(&self) -> CairoInfoView {
        CairoInfoView {
            fn_name: self.fn_name.deep_view(),
            cairo_locations: self.cairo_locations.deep_view(),
        }
    }
}

impl DeepView for CairoInfo {
    type V = CairoInfoView;

    open spec fn deep_view(&self) -> CairoInfoView {
        self.view()
    }
}

/// One diagnostic fact reported by the front end for a statement: the owning
/// file's name and text, whether that file is synthesized rather than on
/// disk, and the attributed span as character offsets into the file's text.
///
/// `file_content` is `None` when the owning file's record is malformed or its
/// text is unavailable; span resolution then degrades to position `(0, 0)`.
#[derive(Debug, Clone, PartialEq, Eq)]
pub struct DiagnosticFact {
    pub file_name: String,
    pub file_content: Option<String>,
    pub is_virtual: bool,
    pub start: usize,
    pub end: usize,
}

/// Mathematical value of a [`DiagnosticFact`].
#[verifier::ext_equal]
pub struct DiagnosticFactView {
    pub file_name: Seq<char>,
    pub file_content: Option<Seq<char>>,
    pub is_virtual: bool,
    pub start: usize,
    pub end: usize,
}

impl View for DiagnosticFact {
    type V = DiagnosticFactView;

    open spec fn view(&self) -> DiagnosticFactView {
        DiagnosticFactView {
            file_name: self.file_name@,
            file_content: self.file_content.deep_view(),
            is_virtual: self.is_virtual,
            start: self.start,
            end: self.end,
        }
    }
}

impl DeepView for DiagnosticFact {
    type V = DiagnosticFactView;

    open spec fn deep_view(&self) -> DiagnosticFactView {
        self.view()
    }
}

/// Number of newline characters among the first `off` characters of
/// `content`: the zero-based line of the character at offset `off`.
pub open spec fn line_at(content: Seq<char>, off: int) -> int
    decreases off,
{
    if off <= 0 {
        0
    } else {
        line_at(content, off - 1) + if content[off - 1] == '\n' {
            1int
        } else {
            0int
        }
    }
}

/// Number of characters between the last newline before offset `off` and
/// `off` itself: the zero-based column of the character at offset `off`.
pub open spec fn col_at(content: Seq<char>, off: int) -> int
    decreases off,
{
    if off <= 0 {
        0
    } else if content[off - 1] == '\n' {
        0
    } else {
        col_at(content, off - 1) + 1
    }
}

/// Both counters stay within `0 ..= off`, so they fit wherever `off` does.
pub proof fn lemma_position_bounds(content: Seq<char>, off: int)
    requires
        0 <= off,
    ensures
        0 <= line_at(content, off) <= off,
        0 <= col_at(content, off) <= off,
    decreases off,
{
    if off > 0 {
        lemma_position_bounds(content, off - 1);
    }
}

/// The (line, column) pair of the character offset `off` in `content`, or
/// `None` when the offset lies beyond the end of the text.
pub open spec fn position_at_spec(content: Seq<char>, off: usize) -> Option<TextPosition> {
    if off <= content.len() {
        Some(
            TextPosition {
                line: line_at(content, off as int) as usize,
                col: col_at(content, off as int) as usize,
            },
        )
    } else {
        None
    }
}

/// Resolves a character offset to its zero-based (line, column) position in
/// `content`; `None` when the offset lies beyond the end of the text.
pub fn position_at(content: &String, off: usize) -> (r: Option<TextPosition>)
    ensures
        r == position_at_spec(content@, off),
{
    let s = content.as_str();
    let len = s.unicode_len();
    if off > len {
        return None;
    }
    let mut line: usize = 0;
    let mut col: usize = 0;
    let mut i: usize = 0;
    while i < off
        invariant
            i <= off <= content@.len(),
            s@ == content@,
            line == line_at(content@, i as int),
            col == col_at(content@, i as int),
        decreases off - i,
    {
        proof {
            lemma_position_bounds(content@, i + 1);
        }
        let c = s.get_char(i);
        if c == '\n' {
            line = line + 1;
            col = 0;
        } else {
            col = col + 1;
        }
        i = i + 1;
    }
    Some(TextPosition { line, col })
}

/// Lexicographic order on (line, column) positions.
pub open spec fn lex_le(a: TextPosition, b: TextPosition) -> bool {
    a.line < b.line || (a.line == b.line && a.col <= b.col)
}

/// Resolution is monotone: a later offset never resolves to an earlier
/// (line, column) pair.
pub proof fn lemma_position_monotone(content: Seq<char>, s: int, e: int)
    requires
        0 <= s <= e,
    ensures
        line_at(content, s) <= line_at(content, e),
        line_at(content, s) == line_at(content, e) ==> col_at(content, s) <= col_at(content, e),
    decreases e - s,
{
    if s < e {
        lemma_position_monotone(content, s, e - 1);
    }
}

/// Every span resolved from a fact whose file text is available and whose
/// offsets satisfy `start <= end` within that text has its start position at
/// or before its end position in (line, column) lexicographic order.
pub proof fn lemma_located_span_ordered(f: DiagnosticFactView, c: Seq<char>)
    requires
        f.file_content == Some(c),
        f.start <= f.end,
        f.end <= c.len(),
    ensures
        lex_le(located_span(f).start, located_span(f).end),
{
    lemma_position_bounds(c, f.start as int);
    lemma_position_bounds(c, f.end as int);
    lemma_position_monotone(c, f.start as int, f.end as int);
}

/// Position of offset `off` once degradation is applied: a missing file text
/// or an out-of-range offset yields position `(0, 0)` instead of failing.
pub open spec fn resolved_position(content: Option<Seq<char>>, off: usize) -> TextPosition {
    match content {
        Some(c) => match position_at_spec(c, off) {
            Some(p) => p,
            None => TextPosition { line: 0, col: 0 },
        },
        None => TextPosition { line: 0, col: 0 },
    }
}

/// The source span a diagnostic fact resolves to: both offsets resolved
/// against the owning file's text, degrading to `(0, 0)` where resolution
/// fails.
pub open spec fn located_span(f: DiagnosticFactView) -> CairoLocationView {
    CairoLocationView {
        file_name: f.file_name,
        start: resolved_position(f.file_content, f.start),
        end: resolved_position(f.file_content, f.end),
    }
}

/// Resolves one diagnostic fact into a concrete source span.
///
/// A resolution failure (file text unavailable, or an offset beyond the end
/// of the text) degrades that position to `(0, 0)`; it never fails the pass.
pub fn resolve_location(fact: &DiagnosticFact) -> (r: CairoLocation)
    ensures
        r@ == located_span(fact@),
{
    let start: TextPosition;
    let end: TextPosition;
    match &fact.file_content {
        Some(c) => {
            start = match position_at(c, fact.start) {
                Some(p) => p,
                None => TextPosition { line: 0, col: 0 },
            };
            end = match position_at(c, fact.end) {
                Some(p) => p,
                None => TextPosition { line: 0, col: 0 },
            };
        },
        None => {
            start = TextPosition { line: 0, col: 0 };
            end = TextPosition { line: 0, col: 0 };
        },
    }
    CairoLocation { file_name: fact.file_name.clone(), start, end }
}

/// The dense per-statement table: the record of statement `i` sits at
/// position `i`, so the table having exactly one record per statement index
/// is a structural property of the container.
pub type SierraCairoInfoMapping = Vec<CairoInfo>;

/// The statement-side compilation result: the dense per-statement table and
/// the captured text of the synthesized contract source, if one was seen.
#[derive(Debug, Clone, PartialEq, Eq)]
pub struct SierraCairoStatement {
    pub contract_code: String,
    pub sierra_cairo_statement_info: SierraCairoInfoMapping,
}

/// The compiled program's debug-location surface: the captured contract text
/// and the per-statement table, as handed to callers of the compilation pass.
#[derive(Debug, Clone, PartialEq, Eq)]
pub struct FullProgram {
    pub contract: String,
    pub sierra_cairo_info_mapping: SierraCairoInfoMapping,
}

/// The statement-side surface of a contract compilation: the per-statement
/// table. The compiled contract class itself belongs to the external
/// toolchain and is carried outside this library.
#[derive(Debug, Clone, PartialEq, Eq)]
pub struct ContractFullProgram {
    pub sierra_cairo_info_mapping: SierraCairoInfoMapping,
}

/// Groups the diagnostics reported by the front end, each a pair of a
/// statement index and one location fact, into per-statement fact lists.
/// Keys keep first-occurrence order; each list keeps the reported order.
pub fn get_diagnostic_locations(reported: Vec<(u64, DiagnosticFact)>) -> (r: Vec<
    (u64, Vec<DiagnosticFact>),
>)
    ensures
        r.deep_view() == group_pairs(reported.deep_view()),
{
    group_by_key(reported)
}

/// The name of the designated synthesized source file whose text is captured
/// as the fallback rendering of generated code.
pub open spec fn contract_marker() -> Seq<char> {
    "contract"@
}

/// Whether `name` is the designated synthesized contract file's name.
pub fn is_contract_file(name: &String) -> (r: bool)
    ensures
        r == (name@ == contract_marker()),
{
    let marker: String = "contract".to_owned();
    name.eq(&marker)
}

/// The record the dense table holds for statement `i`: the first function
/// name reported for `i`, and the resolved spans of the facts reported for
/// `i`, in their reported order.
pub open spec fn statement_record(
    i: int,
    names: Seq<(u64, Seq<char>)>,
    locations: Seq<(u64, Seq<DiagnosticFactView>)>,
) -> CairoInfoView {
    CairoInfoView {
        fn_name: lookup(names, i as u64),
        cairo_locations: match lookup(locations, i as u64) {
            Some(fs) => fs.map_values(|f: DiagnosticFactView| located_span(f)),
            None => Seq::empty(),
        },
    }
}

/// The text of the first fact in `fs` that references the synthesized
/// contract file and has its text available, if any.
pub open spec fn contract_of_facts(fs: Seq<DiagnosticFactView>) -> Option<Seq<char>>
    decreases fs.len(),
{
    if fs.len() == 0 {
        None
    } else {
        match contract_of_facts(fs.drop_last()) {
            Some(c) => Some(c),
            None => {
                let f = fs.last();
                if f.is_virtual && f.file_name == contract_marker() && f.file_content is Some {
                    f.file_content
                } else {
                    None
                }
            },
        }
    }
}

/// The first of two capture outcomes that succeeded, if either did.
pub open spec fn or_else(a: Option<Seq<char>>, b: Option<Seq<char>>) -> Option<Seq<char>> {
    if a is Some {
        a
    } else {
        b
    }
}

/// The contract text captured after statements `0 .. n` were processed: the
/// first qualifying fact in the processing order (statements by index, each
/// statement's facts in their reported order).
pub open spec fn captured_upto(
    n: int,
    locations: Seq<(u64, Seq<DiagnosticFactView>)>,
) -> Option<Seq<char>>
    decreases n,
{
    if n <= 0 {
        None
    } else {
        or_else(
            captured_upto(n - 1, locations),
            match lookup(locations, (n - 1) as u64) {
                Some(fs) => contract_of_facts(fs),
                None => None,
            },
        )
    }
}

/// The captured contract text as a caller sees it: the capture's text, or
/// empty when no statement's facts referenced the synthesized contract file.
pub open spec fn contract_code_spec(
    n: int,
    locations: Seq<(u64, Seq<DiagnosticFactView>)>,
) -> Seq<char> {
    match captured_upto(n, locations) {
        Some(c) => c,
        None => Seq::empty(),
    }
}

/// Folds the sparse per-statement facts into the dense statement table.
///
/// The table covers every statement index in `0 .. no_of_statements`, whether
/// or not any fact mentions it: a statement without facts gets a record with
/// no function name and no spans. Span resolution failures degrade that span's
/// positions to `(0, 0)` and never fail the pass. As a side effect the text
/// of the designated synthesized contract file is captured from the first
/// fact that references it.
pub fn generate_sierra_to_cairo_statement_info(
    no_of_statements: usize,
    statements_functions_map: &Vec<(u64, String)>,
    diagnostic_locations: &Vec<(u64, Vec<DiagnosticFact>)>,
) -> (r: SierraCairoStatement)
    ensures
        r.sierra_cairo_statement_info@.len() == no_of_statements,
        forall|i: int|
            0 <= i < no_of_statements ==> #[trigger] r.sierra_cairo_statement_info@[i]@
                == statement_record(
                i,
                statements_functions_map.deep_view(),
                diagnostic_locations.deep_view(),
            ),
        r.contract_code@ == contract_code_spec(
            no_of_statements as int,
            diagnostic_locations.deep_view(),
        ),
{
    let ghost names = statements_functions_map.deep_view();
    let ghost locs = diagnostic_locations.deep_view();
    let mut info: Vec<CairoInfo> = Vec::new();
    let mut contract_content: Option<String> = None;
    let mut idx: usize = 0;
    while idx < no_of_statements
        invariant
            idx <= no_of_statements,
            names == statements_functions_map.deep_view(),
            locs == diagnostic_locations.deep_view(),
            info@.len() == idx,
            forall|i: int|
                0 <= i < idx ==> #[trigger] info@[i]@ == statement_record(i, names, locs),
            contract_content.deep_view() == captured_upto(idx as int, locs),
        decreases no_of_statements - idx,
    {
        let fn_name = match lookup_ref(statements_functions_map, idx as u64) {
            Some(name) => Some(name.clone()),
            None => None,
        };
        let mut cairo_locations: Vec<CairoLocation> = Vec::new();
        let ghost captured_before = contract_content.deep_view();
        match lookup_ref(diagnostic_locations, idx as u64) {
            Some(fs) => {
                let ghost fsv = fs.deep_view();
                let mut j: usize = 0;
                while j < fs.len()
                    invariant
                        0 <= j <= fs@.len(),
                        fsv == fs.deep_view(),
                        fsv.len() == fs@.len(),
                        cairo_locations.deep_view() =~= fsv.take(j as int).map_values(
                            |f: DiagnosticFactView| located_span(f),
                        ),
                        contract_content.deep_view() == or_else(
                            captured_before,
                            contract_of_facts(fsv.take(j as int)),
                        ),
                    decreases fs@.len() - j,
                {
                    proof {
                        assert(fsv[j as int] == fs@[j as int].deep_view());
                    }
                    let fact = &fs[j];
                    if contract_content.is_none() && fact.is_virtual && is_contract_file(
                        &fact.file_name,
                    ) {
                        match &fact.file_content {
                            Some(c) => {
                                contract_content = Some(c.clone());
                            },
                            None => {},
                        }
                    }
                    let loc = resolve_location(fact);
                    let ghost cl_before = cairo_locations@;
                    let ghost cl_dv_before = cairo_locations.deep_view();
                    proof {
                        assert(cl_dv_before.len() == cl_before.len());
                        assert(forall|l: int|
                            0 <= l < cl_before.len() ==> cl_dv_before[l]
                                == #[trigger] cl_before[l].deep_view());
                        assert(cl_before.len() == j);
                    }
                    cairo_locations.push(loc);
                    proof {
                        assert(fsv.take(j + 1).drop_last() =~= fsv.take(j as int));
                        assert(fsv.take(j + 1).last() == fsv[j as int]);
                        assert(cairo_locations@ == cl_before.push(loc));
                        assert forall|l: int| 0 <= l < j + 1 implies cairo_locations.deep_view()[l]
                            == fsv.take(j + 1).map_values(|f: DiagnosticFactView| located_span(f))[l]
                        by {
                            assert(cairo_locations.deep_view()[l] == cairo_locations@[l].deep_view());
                            if l < j {
                                assert(cairo_locations@[l] == cl_before[l]);
                                assert(cl_before[l].deep_view() == cl_dv_before[l]);
                                assert(cl_dv_before[l] == fsv.take(j as int).map_values(
                                    |f: DiagnosticFactView| located_span(f),
                                )[l]);
                                assert(fsv.take(j as int)[l] == fsv.take(j + 1)[l]);
                            } else {
                                assert(cairo_locations@[l] == loc);
                                assert(loc.deep_view() == located_span(fsv[j as int]));
                                assert(fsv.take(j + 1)[l] == fsv[j as int]);
                            }
                        }
                        assert(cairo_locations.deep_view().len() == j + 1);
                        assert(cairo_locations.deep_view() =~= fsv.take(j + 1).map_values(
                            |f: DiagnosticFactView| located_span(f),
                        ));
                    }
                    j = j + 1;
                }
                proof {
                    assert(fsv.take(fsv.len() as int) =~= fsv);
                }
            },
            None => {},
        }
        info.push(CairoInfo { fn_name, cairo_locations });
        proof {
            assert(info@[idx as int]@ == statement_record(idx as int, names, locs));
            assert(contract_content.deep_view() == captured_upto(idx + 1 as int, locs));
        }
        idx = idx + 1;
    }
    let contract_code = match contract_content {
        Some(c) => c,
        None => String::new(),
    };
    SierraCairoStatement { contract_code, sierra_cairo_statement_info: info }
}

} // verus!
