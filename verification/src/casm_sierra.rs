//! The instruction-side tables: the flat list of encoded machine words, each
//! annotated with its owning instruction, and the inverted mapping from
//! instruction ordinals to the Sierra statements that produced them.
//!
//! The code generator is an external collaborator; it hands this module the
//! final instruction list, each instruction already assembled into its
//! structural fields and encoded into one or more machine words, together
//! with its per-statement debug annotations.

use vstd::prelude::*;
use vstd::string::StringExecFns;

use crate::grouping::{group_by_key, group_pairs};

verus! {

/// Where the second operand of an instruction is read from.
#[derive(Debug, Clone, Copy, PartialEq, Eq, Structural)]
pub enum Op1AddrI {
    Imm,
    AP,
    FP,
    Op0,
}

/// How an instruction's result value is computed.
#[derive(Debug, Clone, Copy, PartialEq, Eq, Structural)]
pub enum ResI {
    Op1,
    Add,
    Mul,
    Unconstrained,
}

/// How an instruction updates the program counter.
#[derive(Debug, Clone, Copy, PartialEq, Eq, Structural)]
pub enum PcUpdateI {
    Regular,
    Jump,
    JumpRel,
    Jnz,
}

/// How an instruction updates the allocation pointer.
#[derive(Debug, Clone, Copy, PartialEq, Eq, Structural)]
pub enum ApUpdateI {
    Regular,
    Add,
    Add1,
    Add2,
}

/// How an instruction updates the frame pointer.
#[derive(Debug, Clone, Copy, PartialEq, Eq, Structural)]
pub enum FpUpdateI {
    Regular,
    ApPlus2,
    Dst,
}

/// The instruction's opcode class.
#[derive(Debug, Clone, Copy, PartialEq, Eq, Structural)]
pub enum OpcodeI {
    Nop,
    AssertEq,
    Call,
    Ret,
}

/// The register an operand offset is relative to.
#[derive(Debug, Clone, Copy, PartialEq, Eq, Structural)]
pub enum RegisterI {
    AP,
    FP,
}

/// The low level structural view of an assembled instruction: its operand
/// offsets, registers, immediate value if any, and behaviour flags.
#[derive(Debug, Clone, Copy, PartialEq, Eq)]
pub struct InstructionRepr {
    pub off0: i16,
    pub off1: i16,
    pub off2: i16,
    pub imm: Option<u128>,
    pub dst_register: RegisterI,
    pub op0_register: RegisterI,
    pub op1_addr: Op1AddrI,
    pub res: ResI,
    pub pc_update: PcUpdateI,
    pub ap_update: ApUpdateI,
    pub fp_update: FpUpdateI,
    pub opcode: OpcodeI,
}

/// One instruction of the final stream, as the code generator hands it over:
/// its machine-word encoding (one word for a simple instruction, a further
/// word when an immediate operand is present) and its structural view.
#[derive(Debug, Clone, PartialEq, Eq)]
pub struct AssembledInstruction {
    pub words: Vec<u128>,
    pub repr: InstructionRepr,
}

/// Mathematical value of an [`AssembledInstruction`].
#[verifier::ext_equal]
pub struct AssembledInstructionView {
    pub words: Seq<u128>,
    pub repr: InstructionRepr,
}

impl View for AssembledInstruction {
    type V = AssembledInstructionView;

    open spec fn view(&self) -> AssembledInstructionView {
        AssembledInstructionView { words: self.words.deep_view(), repr: self.repr }
    }
}

impl DeepView for AssembledInstruction {
    type V = AssembledInstructionView;

    open spec fn deep_view(&self) -> AssembledInstructionView {
        self.view()
    }
}

/// One encoded machine word of the final stream: the word's value rendered
/// as hexadecimal text, the ordinal of the owning instruction, and, on the
/// first word of each instruction only, the instruction's structural view.
#[derive(Debug, Clone, PartialEq, Eq)]
pub struct CasmInstruction {
    pub memory: String,
    pub instruction_index: usize,
    pub instruction_representation: Option<InstructionRepr>,
}

/// Mathematical value of a [`CasmInstruction`].
#[verifier::ext_equal]
pub struct CasmInstructionView {
    pub memory: Seq<char>,
    pub instruction_index: int,
    pub instruction_representation: Option<InstructionRepr>,
}

impl View for CasmInstruction {
    type V = CasmInstructionView;

    open spec fn view(&self) -> CasmInstructionView {
        CasmInstructionView {
            memory: self.memory@,
            instruction_index: self.instruction_index as int,
            instruction_representation: self.instruction_representation,
        }
    }
}

impl DeepView for CasmInstruction {
    type V = CasmInstructionView;

    open spec fn deep_view(&self) -> CasmInstructionView {
        self.view()
    }
}

/// The hexadecimal digit character of `d`, for `0 <= d < 16`.
pub open spec fn hex_digit(d: int) -> char {
    seq!['0', '1', '2', '3', '4', '5', '6', '7', '8', '9', 'a', 'b', 'c', 'd', 'e', 'f'][d]
}

/// The minimal lowercase hexadecimal digit string of `v`: no leading zeros,
/// and the single digit `0` for zero.
pub open spec fn hex_digits(v: nat) -> Seq<char>
    decreases v,
{
    if v < 16 {
        seq![hex_digit(v as int)]
    } else {
        hex_digits(v / 16) + seq![hex_digit((v % 16) as int)]
    }
}

/// How a machine word is rendered: lowercase hexadecimal text prefixed `0x`.
pub open spec fn hex_text(v: nat) -> Seq<char> {
    seq!['0', 'x'] + hex_digits(v)
}

/// The one-character string slice of one hexadecimal digit.
fn hex_digit_str(d: u8) -> (s: &'static str)
    requires
        d < 16,
    ensures
        s@ == seq![hex_digit(d as int)],
{
    proof {
        reveal_strlit("0");
        reveal_strlit("1");
        reveal_strlit("2");
        reveal_strlit("3");
        reveal_strlit("4");
        reveal_strlit("5");
        reveal_strlit("6");
        reveal_strlit("7");
        reveal_strlit("8");
        reveal_strlit("9");
        reveal_strlit("a");
        reveal_strlit("b");
        reveal_strlit("c");
        reveal_strlit("d");
        reveal_strlit("e");
        reveal_strlit("f");
    }
    let s = if d == 0 {
        "0"
    } else if d == 1 {
        "1"
    } else if d == 2 {
        "2"
    } else if d == 3 {
        "3"
    } else if d == 4 {
        "4"
    } else if d == 5 {
        "5"
    } else if d == 6 {
        "6"
    } else if d == 7 {
        "7"
    } else if d == 8 {
        "8"
    } else if d == 9 {
        "9"
    } else if d == 10 {
        "a"
    } else if d == 11 {
        "b"
    } else if d == 12 {
        "c"
    } else if d == 13 {
        "d"
    } else if d == 14 {
        "e"
    } else {
        "f"
    };
    proof {
        assert(s@ =~= seq![hex_digit(d as int)]);
    }
    s
}

/// The digit string of `v` in lowercase hexadecimal, without the prefix.
fn hex_digits_string(v: u128) -> (r: String)
    ensures
        r@ == hex_digits(v as nat),
    decreases v,
{
    if v < 16 {
        hex_digit_str(v as u8).to_owned()
    } else {
        let mut r = hex_digits_string(v / 16);
        r.append(hex_digit_str((v % 16) as u8));
        r
    }
}

/// Renders a machine word the way the flat listing shows it: lowercase
/// hexadecimal text prefixed `0x`, without leading zeros.
pub fn to_hex_text(v: u128) -> (r: String)
    ensures
        r@ == hex_text(v as nat),
{
    proof {
        reveal_strlit("0x");
        assert(("0x")@ =~= seq!['0', 'x']);
    }
    let mut r: String = "0x".to_owned();
    let digits = hex_digits_string(v);
    r.append(digits.as_str());
    r
}

/// The encoded words one instruction contributes to the flat listing: one
/// entry per machine word, all owned by ordinal `idx`, the first entry alone
/// carrying the structural view.
pub open spec fn instruction_words(ins: AssembledInstructionView, idx: int) -> Seq<
    CasmInstructionView,
> {
    Seq::new(
        ins.words.len(),
        |j: int|
            CasmInstructionView {
                memory: hex_text(ins.words[j] as nat),
                instruction_index: idx,
                instruction_representation: if j == 0 {
                    Some(ins.repr)
                } else {
                    None
                },
            },
    )
}

/// The whole flat listing: each instruction's words in order, instruction by
/// instruction.
pub open spec fn encoded_words(instrs: Seq<AssembledInstructionView>) -> Seq<CasmInstructionView>
    decreases instrs.len(),
{
    if instrs.len() == 0 {
        Seq::empty()
    } else {
        encoded_words(instrs.drop_last()) + instruction_words(instrs.last(), instrs.len() - 1)
    }
}

/// The total number of machine words the instruction stream encodes to.
pub open spec fn total_word_count(instrs: Seq<AssembledInstructionView>) -> int
    decreases instrs.len(),
{
    if instrs.len() == 0 {
        0
    } else {
        total_word_count(instrs.drop_last()) + instrs.last().words.len()
    }
}

/// The flat listing has exactly as many entries as the instruction stream
/// has encoded machine words: re-shaping loses and invents nothing.
pub proof fn lemma_encoded_word_total(instrs: Seq<AssembledInstructionView>)
    ensures
        encoded_words(instrs).len() == total_word_count(instrs),
    decreases instrs.len(),
{
    if instrs.len() > 0 {
        lemma_encoded_word_total(instrs.drop_last());
    }
}

/// Whether position `j` is the first entry of its owning instruction in the
/// flat listing (the entry at the lowest word offset for that ordinal).
pub open spec fn is_first_of_instruction(words: Seq<CasmInstructionView>, j: int) -> bool {
    forall|l: int| 0 <= l < j ==> words[l].instruction_index != words[j].instruction_index
}

/// Every entry of the flat listing is owned by an instruction of the stream.
proof fn lemma_encoded_index_bound(instrs: Seq<AssembledInstructionView>)
    ensures
        forall|j: int|
            0 <= j < encoded_words(instrs).len() ==> #[trigger] encoded_words(
                instrs,
            )[j].instruction_index < instrs.len(),
    decreases instrs.len(),
{
    if instrs.len() > 0 {
        lemma_encoded_index_bound(instrs.drop_last());
    }
}

/// Re-shaping keeps the stream's order: the owning ordinals of the flat
/// listing never decrease, so each instruction's words stay together and
/// instructions stay in their given order.
pub proof fn lemma_encoded_order_kept(instrs: Seq<AssembledInstructionView>)
    ensures
        forall|j: int, l: int|
            0 <= j < l < encoded_words(instrs).len() ==> encoded_words(
                instrs,
            )[j].instruction_index <= encoded_words(instrs)[l].instruction_index,
    decreases instrs.len(),
{
    if instrs.len() > 0 {
        let prefix = instrs.drop_last();
        let wp = encoded_words(prefix);
        lemma_encoded_order_kept(prefix);
        lemma_encoded_index_bound(prefix);
        assert(forall|l: int| 0 <= l < wp.len() ==> encoded_words(instrs)[l] == wp[l]);
    }
}

/// Of the entries owned by one instruction, exactly the first carries the
/// structural view: an entry has a view if and only if no earlier entry is
/// owned by the same ordinal.
pub proof fn lemma_structural_view_first(instrs: Seq<AssembledInstructionView>)
    ensures
        forall|j: int|
            0 <= j < encoded_words(instrs).len() ==> (#[trigger] encoded_words(
                instrs,
            )[j].instruction_representation is Some <==> is_first_of_instruction(
                encoded_words(instrs),
                j,
            )),
    decreases instrs.len(),
{
    if instrs.len() > 0 {
        let prefix = instrs.drop_last();
        let w = encoded_words(instrs);
        let wp = encoded_words(prefix);
        let blk = instruction_words(instrs.last(), instrs.len() - 1);
        lemma_structural_view_first(prefix);
        lemma_encoded_index_bound(prefix);
        assert(forall|l: int| 0 <= l < wp.len() ==> w[l] == wp[l]);
        assert(forall|p: int| 0 <= p < blk.len() ==> w[wp.len() + p] == blk[p]);
        assert forall|j: int| 0 <= j < w.len() implies (#[trigger] w[j].instruction_representation
            is Some <==> is_first_of_instruction(w, j)) by {
            if j < wp.len() {
                assert(w[j].instruction_representation is Some <==> is_first_of_instruction(
                    wp,
                    j,
                ));
                assert(is_first_of_instruction(wp, j) <==> is_first_of_instruction(w, j));
            } else {
                let p = j - wp.len();
                assert(w[j] == blk[p]);
                assert(w[j].instruction_index == instrs.len() - 1);
                if p == 0 {
                    assert(w[j].instruction_representation is Some);
                    assert forall|l: int| 0 <= l < j implies w[l].instruction_index
                        != w[j].instruction_index by {
                        assert(w[l] == wp[l]);
                        assert(wp[l].instruction_index < prefix.len());
                    }
                } else {
                    assert(w[j].instruction_representation is None);
                    assert(w[wp.len() as int].instruction_index == w[j].instruction_index);
                    assert(!is_first_of_instruction(w, j));
                }
            }
        }
    }
}

/// Re-shapes the final instruction stream into the flat listing of encoded
/// machine words.
///
/// Each instruction contributes one entry per machine word of its encoding,
/// every entry annotated with the owning instruction's ordinal; the first
/// entry of each instruction carries the structural view, later entries of
/// the same instruction carry none. Instruction count and order are kept.
pub fn encode_casm_instructions(instructions: &Vec<AssembledInstruction>) -> (r: Vec<
    CasmInstruction,
>)
    ensures
        r.deep_view() == encoded_words(instructions.deep_view()),
{
    let ghost idv = instructions.deep_view();
    let mut r: Vec<CasmInstruction> = Vec::new();
    let mut i: usize = 0;
    while i < instructions.len()
        invariant
            0 <= i <= instructions@.len(),
            idv == instructions.deep_view(),
            idv.len() == instructions@.len(),
            r.deep_view() =~= encoded_words(idv.take(i as int)),
        decreases instructions@.len() - i,
    {
        let ins = &instructions[i];
        let ghost insv = idv[i as int];
        proof {
            assert(insv == instructions@[i as int].deep_view());
            assert(insv.words == ins.words.deep_view());
        }
        let ghost r_start = r.deep_view();
        let mut j: usize = 0;
        while j < ins.words.len()
            invariant
                0 <= j <= ins.words@.len(),
                insv.words == ins.words.deep_view(),
                insv.repr == ins.repr,
                insv.words.len() == ins.words@.len(),
                r.deep_view() =~= r_start + instruction_words(insv, i as int).take(j as int),
            decreases ins.words@.len() - j,
        {
            let word = ins.words[j];
            proof {
                assert(insv.words[j as int] == word);
            }
            let memory = to_hex_text(word);
            let instruction_representation = if j == 0 {
                Some(ins.repr)
            } else {
                None
            };
            let entry = CasmInstruction { memory, instruction_index: i, instruction_representation };
            let ghost rb_at = r@;
            let ghost r_before = r.deep_view();
            proof {
                assert(r_before.len() == rb_at.len());
                assert(forall|l: int|
                    0 <= l < rb_at.len() ==> r_before[l] == #[trigger] rb_at[l].deep_view());
            }
            r.push(entry);
            proof {
                assert(r@ == rb_at.push(entry));
                assert(entry@ == instruction_words(insv, i as int)[j as int]);
                assert forall|l: int| 0 <= l < r@.len() implies r.deep_view()[l] == (r_start
                    + instruction_words(insv, i as int).take(j + 1))[l] by {
                    assert(r.deep_view()[l] == r@[l].deep_view());
                    if l < rb_at.len() {
                        assert(r@[l] == rb_at[l]);
                        assert(r@[l].deep_view() == r_before[l]);
                    } else {
                        assert(r@[l] == entry);
                    }
                }
                assert(r.deep_view().len() == r@.len());
                assert(r.deep_view() =~= r_start + instruction_words(insv, i as int).take(j + 1));
            }
            j = j + 1;
        }
        proof {
            assert(instruction_words(insv, i as int).take(insv.words.len() as int)
                =~= instruction_words(insv, i as int));
            assert(idv.take(i + 1).drop_last() =~= idv.take(i as int));
            assert(idv.take(i + 1).last() == insv);
            assert(r.deep_view() =~= encoded_words(idv.take(i + 1)));
        }
        i = i + 1;
    }
    proof {
        assert(idv.take(idv.len() as int) =~= idv);
    }
    r
}

/// The per-statement debug annotations, inverted: the pairs
/// `(instruction ordinal of statement s, s)` in statement order.
pub open spec fn annotation_pairs(ann: Seq<u64>) -> Seq<(u64, u64)> {
    Seq::new(ann.len(), |i: int| (ann[i], i as u64))
}

/// Mapping from instruction ordinals to the Sierra statements each one came
/// from, as an ordered sequence of pairs: ordinals in first-occurrence order,
/// each with its statement indices in ascending order.
pub type CasmSierraMapping = Vec<(u64, Vec<u64>)>;

/// Inverts the code generator's per-statement debug annotations (statement
/// `s` was compiled into the instruction at ordinal `statement_instructions[s]`)
/// into the instruction-to-statements table, walking the annotations in their
/// given order and appending each statement to its instruction's entry.
pub fn build_casm_sierra_mapping(statement_instructions: &Vec<u64>) -> (r: CasmSierraMapping)
    ensures
        r.deep_view() == group_pairs(annotation_pairs(statement_instructions.deep_view())),
{
    let ghost ann = statement_instructions.deep_view();
    let mut pairs: Vec<(u64, u64)> = Vec::new();
    let mut i: usize = 0;
    while i < statement_instructions.len()
        invariant
            0 <= i <= statement_instructions@.len(),
            ann == statement_instructions.deep_view(),
            ann.len() == statement_instructions@.len(),
            pairs.deep_view() =~= annotation_pairs(ann).take(i as int),
        decreases statement_instructions@.len() - i,
    {
        let ordinal = statement_instructions[i];
        proof {
            assert(ann[i as int] == ordinal);
        }
        let entry = (ordinal, i as u64);
        let ghost pb_at = pairs@;
        let ghost p_before = pairs.deep_view();
        proof {
            assert(p_before.len() == pb_at.len());
            assert(forall|l: int|
                0 <= l < pb_at.len() ==> p_before[l] == #[trigger] pb_at[l].deep_view());
        }
        pairs.push(entry);
        proof {
            assert(pairs@ == pb_at.push(entry));
            assert(entry.deep_view() == entry);
            assert forall|l: int| 0 <= l < pairs@.len() implies pairs.deep_view()[l]
                == annotation_pairs(ann).take(i + 1)[l] by {
                assert(pairs.deep_view()[l] == pairs@[l].deep_view());
                if l < pb_at.len() {
                    assert(pairs@[l] == pb_at[l]);
                    assert(pairs@[l].deep_view() == p_before[l]);
                } else {
                    assert(pairs@[l] == entry);
                }
            }
            assert(pairs.deep_view().len() == pairs@.len());
            assert(pairs.deep_view() =~= annotation_pairs(ann).take(i + 1));
        }
        i = i + 1;
    }
    proof {
        assert(annotation_pairs(ann).take(ann.len() as int) =~= annotation_pairs(ann));
    }
    group_by_key(pairs)
}

/// Both instruction-side tables of one compilation: the flat encoded-word
/// listing and the instruction-to-statements mapping.
#[derive(Debug, Clone, PartialEq, Eq)]
pub struct CasmSierraMappingInstruction {
    pub casm_instructions: Vec<CasmInstruction>,
    pub casm_sierra_mapping: CasmSierraMapping,
}

/// The instruction-side compilation result: both tables and the textual form
/// of the compiled program.
#[derive(Debug, Clone, PartialEq, Eq)]
pub struct SierraCompile {
    pub casm_sierra_mapping_instruction: CasmSierraMappingInstruction,
    pub casm: String,
}

/// The instruction-side result of a contract compilation: the same two
/// tables, built from the contract class's compiled code.
#[derive(Debug, Clone, PartialEq, Eq)]
pub struct SierraContractCompile {
    pub casm_sierra_mapping_instruction: CasmSierraMappingInstruction,
}

/// Builds both instruction-side tables from the code generator's outputs:
/// the assembled instruction stream and its per-statement debug annotations.
pub fn get_casm_sierra_mapping_instructions(
    instructions: &Vec<AssembledInstruction>,
    statement_instructions: &Vec<u64>,
) -> (r: CasmSierraMappingInstruction)
    ensures
        r.casm_instructions.deep_view() == encoded_words(instructions.deep_view()),
        r.casm_sierra_mapping.deep_view() == group_pairs(
            annotation_pairs(statement_instructions.deep_view()),
        ),
{
    CasmSierraMappingInstruction {
        casm_instructions: encode_casm_instructions(instructions),
        casm_sierra_mapping: build_casm_sierra_mapping(statement_instructions),
    }
}

} // verus!
