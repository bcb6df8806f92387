use cairo_trace::casm_sierra::{
    build_casm_sierra_mapping, encode_casm_instructions, get_casm_sierra_mapping_instructions,
    to_hex_text, ApUpdateI, AssembledInstruction, FpUpdateI, InstructionRepr, Op1AddrI, OpcodeI,
    PcUpdateI, RegisterI, ResI,
};

fn repr(imm: Option<u128>) -> InstructionRepr {
    InstructionRepr {
        off0: -1,
        off1: 0,
        off2: 1,
        imm,
        dst_register: RegisterI::AP,
        op0_register: RegisterI::FP,
        op1_addr: if imm.is_some() { Op1AddrI::Imm } else { Op1AddrI::AP },
        res: ResI::Op1,
        pc_update: PcUpdateI::Regular,
        ap_update: ApUpdateI::Add1,
        fp_update: FpUpdateI::Regular,
        opcode: OpcodeI::AssertEq,
    }
}

#[test]
fn hex_rendering_matches_listing_format() {
    assert_eq!(to_hex_text(0), "0x0");
    assert_eq!(to_hex_text(74), "0x4a");
    assert_eq!(to_hex_text(0x208B7FFF7FFF7FFE), "0x208b7fff7fff7ffe");
    assert_eq!(to_hex_text(u128::MAX), "0xffffffffffffffffffffffffffffffff");
}

#[test]
fn immediate_instruction_encodes_to_two_words() {
    // One instruction with an immediate operand occupies two words: the first
    // carries the structural view, the second carries none.
    let ins = AssembledInstruction { words: vec![0x4806800000000000, 10], repr: repr(Some(10)) };
    let words = encode_casm_instructions(&vec![ins]);
    assert_eq!(words.len(), 2);
    assert_eq!(words[0].instruction_index, 0);
    assert_eq!(words[1].instruction_index, 0);
    assert_eq!(words[0].memory, "0x4806800000000000");
    assert_eq!(words[1].memory, "0xa");
    assert!(words[0].instruction_representation.is_some());
    assert!(words[1].instruction_representation.is_none());
    assert_eq!(words[0].instruction_representation, Some(repr(Some(10))));
}

#[test]
fn word_count_is_preserved_across_instructions() {
    // Three instructions encoding to 1, 2 and 1 words give 4 entries, and for
    // each ordinal exactly the first entry carries the structural view.
    let stream = vec![
        AssembledInstruction { words: vec![7], repr: repr(None) },
        AssembledInstruction { words: vec![8, 9], repr: repr(Some(9)) },
        AssembledInstruction { words: vec![11], repr: repr(None) },
    ];
    let words = encode_casm_instructions(&stream);
    assert_eq!(words.len(), 4);
    let indices: Vec<usize> = words.iter().map(|w| w.instruction_index).collect();
    assert_eq!(indices, vec![0, 1, 1, 2]);
    for (j, w) in words.iter().enumerate() {
        let first = indices[..j].iter().all(|i| *i != w.instruction_index);
        assert_eq!(w.instruction_representation.is_some(), first);
    }
}

#[test]
fn mapping_inverts_annotations_in_order() {
    // Statements 0..5 were compiled into instructions [0, 0, 1, 3, 1].
    let annotations = vec![0u64, 0, 1, 3, 1];
    let mapping = build_casm_sierra_mapping(&annotations);
    assert_eq!(mapping.len(), 3);
    assert_eq!(mapping[0], (0, vec![0, 1]));
    assert_eq!(mapping[1], (1, vec![2, 4]));
    assert_eq!(mapping[2], (3, vec![3]));
}

#[test]
fn both_tables_are_built_together() {
    let stream = vec![AssembledInstruction { words: vec![5], repr: repr(None) }];
    let annotations = vec![0u64];
    let tables = get_casm_sierra_mapping_instructions(&stream, &annotations);
    assert_eq!(tables.casm_instructions.len(), 1);
    assert_eq!(tables.casm_instructions[0].memory, "0x5");
    assert_eq!(tables.casm_sierra_mapping, vec![(0, vec![0])]);
}
