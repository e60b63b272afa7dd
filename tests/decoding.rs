use embedded_wasm::{
    ErrorKind, ExportDesc, FuncIdx, ImportDescription, Instruction, LaneIdx, MemArg, NumType, Reader, RefType, TypeIdx,
    ValType, VectorInstruction, Wasm,
};

const HEADER: [u8; 8] = [0x00, 0x61, 0x73, 0x6D, 0x01, 0x00, 0x00, 0x00];

fn with_sections(sections: &[(u8, Vec<u8>)]) -> Vec<u8> {
    let mut out = HEADER.to_vec();
    for (id, payload) in sections {
        out.push(*id);
        out.push(payload.len() as u8);
        out.extend_from_slice(payload);
    }
    out
}

fn parse_error(bytes: &[u8]) -> (ErrorKind, usize) {
    let err = Wasm::parse(bytes).unwrap_err();
    (err.kind, err.offset())
}

fn instruction_err(bytes: &[u8]) -> (ErrorKind, usize) {
    instruction(bytes).unwrap_err()
}

fn instruction(bytes: &[u8]) -> Result<Instruction, (ErrorKind, usize)> {
    let mut reader = Reader::new(bytes);
    Instruction::parse(&mut reader).map_err(|e| (e.kind, e.offset()))
}

#[test]
fn truncated_header_is_end_of_file() {
    assert_eq!(parse_error(&[0x00, 0x61, 0x73]), (ErrorKind::EndOfFile, 0));
    assert_eq!(parse_error(&[0x00, 0x61, 0x73, 0x6D, 0x01]), (ErrorKind::EndOfFile, 4));
}

#[test]
fn truncated_section_is_end_of_file() {
    let mut bytes = HEADER.to_vec();
    bytes.extend_from_slice(&[0x01, 0x05, 0x01]);
    let (kind, offset) = parse_error(&bytes);
    assert_eq!(kind, ErrorKind::EndOfFile);
    assert_eq!(offset, 10);
    assert!(offset <= bytes.len());
    let mut bytes = HEADER.to_vec();
    bytes.push(0x01);
    assert_eq!(parse_error(&bytes), (ErrorKind::EndOfFile, 9));
}

#[test]
fn type_section_decodes() {
    let bytes = with_sections(&[(1, vec![0x02, 0x60, 0x02, 0x7F, 0x7E, 0x01, 0x7D, 0x60, 0x00, 0x01, 0x6F])]);
    let wasm = Wasm::parse(&bytes).unwrap();
    assert_eq!(wasm.types.len(), 2);
    assert_eq!(wasm.types[0].lhs, vec![ValType::Num(NumType::I32), ValType::Num(NumType::I64)]);
    assert_eq!(wasm.types[0].rhs, vec![ValType::Num(NumType::F32)]);
    assert!(wasm.types[1].lhs.is_empty());
    assert_eq!(wasm.types[1].rhs, vec![ValType::Ref(RefType::ExternRef)]);
}

#[test]
fn bad_type_header() {
    let bytes = with_sections(&[(1, vec![0x01, 0x61, 0x00, 0x00])]);
    assert_eq!(parse_error(&bytes), (ErrorKind::InvalidTypeHeader, 11));
}

#[test]
fn unknown_section_id() {
    let bytes = with_sections(&[(13, vec![0x00])]);
    assert_eq!(parse_error(&bytes), (ErrorKind::InvalidSection, 8));
}

#[test]
fn repeated_section_is_refused() {
    let ty = vec![0x01, 0x60, 0x00, 0x00];
    let bytes = with_sections(&[(1, ty.clone()), (1, ty)]);
    assert_eq!(parse_error(&bytes), (ErrorKind::InvalidSection, 14));
}

#[test]
fn custom_section_is_skipped() {
    let bytes = with_sections(&[(0, vec![0x01, b'x', 0xAA, 0xBB])]);
    let wasm = Wasm::parse(&bytes).unwrap();
    assert!(wasm.types.is_empty());
}

#[test]
fn unknown_val_type() {
    let bytes = with_sections(&[(1, vec![0x01, 0x60, 0x01, 0x7B, 0x00])]);
    assert_eq!(parse_error(&bytes), (ErrorKind::UnknownValType, 13));
}

#[test]
fn unknown_export_description() {
    let bytes = with_sections(&[(7, vec![0x01, 0x01, b'f', 0x04, 0x00])]);
    assert_eq!(parse_error(&bytes), (ErrorKind::UnknownExportDescription, 13));
}

#[test]
fn exports_of_each_kind() {
    let bytes = with_sections(&[(7, vec![0x02, 0x01, b'f', 0x00, 0x03, 0x01, b'g', 0x03, 0x02])]);
    let wasm = Wasm::parse(&bytes).unwrap();
    assert_eq!(wasm.exports[0].name, "f");
    assert!(matches!(wasm.exports[0].desc, ExportDesc::Function(FuncIdx(3))));
    assert_eq!(wasm.exports[1].name, "g");
    assert!(matches!(wasm.exports[1].desc, ExportDesc::Global(_)));
}

#[test]
fn unknown_import_description() {
    let bytes = with_sections(&[(2, vec![0x01, 0x01, b'm', 0x01, b'f', 0x07, 0x00])]);
    assert_eq!(parse_error(&bytes), (ErrorKind::UnknownImportDescription, 15));
}

#[test]
fn import_decodes() {
    let bytes = with_sections(&[(2, vec![0x01, 0x01, b'm', 0x01, b'f', 0x00, 0x02])]);
    let wasm = Wasm::parse(&bytes).unwrap();
    assert_eq!(wasm.imports[0].name.namespace, "m");
    assert_eq!(wasm.imports[0].name.name, "f");
    assert_eq!(wasm.imports[0].desc, ImportDescription::Type(TypeIdx(2)));
}

#[test]
fn invalid_utf8_name() {
    let bytes = with_sections(&[(7, vec![0x01, 0x01, 0xFF, 0x00, 0x00])]);
    assert_eq!(parse_error(&bytes), (ErrorKind::InvalidUtf8, 11));
}

#[test]
fn code_without_terminator() {
    let bytes = with_sections(&[(10, vec![0x01, 0x02, 0x00, 0x01])]);
    assert_eq!(parse_error(&bytes), (ErrorKind::InvalidCode, 13));
}

#[test]
fn code_with_locals() {
    let bytes = with_sections(&[(10, vec![0x01, 0x06, 0x02, 0x02, 0x7F, 0x01, 0x7E, 0x0B])]);
    let wasm = Wasm::parse(&bytes).unwrap();
    assert_eq!(wasm.code[0].locals, vec![(2, ValType::Num(NumType::I32)), (1, ValType::Num(NumType::I64))]);
    assert!(wasm.code[0].expr.is_empty());
}

#[test]
fn unknown_ref_type() {
    let bytes = with_sections(&[(4, vec![0x01, 0x71, 0x00, 0x01])]);
    assert_eq!(parse_error(&bytes), (ErrorKind::UnknownRefType, 11));
}

#[test]
fn table_and_memory_limits() {
    let bytes = with_sections(&[(4, vec![0x01, 0x70, 0x01, 0x01, 0x05]), (5, vec![0x01, 0x00, 0x02])]);
    let wasm = Wasm::parse(&bytes).unwrap();
    assert_eq!(wasm.tables[0].reftype, RefType::FuncRef);
    assert_eq!(wasm.tables[0].limits.min.0, 1);
    assert_eq!(wasm.tables[0].limits.max.map(|p| p.0), Some(5));
    assert_eq!(wasm.memories[0].0.min.0, 2);
    assert_eq!(wasm.memories[0].0.max, None);
    assert_eq!(wasm.memories[0].0.min.bytes(), 131072);
}

#[test]
fn global_and_data_segments() {
    let bytes = with_sections(&[
        (6, vec![0x01, 0x7F, 0x01, 0x41, 0x2A, 0x0B]),
        (11, vec![0x02, 0x00, 0x41, 0x04, 0x0B, 0x02, 0xAB, 0xCD, 0x01, 0x01, 0xEE]),
    ]);
    let wasm = Wasm::parse(&bytes).unwrap();
    assert!(wasm.globals[0].mutable);
    assert!(matches!(wasm.globals[0].init[..], [Instruction::I32Const(42)]));
    assert_eq!(wasm.data.len(), 2);
    assert!(matches!(wasm.data[0].expression.as_deref(), Some([Instruction::I32Const(4)])));
    assert_eq!(wasm.data[0].bytes, &[0xAB, 0xCD]);
    assert!(wasm.data[1].expression.is_none());
    assert_eq!(wasm.data[1].bytes, &[0xEE]);
}

#[test]
fn duplicate_else() {
    assert_eq!(instruction_err(&[0x04, 0x40, 0x05, 0x05, 0x0B]), (ErrorKind::DuplicateElse, 3));
}

#[test]
fn if_else_decodes_both_branches() {
    match instruction(&[0x04, 0x40, 0x01, 0x05, 0x00, 0x01, 0x0B]).unwrap() {
        Instruction::IfElse { if_inner, else_inner, .. } => {
            assert!(matches!(if_inner[..], [Instruction::Nop]));
            assert!(matches!(else_inner[..], [Instruction::Unreachable, Instruction::Nop]));
        },
        _ => panic!("expected an if-else"),
    }
    assert!(matches!(instruction(&[0x04, 0x40, 0x01, 0x0B]).unwrap(), Instruction::If { .. }));
}

#[test]
fn unknown_instruction() {
    assert_eq!(instruction_err(&[0x06]), (ErrorKind::UnknownInstruction, 0));
}

#[test]
fn terminator_is_not_an_instruction() {
    assert_eq!(instruction_err(&[0x0B]), (ErrorKind::UnknownInstruction, 0));
    match instruction(&[0x02, 0x40, 0x01, 0x0B]).unwrap() {
        Instruction::Block { inner, .. } => assert!(matches!(inner[..], [Instruction::Nop])),
        _ => panic!("expected a block"),
    }
}

#[test]
fn unterminated_block() {
    assert_eq!(instruction_err(&[0x02, 0x40, 0x01]), (ErrorKind::EndOfFile, 3));
}

#[test]
fn other_block_types_are_refused() {
    assert_eq!(instruction_err(&[0x02, 0x7F, 0x0B]), (ErrorKind::UnknownInstruction, 1));
}

#[test]
fn reserved_byte_must_be_zero() {
    assert!(matches!(instruction(&[0x3F, 0x00]), Ok(Instruction::MemorySize)));
    assert_eq!(instruction_err(&[0x40, 0x01]), (ErrorKind::UnknownInstruction, 1));
    assert!(matches!(instruction(&[0xFC, 0x0A, 0x00, 0x00]), Ok(Instruction::MemoryCopy)));
}

#[test]
fn unknown_extended_instruction() {
    assert_eq!(instruction_err(&[0xFC, 0x12]), (ErrorKind::UnknownExtendedInstruction, 1));
    assert!(matches!(instruction(&[0xFC, 0x00]), Ok(Instruction::I32TruncSatF32Signed)));
    assert!(matches!(
        instruction(&[0xFC, 0x0E, 0x01, 0x02]),
        Ok(Instruction::TableCopy { x, y }) if x.0 == 1 && y.0 == 2
    ));
}

#[test]
fn unknown_vector_instruction() {
    assert_eq!(instruction_err(&[0xFD, 0x9A, 0x01]), (ErrorKind::UnknownVectorInstruction, 1));
}

#[test]
fn vector_instructions_decode() {
    assert!(matches!(
        instruction(&[0xFD, 0x15, 0x03]),
        Ok(Instruction::Vector(VectorInstruction::I8x16ExtractLane(LaneIdx(3), _)))
    ));
    assert_eq!(instruction_err(&[0xFD, 0x1D, 0x02]), (ErrorKind::InvalidLaneIndex { max: 2 }, 2));
    assert!(matches!(
        instruction(&[0xFD, 0x00, 0x04, 0x10]),
        Ok(Instruction::Vector(VectorInstruction::V128Load(MemArg { align: 4, offset: 16 })))
    ));
    let mut bytes = vec![0xFD, 0x0C];
    bytes.extend((1u8..=16).collect::<Vec<u8>>());
    match instruction(&bytes).unwrap() {
        Instruction::Vector(VectorInstruction::V128Const(v)) => assert_eq!(v, u128::from_le_bytes(bytes[2..18].try_into().unwrap())),
        _ => panic!("expected a vector constant"),
    }
    let mut bytes = vec![0xFD, 0x0D];
    bytes.extend((0u8..16).collect::<Vec<u8>>());
    match instruction(&bytes).unwrap() {
        Instruction::Vector(VectorInstruction::I8x16Shuffle(v)) => assert_eq!(v, u128::from_le_bytes(bytes[2..18].try_into().unwrap())),
        _ => panic!("expected a shuffle"),
    }
    bytes[10] = 16;
    assert_eq!(instruction_err(&bytes), (ErrorKind::InvalidLaneIndex { max: 16 }, 10));
}

#[test]
fn constants_decode() {
    assert!(matches!(instruction(&[0x41, 0x7F]), Ok(Instruction::I32Const(-1))));
    assert!(matches!(instruction(&[0x42, 0x80, 0x01]), Ok(Instruction::I64Const(128))));
    assert!(matches!(instruction(&[0x43, 0x00, 0x00, 0x80, 0x3F]), Ok(Instruction::F32Const(0x3F80_0000))));
    assert!(matches!(
        instruction(&[0x44, 0, 0, 0, 0, 0, 0, 0xF0, 0x3F]),
        Ok(Instruction::F64Const(0x3FF0_0000_0000_0000))
    ));
    assert_eq!(1.0f32.to_bits(), 0x3F80_0000);
}

#[test]
fn branch_table_and_typed_select_decode() {
    match instruction(&[0x0E, 0x02, 0x00, 0x01, 0x02]).unwrap() {
        Instruction::BranchTable { labels, index } => {
            assert_eq!(labels.iter().map(|l| l.0).collect::<Vec<_>>(), vec![0, 1]);
            assert_eq!(index.0, 2);
        },
        _ => panic!("expected a branch table"),
    }
    match instruction(&[0x1C, 0x01, 0x7F]).unwrap() {
        Instruction::SelectVal { val } => assert_eq!(val, vec![ValType::Num(NumType::I32)]),
        _ => panic!("expected a typed select"),
    }
}

#[test]
fn loads_and_stores_decode() {
    assert!(matches!(
        instruction(&[0x28, 0x02, 0x08]),
        Ok(Instruction::Load { numtype: NumType::I32, memarg: MemArg { align: 2, offset: 8 } })
    ));
    assert!(matches!(instruction(&[0x3E, 0x00, 0x00]), Ok(Instruction::Store32 { numtype: NumType::I64, .. })));
    assert_eq!(instruction_err(&[0x28, 0x02]), (ErrorKind::EndOfFile, 2));
}

#[test]
fn leb_round_trips() {
    for x in [0u64, 1, 127, 128, 300, 0xFFFF_FFFF, u64::MAX] {
        let mut bytes = Vec::new();
        let mut v = x;
        loop {
            let byte = (v & 0x7F) as u8;
            v >>= 7;
            if v == 0 {
                bytes.push(byte);
                break;
            }
            bytes.push(byte | 0x80);
        }
        bytes.push(0xAA);
        let mut reader = Reader::new(&bytes);
        assert_eq!(reader.read_int::<u64>().unwrap(), x);
        assert_eq!(reader.read_u8().unwrap(), 0xAA);
    }
    for x in [0i64, -1, 63, -64, 64, -65, i64::MIN, i64::MAX] {
        let mut bytes = Vec::new();
        let mut v = x;
        loop {
            let byte = (v & 0x7F) as u8;
            v >>= 7;
            if (v == 0 && byte & 0x40 == 0) || (v == -1 && byte & 0x40 != 0) {
                bytes.push(byte);
                break;
            }
            bytes.push(byte | 0x80);
        }
        let mut reader = Reader::new(&bytes);
        assert_eq!(reader.read_int::<i64>().unwrap(), x);
    }
}

#[test]
fn leb_narrow_types() {
    assert_eq!(Reader::new(&[0xFF, 0x01]).read_int::<u8>().unwrap(), 255);
    assert_eq!(Reader::new(&[0x80, 0x02]).read_int::<u8>().unwrap_err().kind, ErrorKind::IntegerOverflow(embedded_wasm::IntType::U8));
    assert_eq!(Reader::new(&[0x80, 0x7F]).read_int::<i8>().unwrap(), -128);
    assert_eq!(Reader::new(&[0xFF, 0x7E]).read_int::<i8>().unwrap_err().kind, ErrorKind::IntegerOverflow(embedded_wasm::IntType::I8));
    assert_eq!(Reader::new(&[0x80]).read_int::<u32>().unwrap_err().kind, ErrorKind::EndOfFile);
}

#[test]
fn reader_slices_and_strings() {
    let bytes = [0x03, b'a', b'b', b'c', 0x07, 0x09, 0x0B, 0x05];
    let mut reader = Reader::new(&bytes);
    assert_eq!(reader.read_str().unwrap(), "abc");
    assert_eq!(reader.read_until(0x0B).unwrap(), &[0x07, 0x09]);
    assert_eq!(reader.remaining(), &[0x05]);
    assert!(!reader.is_empty());
    assert!(reader.read_u8_if(|b| b == 0x05).unwrap());
    assert!(reader.is_empty());
    assert_eq!(reader.read_u8().unwrap_err().kind, ErrorKind::EndOfFile);
    let mut reader = Reader::new(&[0x01, 0x02]);
    assert_eq!(reader.read_until(0x0B).unwrap_err().kind, ErrorKind::EndOfFile);
}

#[test]
fn leb_wide_and_word_types() {
    let mut bytes = vec![0xFF; 18];
    bytes.push(0x03);
    assert_eq!(Reader::new(&bytes).read_int::<u128>().unwrap(), u128::MAX);
    let mut over = vec![0xFF; 18];
    over.push(0x04);
    assert_eq!(
        Reader::new(&over).read_int::<u128>().unwrap_err().kind,
        ErrorKind::IntegerOverflow(embedded_wasm::IntType::U128)
    );
    let mut min = vec![0x80; 18];
    min.push(0x7E);
    assert_eq!(Reader::new(&min).read_int::<i128>().unwrap(), i128::MIN);
    let mut max = vec![0xFF; 18];
    max.push(0x01);
    assert_eq!(Reader::new(&max).read_int::<i128>().unwrap(), i128::MAX);
    let mut below = vec![0xFF; 18];
    below.push(0x7D);
    assert_eq!(
        Reader::new(&below).read_int::<i128>().unwrap_err().kind,
        ErrorKind::IntegerOverflow(embedded_wasm::IntType::I128)
    );
    assert_eq!(Reader::new(&[0x7F]).read_int::<i128>().unwrap(), -1);
    assert_eq!(Reader::new(&[0xE5, 0x8E, 0x26]).read_int::<usize>().unwrap(), 624485);
    assert_eq!(Reader::new(&[0xC0, 0xBB, 0x78]).read_int::<isize>().unwrap(), -123456);
    assert_eq!(embedded_wasm::IntType::Usize.name(), "usize");
}

#[test]
fn read_exact_failure_keeps_position() {
    let bytes = [0x01, 0x02];
    let mut reader = Reader::new(&bytes);
    assert_eq!(reader.read_exact(3).unwrap_err().kind, ErrorKind::EndOfFile);
    assert_eq!(reader.remaining(), &[0x01, 0x02]);
}

#[test]
fn read_vec_reads_each_item() {
    let bytes = [0x03, 0x7F, 0x7E, 0x70, 0x00];
    let mut reader = Reader::new(&bytes);
    let v = reader.read_vec(|r: &mut Reader| r.read_val_type()).unwrap();
    assert_eq!(v, vec![ValType::Num(NumType::I32), ValType::Num(NumType::I64), ValType::Ref(RefType::FuncRef)]);
    assert_eq!(reader.remaining(), &[0x00]);
    let bytes = [0x02, 0x7F, 0x01];
    let mut reader = Reader::new(&bytes);
    let err = reader.read_vec(|r: &mut Reader| r.read_val_type()).unwrap_err();
    assert_eq!((err.kind, err.offset()), (ErrorKind::UnknownValType, 2));
}
