use embedded_wasm::{
    BlockType, Dynamic, ErrorKind, ExecErrorKind, Instruction, IntType, LabelIdx, LaneIdx, ProcessAction, Reader,
    Wasm,
};

const HEADER: [u8; 8] = [0x00, 0x61, 0x73, 0x6D, 0x01, 0x00, 0x00, 0x00];

fn module(sections: &[(u8, Vec<u8>)]) -> Vec<u8> {
    let mut out = HEADER.to_vec();
    for (id, payload) in sections {
        out.push(*id);
        out.push(payload.len() as u8);
        out.extend_from_slice(payload);
    }
    out
}

fn single_function(params: &[u8], body: &[u8]) -> Vec<u8> {
    let mut ty = vec![0x01, 0x60, params.len() as u8];
    ty.extend_from_slice(params);
    ty.push(0x00);
    let mut entry = vec![0x00];
    entry.extend_from_slice(body);
    let mut code = vec![0x01, entry.len() as u8];
    code.extend_from_slice(&entry);
    module(&[
        (1, ty),
        (3, vec![0x01, 0x00]),
        (7, vec![0x01, 0x05, b's', b't', b'a', b'r', b't', 0x00, 0x00]),
        (10, code),
    ])
}

fn finished_with(r: ProcessAction) -> Vec<Dynamic> {
    match r {
        ProcessAction::Finished(v) => v,
        _ => panic!("expected the function to finish"),
    }
}

#[test]
fn magic_only() {
    let bytes = HEADER;
    let wasm = Wasm::parse(&bytes).unwrap();
    assert!(wasm.types.is_empty());
    assert!(wasm.imports.is_empty());
    assert!(wasm.functions.is_empty());
    assert!(wasm.tables.is_empty());
    assert!(wasm.memories.is_empty());
    assert!(wasm.globals.is_empty());
    assert!(wasm.exports.is_empty());
    assert!(wasm.code.is_empty());
    assert!(wasm.data.is_empty());
    match wasm.spawn("anything") {
        Err(e) => assert_eq!(e.kind, ExecErrorKind::FunctionNotFound),
        Ok(_) => panic!("nothing is exported"),
    }
}

#[test]
fn bad_magic() {
    let bytes = [0x00, 0x61, 0x73, 0x6E, 0x01, 0x00, 0x00, 0x00];
    let err = Wasm::parse(&bytes).unwrap_err();
    assert_eq!(err.kind, ErrorKind::InvalidHeader);
    assert_eq!(err.offset(), 0);
}

#[test]
fn bad_version() {
    let bytes = [0x00, 0x61, 0x73, 0x6D, 0x02, 0x00, 0x00, 0x00];
    let err = Wasm::parse(&bytes).unwrap_err();
    assert_eq!(err.kind, ErrorKind::InvalidHeader);
    assert_eq!(err.offset(), 4);
}

#[test]
fn minimal_export_and_code() {
    let bytes = single_function(&[0x7F], &[0x20, 0x00, 0x1A, 0x0B]);
    let wasm = Wasm::parse(&bytes).unwrap();
    assert_eq!(wasm.types.len(), 1);
    assert_eq!(wasm.exports.len(), 1);
    assert_eq!(wasm.exports[0].name, "start");
    let mut process = wasm.spawn("start").unwrap();
    assert!(matches!(process.step().unwrap(), ProcessAction::Continue));
    assert!(matches!(process.step().unwrap(), ProcessAction::Continue));
    assert_eq!(finished_with(process.step().unwrap()), Vec::<Dynamic>::new());
}

#[test]
fn import_dispatch() {
    let bytes = module(&[
        (1, vec![0x01, 0x60, 0x00, 0x00]),
        (2, vec![0x01, 0x03, b'e', b'n', b'v', 0x04, b'n', b'o', b'o', b'p', 0x00, 0x00]),
        (3, vec![0x01, 0x00]),
        (7, vec![0x01, 0x05, b's', b't', b'a', b'r', b't', 0x00, 0x01]),
        (10, vec![0x01, 0x04, 0x00, 0x10, 0x00, 0x0B]),
    ]);
    let wasm = Wasm::parse(&bytes).unwrap();
    assert_eq!(wasm.imports[0].name.namespace, "env");
    assert_eq!(wasm.imports[0].name.name, "noop");
    let mut process = wasm.spawn("start").unwrap();
    match process.step().unwrap() {
        ProcessAction::CallExtern { function, args } => {
            assert_eq!(function, "noop");
            assert!(args.is_empty());
        },
        _ => panic!("expected a host call"),
    }
    assert_eq!(finished_with(process.step().unwrap()), Vec::<Dynamic>::new());
}

#[test]
fn loop_and_branch() {
    let bytes = single_function(&[], &[0x03, 0x40, 0x0C, 0x00, 0x0B, 0x0B]);
    let wasm = Wasm::parse(&bytes).unwrap();
    match &wasm.code[0].expr[..] {
        [Instruction::Loop { bt: BlockType::Empty, inner }] => {
            assert_eq!(inner.len(), 1);
            assert!(matches!(inner[0], Instruction::Branch { index: LabelIdx(0) }));
        },
        _ => panic!("expected one loop"),
    }
    let mut process = wasm.spawn("start").unwrap();
    for _ in 0..10 {
        assert!(matches!(process.step().unwrap(), ProcessAction::Continue));
        assert!(matches!(process.current_instruction(), Some(Instruction::Branch { index: LabelIdx(0) })));
    }
}

#[test]
fn branch_out_of_function() {
    let bytes = single_function(&[], &[0x41, 0x07, 0x0C, 0x00, 0x41, 0x09, 0x0B]);
    let wasm = Wasm::parse(&bytes).unwrap();
    let mut process = wasm.spawn("start").unwrap();
    assert!(matches!(process.step().unwrap(), ProcessAction::Continue));
    assert_eq!(finished_with(process.step().unwrap()), vec![Dynamic(7)]);
}

#[test]
fn if_zero_takes_else() {
    let body = [0x41, 0x00, 0x04, 0x40, 0x41, 0x01, 0x05, 0x41, 0x02, 0x0B, 0x0B];
    let bytes = single_function(&[], &body);
    let wasm = Wasm::parse(&bytes).unwrap();
    let mut process = wasm.spawn("start").unwrap();
    assert!(matches!(process.step().unwrap(), ProcessAction::Continue));
    assert!(matches!(process.step().unwrap(), ProcessAction::Continue));
    assert!(matches!(process.current_instruction(), Some(Instruction::I32Const(2))));
    assert!(matches!(process.step().unwrap(), ProcessAction::Continue));
    assert_eq!(finished_with(process.step().unwrap()), vec![Dynamic(2)]);
}

#[test]
fn if_zero_without_else_continues() {
    let body = [0x41, 0x00, 0x04, 0x40, 0x41, 0x01, 0x0B, 0x41, 0x03, 0x0B];
    let bytes = single_function(&[], &body);
    let wasm = Wasm::parse(&bytes).unwrap();
    let mut process = wasm.spawn("start").unwrap();
    assert!(matches!(process.step().unwrap(), ProcessAction::Continue));
    assert!(matches!(process.step().unwrap(), ProcessAction::Continue));
    assert!(matches!(process.current_instruction(), Some(Instruction::I32Const(3))));
    assert!(matches!(process.step().unwrap(), ProcessAction::Continue));
    assert_eq!(finished_with(process.step().unwrap()), vec![Dynamic(3)]);
}

#[test]
fn leb_u32_edge() {
    let bytes = [0xFF, 0xFF, 0xFF, 0xFF, 0x0F];
    let mut reader = Reader::new(&bytes);
    assert_eq!(reader.read_int::<u32>().unwrap(), 0xFFFF_FFFF);
    let bytes = [0xFF, 0xFF, 0xFF, 0xFF, 0x8F, 0x10];
    let mut reader = Reader::new(&bytes);
    let err = reader.read_int::<u32>().unwrap_err();
    assert_eq!(err.kind, ErrorKind::IntegerOverflow(IntType::U32));
    assert_eq!(IntType::U32.name(), "u32");
}

#[test]
fn leb_u32_two_to_the_32_overflows() {
    let bytes = [0x80, 0x80, 0x80, 0x80, 0x10];
    let mut reader = Reader::new(&bytes);
    let err = reader.read_int::<u32>().unwrap_err();
    assert_eq!(err.kind, ErrorKind::IntegerOverflow(IntType::U32));
    assert_eq!(err.offset(), 0);
}

#[test]
fn leb_signed_small() {
    let bytes = [0x7F];
    assert_eq!(Reader::new(&bytes).read_int::<i32>().unwrap(), -1);
    let bytes = [0x7E];
    assert_eq!(Reader::new(&bytes).read_int::<i32>().unwrap(), -2);
}

#[test]
fn lane_index_sixteen_rejected() {
    let bytes = [16u8];
    let err = LaneIdx::parse_max_16(&mut Reader::new(&bytes)).unwrap_err();
    assert_eq!(err.kind, ErrorKind::InvalidLaneIndex { max: 16 });
    let bytes = [15u8];
    assert_eq!(LaneIdx::parse_max_16(&mut Reader::new(&bytes)).unwrap(), LaneIdx(15));
}

#[test]
fn every_cut_inside_a_section_fails() {
    let sections = [
        (1u8, vec![0x01, 0x60, 0x00, 0x00]),
        (2u8, vec![0x01, 0x03, b'e', b'n', b'v', 0x04, b'n', b'o', b'o', b'p', 0x00, 0x00]),
        (3u8, vec![0x01, 0x00]),
        (7u8, vec![0x01, 0x05, b's', b't', b'a', b'r', b't', 0x00, 0x01]),
        (10u8, vec![0x01, 0x04, 0x00, 0x10, 0x00, 0x0B]),
    ];
    let bytes = module(&sections);
    let mut boundaries = vec![8usize];
    for (_, payload) in &sections {
        let last = *boundaries.last().unwrap();
        boundaries.push(last + 2 + payload.len());
    }
    assert_eq!(*boundaries.last().unwrap(), bytes.len());
    for k in 0..bytes.len() {
        match Wasm::parse(&bytes[..k]) {
            Ok(wasm) => {
                assert!(boundaries.contains(&k), "a cut at {} decoded", k);
                let whole_sections = boundaries.iter().filter(|b| **b <= k).count() - 1;
                assert_eq!(wasm.types.len(), if whole_sections >= 1 { 1 } else { 0 });
            },
            Err(e) => {
                assert!(!boundaries.contains(&k));
                assert!(e.offset() <= k);
                assert!(matches!(e.kind, ErrorKind::EndOfFile | ErrorKind::InvalidHeader));
            },
        }
    }
}
