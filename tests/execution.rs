use embedded_wasm::{Dynamic, ExecErrorKind, Instruction, ProcessAction, Wasm};

const HEADER: [u8; 8] = [0x00, 0x61, 0x73, 0x6D, 0x01, 0x00, 0x00, 0x00];

fn with_sections(sections: &[(u8, Vec<u8>)]) -> Vec<u8> {
    let mut out = HEADER.to_vec();
    for (id, payload) in sections {
        out.push(*id);
        out.push(payload.len() as u8);
        out.extend_from_slice(payload);
    }
    out
}

fn code_entry(locals: &[u8], body: &[u8]) -> Vec<u8> {
    let mut entry = locals.to_vec();
    entry.extend_from_slice(body);
    let mut out = vec![entry.len() as u8];
    out.extend_from_slice(&entry);
    out
}

/// A module whose only function, exported as `start`, takes no arguments.
fn program(locals: &[u8], body: &[u8]) -> Vec<u8> {
    let mut code = vec![0x01];
    code.extend(code_entry(locals, body));
    with_sections(&[
        (1, vec![0x01, 0x60, 0x00, 0x00]),
        (3, vec![0x01, 0x00]),
        (7, vec![0x01, 0x05, b's', b't', b'a', b'r', b't', 0x00, 0x00]),
        (10, code),
    ])
}

/// Steps until the function finishes; returns the results and the number of steps.
fn run(bytes: &[u8]) -> Result<(Vec<Dynamic>, usize), ExecErrorKind> {
    let wasm = Wasm::parse(bytes).unwrap();
    let mut process = wasm.spawn("start").unwrap();
    for n in 1..1000 {
        match process.step() {
            Ok(ProcessAction::Continue) => {},
            Ok(ProcessAction::Finished(v)) => return Ok((v, n)),
            Ok(ProcessAction::CallExtern { .. }) => panic!("no host call expected"),
            Err(e) => return Err(e.kind),
        }
    }
    panic!("did not finish")
}

fn result_of(body: &[u8]) -> Vec<Dynamic> {
    run(&program(&[0x00], body)).unwrap().0
}

#[test]
fn i32_arithmetic_wraps() {
    assert_eq!(result_of(&[0x41, 0xFF, 0xFF, 0xFF, 0xFF, 0x07, 0x41, 0x01, 0x6A, 0x0B]), vec![Dynamic(0x8000_0000)]);
    assert_eq!(result_of(&[0x41, 0x01, 0x41, 0x02, 0x6B, 0x0B]), vec![Dynamic(0xFFFF_FFFF)]);
    assert_eq!(result_of(&[0x41, 0x07, 0x41, 0x06, 0x6C, 0x0B]), vec![Dynamic(42)]);
    assert_eq!(result_of(&[0x41, 0x07, 0x41, 0x02, 0x6E, 0x0B]), vec![Dynamic(3)]);
    assert_eq!(result_of(&[0x41, 0x07, 0x41, 0x02, 0x70, 0x0B]), vec![Dynamic(1)]);
    assert_eq!(result_of(&[0x41, 0x0C, 0x41, 0x0A, 0x71, 0x0B]), vec![Dynamic(8)]);
}

#[test]
fn i32_comparisons() {
    assert_eq!(result_of(&[0x41, 0x7F, 0x41, 0x00, 0x48, 0x0B]), vec![Dynamic(1)]);
    assert_eq!(result_of(&[0x41, 0x7F, 0x41, 0x00, 0x49, 0x0B]), vec![Dynamic(0)]);
    assert_eq!(result_of(&[0x41, 0x00, 0x45, 0x0B]), vec![Dynamic(1)]);
    assert_eq!(result_of(&[0x41, 0x05, 0x41, 0x05, 0x46, 0x0B]), vec![Dynamic(1)]);
}

#[test]
fn i64_arithmetic() {
    assert_eq!(result_of(&[0x42, 0x7F, 0x42, 0x01, 0x7C, 0x0B]), vec![Dynamic(0)]);
    assert_eq!(result_of(&[0x42, 0x03, 0x42, 0x7F, 0x7E, 0x0B]), vec![Dynamic((-3i64) as u64)]);
    assert_eq!(result_of(&[0x42, 0x7F, 0x42, 0x00, 0x53, 0x0B]), vec![Dynamic(1)]);
}

#[test]
fn division_by_zero_traps() {
    assert_eq!(run(&program(&[0x00], &[0x41, 0x01, 0x41, 0x00, 0x6E, 0x0B])).unwrap_err(), ExecErrorKind::Trap);
}

#[test]
fn unreachable_traps() {
    assert_eq!(run(&program(&[0x00], &[0x00, 0x0B])).unwrap_err(), ExecErrorKind::Trap);
}

#[test]
fn missing_operand_traps() {
    assert_eq!(run(&program(&[0x00], &[0x1A, 0x0B])).unwrap_err(), ExecErrorKind::Trap);
}

#[test]
fn float_arithmetic_is_not_executed() {
    let body = [0x43, 0, 0, 0x80, 0x3F, 0x43, 0, 0, 0x80, 0x3F, 0x92, 0x0B];
    assert_eq!(run(&program(&[0x00], &body)).unwrap_err(), ExecErrorKind::Unsupported);
}

#[test]
fn float_constants_keep_their_bits() {
    assert_eq!(result_of(&[0x43, 0, 0, 0x80, 0x3F, 0x0B]), vec![Dynamic(0x3F80_0000)]);
}

#[test]
fn locals_and_select() {
    let body = [0x41, 0x09, 0x21, 0x00, 0x20, 0x00, 0x41, 0x03, 0x22, 0x01, 0x41, 0x00, 0x1B, 0x20, 0x01, 0x0B];
    assert_eq!(run(&program(&[0x01, 0x02, 0x7F], &body)).unwrap().0, vec![Dynamic(3), Dynamic(3)]);
}

#[test]
fn stack_size_follows_pushes_and_pops() {
    let bytes = program(&[0x00], &[0x41, 0x01, 0x41, 0x02, 0x6A, 0x41, 0x03, 0x1A, 0x0B]);
    let wasm = Wasm::parse(&bytes).unwrap();
    let mut process = wasm.spawn("start").unwrap();
    let deltas = [1i64, 1, -1, 1, -1];
    for _ in deltas {
        assert!(matches!(process.step().unwrap(), ProcessAction::Continue));
    }
    match process.step().unwrap() {
        ProcessAction::Finished(v) => assert_eq!(v.len() as i64, deltas.iter().sum::<i64>()),
        _ => panic!("expected the end"),
    }
}

#[test]
fn branch_if_and_branch_table() {
    let body = [0x02, 0x40, 0x41, 0x01, 0x0D, 0x00, 0x41, 0x05, 0x0B, 0x41, 0x06, 0x0B];
    assert_eq!(result_of(&body), vec![Dynamic(6)]);
    let body = [0x02, 0x40, 0x02, 0x40, 0x41, 0x01, 0x0E, 0x01, 0x00, 0x01, 0x0B, 0x41, 0x07, 0x0B, 0x41, 0x08, 0x0B];
    assert_eq!(result_of(&body), vec![Dynamic(8)]);
}

#[test]
fn loop_counts_down() {
    let body = [
        0x41, 0x03, 0x21, 0x00, 0x03, 0x40, 0x20, 0x00, 0x41, 0x01, 0x6B, 0x22, 0x00, 0x0D, 0x00, 0x0B, 0x20, 0x00,
        0x0B,
    ];
    assert_eq!(run(&program(&[0x01, 0x01, 0x7F], &body)).unwrap().0, vec![Dynamic(0)]);
}

#[test]
fn return_finishes() {
    assert_eq!(result_of(&[0x41, 0x04, 0x0F, 0x41, 0x05, 0x0B]), vec![Dynamic(4)]);
}

#[test]
fn local_call_takes_its_arguments() {
    let mut code = vec![0x02];
    code.extend(code_entry(&[0x00], &[0x41, 0x0A, 0x41, 0x20, 0x10, 0x01, 0x0B]));
    code.extend(code_entry(&[0x00], &[0x20, 0x00, 0x41, 0x01, 0x6A, 0x0B]));
    let bytes = with_sections(&[
        (1, vec![0x02, 0x60, 0x00, 0x00, 0x60, 0x01, 0x7F, 0x01, 0x7F]),
        (3, vec![0x02, 0x00, 0x01]),
        (7, vec![0x01, 0x05, b's', b't', b'a', b'r', b't', 0x00, 0x00]),
        (10, code),
    ]);
    assert_eq!(run(&bytes).unwrap().0, vec![Dynamic(10), Dynamic(33)]);
}

#[test]
fn host_call_gets_the_stack() {
    let bytes = with_sections(&[
        (1, vec![0x02, 0x60, 0x01, 0x7F, 0x00, 0x60, 0x00, 0x00]),
        (2, vec![0x01, 0x03, b'e', b'n', b'v', 0x03, b'l', b'e', b'd', 0x00, 0x00]),
        (3, vec![0x01, 0x01]),
        (7, vec![0x01, 0x05, b's', b't', b'a', b'r', b't', 0x00, 0x01]),
        (10, vec![0x01, 0x07, 0x00, 0x41, 0x05, 0x10, 0x00, 0x1A, 0x0B]),
    ]);
    let wasm = Wasm::parse(&bytes).unwrap();
    let mut process = wasm.spawn("start").unwrap();
    assert!(matches!(process.step().unwrap(), ProcessAction::Continue));
    match process.step().unwrap() {
        ProcessAction::CallExtern { function, args } => {
            assert_eq!(function, "led");
            assert_eq!(args, vec![Dynamic::from_i32(5)]);
            assert_eq!(wasm.types[0].lhs.len(), args.len());
        },
        _ => panic!("expected a host call"),
    }
    process.stack_push(Dynamic::from(9i32));
    assert!(matches!(process.current_instruction(), Some(Instruction::Drop)));
    assert!(matches!(process.step().unwrap(), ProcessAction::Continue));
    match process.step().unwrap() {
        ProcessAction::Finished(v) => assert!(v.is_empty()),
        _ => panic!("expected the end"),
    }
}

#[test]
fn spawn_needs_code() {
    let bytes = with_sections(&[
        (1, vec![0x01, 0x60, 0x00, 0x00]),
        (2, vec![0x01, 0x01, b'm', 0x01, b'f', 0x00, 0x00]),
        (7, vec![0x01, 0x01, b'f', 0x00, 0x00]),
    ]);
    let wasm = Wasm::parse(&bytes).unwrap();
    assert_eq!(wasm.spawn("f").err().map(|e| e.kind), Some(ExecErrorKind::FunctionNotFound));
    assert_eq!(wasm.spawn("g").err().map(|e| e.kind), Some(ExecErrorKind::FunctionNotFound));
}

#[test]
fn dynamic_conversions() {
    let d = Dynamic::from(-2i32);
    assert_eq!(d, Dynamic(0xFFFF_FFFE));
    assert_eq!(d.as_i32(), -2);
    assert_eq!(d.as_i64(), 0xFFFF_FFFE);
    assert_eq!(Dynamic::from(-2i64).as_i64(), -2);
    assert_eq!(Dynamic::from_i64(-2).as_i32(), -2);
}

/// A module with one page of memory, one mutable `i32` global starting at
/// 42, and `start` with the given body.
fn program_with_state(body: &[u8]) -> Vec<u8> {
    let mut code = vec![0x01];
    code.extend(code_entry(&[0x00], body));
    with_sections(&[
        (1, vec![0x01, 0x60, 0x00, 0x00]),
        (3, vec![0x01, 0x00]),
        (5, vec![0x01, 0x00, 0x01]),
        (6, vec![0x01, 0x7F, 0x01, 0x41, 0x2A, 0x0B]),
        (7, vec![0x01, 0x05, b's', b't', b'a', b'r', b't', 0x00, 0x00]),
        (10, code),
    ])
}

#[test]
fn globals_start_from_their_initializer() {
    let body = [0x23, 0x00, 0x41, 0x01, 0x6A, 0x24, 0x00, 0x23, 0x00, 0x0B];
    assert_eq!(run(&program_with_state(&body)).unwrap().0, vec![Dynamic(43)]);
}

#[test]
fn memory_store_then_load() {
    let body = [
        0x41, 0x08, 0x41, 0x84, 0x86, 0x88, 0x08, 0x36, 0x02, 0x00, 0x41, 0x08, 0x2D, 0x00, 0x01, 0x41, 0x08, 0x28,
        0x02, 0x00, 0x0B,
    ];
    assert_eq!(run(&program_with_state(&body)).unwrap().0, vec![Dynamic(0x03), Dynamic(0x0102_0304)]);
}

#[test]
fn narrow_loads_extend_the_sign() {
    let body = [
        0x41, 0x00, 0x41, 0x7F, 0x3A, 0x00, 0x00, 0x41, 0x00, 0x2C, 0x00, 0x00, 0x41, 0x00, 0x30, 0x00, 0x00, 0x41,
        0x00, 0x2D, 0x00, 0x00, 0x0B,
    ];
    assert_eq!(
        run(&program_with_state(&body)).unwrap().0,
        vec![Dynamic(0xFFFF_FFFF), Dynamic(u64::MAX), Dynamic(0xFF)]
    );
}

#[test]
fn memory_size_in_pages() {
    assert_eq!(run(&program_with_state(&[0x3F, 0x00, 0x0B])).unwrap().0, vec![Dynamic(1)]);
}

#[test]
fn access_outside_memory_traps() {
    let body = [0x41, 0xFD, 0xFF, 0x03, 0x28, 0x02, 0x00, 0x0B];
    assert_eq!(run(&program_with_state(&body)).unwrap_err(), ExecErrorKind::Trap);
    let body = [0x41, 0xFC, 0xFF, 0x03, 0x28, 0x02, 0x00, 0x0B];
    assert_eq!(run(&program_with_state(&body)).unwrap().0, vec![Dynamic(0)]);
}

#[test]
fn shifts_and_conversions() {
    assert_eq!(result_of(&[0x41, 0x01, 0x41, 0x24, 0x74, 0x0B]), vec![Dynamic(16)]);
    assert_eq!(result_of(&[0x41, 0x70, 0x41, 0x01, 0x75, 0x0B]), vec![Dynamic(0xFFFF_FFF8)]);
    assert_eq!(result_of(&[0x41, 0x01, 0x41, 0x01, 0x78, 0x0B]), vec![Dynamic(0x8000_0000)]);
    assert_eq!(result_of(&[0x41, 0x7F, 0xAC, 0x0B]), vec![Dynamic(u64::MAX)]);
    assert_eq!(result_of(&[0x41, 0x7F, 0xAD, 0x0B]), vec![Dynamic(0xFFFF_FFFF)]);
    assert_eq!(result_of(&[0x41, 0xFF, 0x01, 0xC0, 0x0B]), vec![Dynamic(0xFFFF_FFFF)]);
}

#[test]
fn signed_division_and_remainder() {
    // -7 / 2 == -3, -7 rem 2 == -1 (rounding toward zero)
    assert_eq!(result_of(&[0x41, 0x79, 0x41, 0x02, 0x6D, 0x0B]), vec![Dynamic(0xFFFF_FFFD)]);
    assert_eq!(result_of(&[0x41, 0x79, 0x41, 0x02, 0x6F, 0x0B]), vec![Dynamic(0xFFFF_FFFF)]);
    // 7 rem -2 == 1
    assert_eq!(result_of(&[0x41, 0x07, 0x41, 0x7E, 0x6F, 0x0B]), vec![Dynamic(1)]);
    // i64: -9 / 4 == -2
    assert_eq!(result_of(&[0x42, 0x77, 0x42, 0x04, 0x7F, 0x0B]), vec![Dynamic((-2i64) as u64)]);
}

#[test]
fn signed_division_by_zero_traps() {
    assert_eq!(run(&program(&[0x00], &[0x41, 0x01, 0x41, 0x00, 0x6D, 0x0B])).unwrap_err(), ExecErrorKind::Trap);
    assert_eq!(run(&program(&[0x00], &[0x41, 0x01, 0x41, 0x00, 0x6F, 0x0B])).unwrap_err(), ExecErrorKind::Trap);
    assert_eq!(run(&program(&[0x00], &[0x42, 0x01, 0x42, 0x00, 0x7F, 0x0B])).unwrap_err(), ExecErrorKind::Trap);
    assert_eq!(run(&program(&[0x00], &[0x42, 0x01, 0x42, 0x00, 0x81, 0x0B])).unwrap_err(), ExecErrorKind::Trap);
}

#[test]
fn int_min_divided_by_minus_one() {
    // i32::MIN / -1 traps; i32::MIN rem -1 == 0
    let min = [0x41, 0x80, 0x80, 0x80, 0x80, 0x78];
    let mut body = min.to_vec();
    body.extend_from_slice(&[0x41, 0x7F, 0x6D, 0x0B]);
    assert_eq!(run(&program(&[0x00], &body)).unwrap_err(), ExecErrorKind::Trap);
    let mut body = min.to_vec();
    body.extend_from_slice(&[0x41, 0x7F, 0x6F, 0x0B]);
    assert_eq!(result_of(&body), vec![Dynamic(0)]);
}

#[test]
fn bit_counts() {
    assert_eq!(result_of(&[0x41, 0x01, 0x67, 0x0B]), vec![Dynamic(31)]);
    assert_eq!(result_of(&[0x41, 0x00, 0x67, 0x0B]), vec![Dynamic(32)]);
    assert_eq!(result_of(&[0x41, 0x08, 0x68, 0x0B]), vec![Dynamic(3)]);
    assert_eq!(result_of(&[0x41, 0x00, 0x68, 0x0B]), vec![Dynamic(32)]);
    assert_eq!(result_of(&[0x41, 0x7F, 0x69, 0x0B]), vec![Dynamic(32)]);
    assert_eq!(result_of(&[0x42, 0x01, 0x79, 0x0B]), vec![Dynamic(63)]);
    assert_eq!(result_of(&[0x42, 0x00, 0x7A, 0x0B]), vec![Dynamic(64)]);
    assert_eq!(result_of(&[0x42, 0x7F, 0x7B, 0x0B]), vec![Dynamic(64)]);
}

#[test]
fn memory_grows_within_its_maximum() {
    // grow by 1 page returns the old size, then size is 2; growing past 65536 pages fails with -1
    let body = [0x41, 0x01, 0x40, 0x00, 0x3F, 0x00, 0x41, 0x80, 0x80, 0x04, 0x40, 0x00, 0x0B];
    assert_eq!(
        run(&program_with_state(&body)).unwrap().0,
        vec![Dynamic(1), Dynamic(2), Dynamic(0xFFFF_FFFF)]
    );
}
