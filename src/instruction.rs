use vstd::prelude::*;

use crate::error::{err_matches, is_err_at, spec_u8, agrees, ErrorKind, IntType, ParseResult, SpecErr, SpecResult};
use crate::leb128::spec_leb;
use crate::reader::{le_value, pow256, Mark, Reader};
use crate::types::{
    spec_block_type, spec_index, spec_lane, spec_mem_arg, spec_read_ref_type, spec_read_val_type,
    spec_u32, BlockType, DataIdx, ElemIdx, FuncIdx, GlobalIdx, LabelIdx, LaneIdx, LocalIdx, MemArg,
    NumType, RefType, Signedness, TableIdx, TypeIdx, ValType,
};

verus! {

/// A SIMD instruction, behind the `0xFD` prefix.
#[derive(Clone, Copy, Debug, PartialEq, Eq, Structural)]
pub enum VectorInstruction {
    V128Load(MemArg),
    V128Load8x8(MemArg, Signedness),
    V128Load16x4(MemArg, Signedness),
    V128Load32x2(MemArg, Signedness),
    V128Load8Splat(MemArg),
    V128Load16Splat(MemArg),
    V128Load32Splat(MemArg),
    V128Load64Splat(MemArg),
    V128Store(MemArg),
    V128Const(u128),
    I8x16Shuffle(u128),
    I8x16Swizzle,
    I8x16Splat,
    I16x8Splat,
    I32x4Splat,
    I64x2Splat,
    F32x4Splat,
    F64x2Splat,
    I8x16ExtractLane(LaneIdx, Signedness),
    I8x16ReplaceLane(LaneIdx),
    I16x8ExtractLane(LaneIdx, Signedness),
    I16x8ReplaceLane(LaneIdx),
    I32x4ExtractLane(LaneIdx),
    I32x4ReplaceLane(LaneIdx),
    I64x2ExtractLane(LaneIdx),
    I64x2ReplaceLane(LaneIdx),
    F32x4ExtractLane(LaneIdx),
    F32x4ReplaceLane(LaneIdx),
    F64x2ExtractLane(LaneIdx),
    F64x2ReplaceLane(LaneIdx),
    I8x16Equal,
    I8x16NotEqual,
    I8x16LessThan(Signedness),
    I8x16GreaterThan(Signedness),
    I8x16LessOrEqualTo(Signedness),
    I8x16GreaterOrEqualTo(Signedness),
    I16x8Equal,
    I16x8NotEqual,
    I16x8LessThan(Signedness),
    I16x8GreaterThan(Signedness),
    I16x8LessOrEqualTo(Signedness),
    I16x8GreaterOrEqualTo(Signedness),
    I32x4Equal,
    I32x4NotEqual,
    I32x4LessThan(Signedness),
    I32x4GreaterThan(Signedness),
    I32x4LessOrEqualTo(Signedness),
    I32x4GreaterOrEqualTo(Signedness),
    F32x4Equal,
    F32x4NotEqual,
    F32x4LessThan,
    F32x4GreaterThan,
    F32x4LessOrEqualTo,
    F32x4GreaterOrEqualTo,
    F64x2Equal,
    F64x2NotEqual,
    F64x2LessThan,
    F64x2GreaterThan,
    F64x2LessOrEqualTo,
    F64x2GreaterOrEqualTo,
    V128Not,
    V128And,
    V128AndNot,
    V128Or,
    V128Xor,
    V128BitSelect,
    V128AnyTrue,
    V128Load8Lane(MemArg, LaneIdx),
    V128Load16Lane(MemArg, LaneIdx),
    V128Load32Lane(MemArg, LaneIdx),
    V128Load64Lane(MemArg, LaneIdx),
    V128Store8Lane(MemArg, LaneIdx),
    V128Store16Lane(MemArg, LaneIdx),
    V128Store32Lane(MemArg, LaneIdx),
    V128Store64Lane(MemArg, LaneIdx),
    V128Load32Zero(MemArg),
    V128Load64Zero(MemArg),
    F32x4DemoteF64x2Zero,
    F64x2PromoteLowF32x4,
    I8x16Abs,
    I8x16Neg,
    I8x16PopCnt,
    I8x16AllTrue,
    I8x16Bitmask,
    I8x16NarrowI16x8(Signedness),
    F32x4Ceil,
    F32x4Floor,
    F32x4Trunc,
    F32x4Nearest,
    I8x16ShiftLeft,
    I8x16ShiftRight(Signedness),
    I8x16Add,
    I8x16AddSaturating(Signedness),
    I8x16Sub,
    I8x16SubSaturating(Signedness),
    F64x2Ceil,
    F64x2Floor,
    I8x16Min(Signedness),
    I8x16Max(Signedness),
    F64x2Trunc,
    I8x16Average,
    I16x8ExtAddPairwiseI8x16(Signedness),
    I32x4ExtAddPairwiseI16x8(Signedness),
    I16x8Abs,
    I16x8Neg,
    I16x8Q16MulrSat,
    I16x8AllTrue,
    I16x8Bitmask,
    I16x8NarrowI32x4(Signedness),
    I16x8ExtendLowI8x16(Signedness),
    I16x8ExtendHighI8x16(Signedness),
    I16x8ShiftLeft,
    I16x8ShiftRight(Signedness),
    I16x8Add,
    I16x8AddSaturating(Signedness),
    I16x8Sub,
    I16x8SubSaturating(Signedness),
    F64x2Nearest,
    I16x8Mul,
    I16x8Min(Signedness),
    I16x8Max(Signedness),
    I16x8Average,
    I16x8ExtMulLowI8x16(Signedness),
    I16x8ExtMulHighI8x16(Signedness),
    I32x4Abs,
    I32x4Neg,
    I32x4AllTrue,
    I32x4Bitmask,
    I32x4ExtendLowI16x8(Signedness),
    I32x4ExtendHighI16x8(Signedness),
    I32x4ShiftLeft,
    I32x4ShiftRight(Signedness),
    I32x4Add,
    I32x4Sub,
    I32x4Mul,
    I32x4Min(Signedness),
    I32x4Max(Signedness),
    I32x4DotI16x8,
    I32x4ExtMulLowI16x8(Signedness),
    I32x4ExtMulHighI16x8(Signedness),
    I64x2Abs,
    I64x2Neg,
    I64x2AllTrue,
    I64x2Bitmask,
    I64x2ExtendLowI32x4(Signedness),
    I64x2ExtendHighI32x4(Signedness),
    I64x2ShiftLeft,
    I64x2ShiftRight(Signedness),
    I64x2Add,
    I64x2Sub,
    I64x2Mul,
    I64x2Equal,
    I64x2NotEqual,
    I64x2LessThan,
    I64x2GreaterThan,
    I64x2LessOrEqualTo,
    I64x2GreaterOrEqualTo,
    I64x2ExtMulLowI32x4(Signedness),
    I64x2ExtMulHighI32x4(Signedness),
    F32x4Abs,
    F32x4Neg,
    F32x4Sqrt,
    F32x4Add,
    F32x4Sub,
    F32x4Mul,
    F32x4Div,
    F32x4Min,
    F32x4Max,
    F32x4PMin,
    F32x4PMax,
    F64x2Abs,
    F64x2Neg,
    F64x2Sqrt,
    F64x2Add,
    F64x2Sub,
    F64x2Mul,
    F64x2Div,
    F64x2Min,
    F64x2Max,
    F64x2PMin,
    F64x2PMax,
    I32x4TruncSatF32x4(Signedness),
    F32x4ConvertI32x4(Signedness),
    I32x4TruncSatF64x2Zero(Signedness),
    F64x2ConvertLowI32x4(Signedness),
}/// A decoded instruction.
///
/// Structured instructions own the instructions of their bodies, so the code
/// of a function is a tree rather than a flat byte stream.
#[derive(Debug)]
pub enum Instruction {
    Unreachable,
    Nop,
    Block { bt: BlockType, inner: Vec<Instruction> },
    Loop { bt: BlockType, inner: Vec<Instruction> },
    If { bt: BlockType, inner: Vec<Instruction> },
    IfElse { bt: BlockType, if_inner: Vec<Instruction>, else_inner: Vec<Instruction> },
    Branch { index: LabelIdx },
    BranchIf { index: LabelIdx },
    BranchTable { labels: Vec<LabelIdx>, index: LabelIdx },
    Return,
    Call { function: FuncIdx },
    CallIndirect { type_idx: TypeIdx, table_idx: TableIdx },
    RefNull { reftype: RefType },
    RefIsNull,
    RefFunc { index: FuncIdx },
    Drop,
    Select,
    SelectVal { val: Vec<ValType> },
    LocalGet(LocalIdx),
    LocalSet(LocalIdx),
    LocalTee(LocalIdx),
    GlobalGet(GlobalIdx),
    GlobalSet(GlobalIdx),
    TableGet { index: TableIdx },
    TableSet { index: TableIdx },
    TableInit { y: ElemIdx, x: TableIdx },
    TableDrop { x: ElemIdx },
    TableCopy { x: TableIdx, y: TableIdx },
    TableGrow { x: TableIdx },
    TableSize { x: TableIdx },
    TableFill { x: TableIdx },
    Load { numtype: NumType, memarg: MemArg },
    Load8 { numtype: NumType, memarg: MemArg, signedness: Signedness },
    Load16 { numtype: NumType, memarg: MemArg, signedness: Signedness },
    Load32 { memarg: MemArg, signedness: Signedness },
    Store { numtype: NumType, memarg: MemArg },
    Store8 { numtype: NumType, memarg: MemArg },
    Store16 { numtype: NumType, memarg: MemArg },
    Store32 { numtype: NumType, memarg: MemArg },
    MemorySize,
    MemoryGrow,
    MemoryInit { index: DataIdx },
    DataDrop { index: DataIdx },
    MemoryCopy,
    MemoryFill,
    I32Const(i32),
    I64Const(i64),
    /// The bits of an `f32` constant.
    F32Const(u32),
    /// The bits of an `f64` constant.
    F64Const(u64),
    I32EqualZero,
    I32Equals,
    I32NotEquals,
    I32LessThanSigned,
    I32LessThanUnsigned,
    I32GreaterThanSigned,
    I32GreaterThanUnsigned,
    I32LessOrEqualToSigned,
    I32LessOrEqualToUnsigned,
    I32GreaterOrEqualToSigned,
    I32GreaterOrEqualToUnsigned,
    I64EqualZero,
    I64Equals,
    I64NotEquals,
    I64LessThanSigned,
    I64LessThanUnsigned,
    I64GreaterThanSigned,
    I64GreaterThanUnsigned,
    I64LessOrEqualToSigned,
    I64LessOrEqualToUnsigned,
    I64GreaterOrEqualToSigned,
    I64GreaterOrEqualToUnsigned,
    F32Equals,
    F32NotEquals,
    F32LessThan,
    F32GreaterThan,
    F32LessOrEqualTo,
    F32GreaterOrEqualTo,
    F64Equals,
    F64NotEquals,
    F64LessThan,
    F64GreaterThan,
    F64LessOrEqualTo,
    F64GreaterOrEqualTo,
    I32CountLeadingZeroBits,
    I32CountTrailingZeroBits,
    I32CountNonZeroBits,
    I32Add,
    I32Sub,
    I32Mul,
    I32DivSigned,
    I32DivUnsigned,
    I32RemainderSigned,
    I32RemainderUnsigned,
    I32LogicalAnd,
    I32LogicalOr,
    I32LogicalXor,
    I32ShiftLeft,
    I32ShiftRightSigned,
    I32ShiftRightUnsigned,
    I32RotateLeft,
    I32RotateRight,
    I64CountLeadingZeroBits,
    I64CountTrailingZeroBits,
    I64CountNonZeroBits,
    I64Add,
    I64Sub,
    I64Mul,
    I64DivSigned,
    I64DivUnsigned,
    I64RemainderSigned,
    I64RemainderUnsigned,
    I64LogicalAnd,
    I64LogicalOr,
    I64LogicalXor,
    I64ShiftLeft,
    I64ShiftRightSigned,
    I64ShiftRightUnsigned,
    I64RotateLeft,
    I64RotateRight,
    F32Abs,
    F32Neg,
    F32Ceil,
    F32Floor,
    F32Trunc,
    F32Nearest,
    F32Sqrt,
    F32Add,
    F32Sub,
    F32Mul,
    F32Div,
    F32Min,
    F32Max,
    F32CopySign,
    F64Abs,
    F64Neg,
    F64Ceil,
    F64Floor,
    F64Trunc,
    F64Nearest,
    F64Sqrt,
    F64Add,
    F64Sub,
    F64Mul,
    F64Div,
    F64Min,
    F64Max,
    F64CopySign,
    I32WrapI64,
    I32TruncF32Signed,
    I32TruncF32Unsigned,
    I32TruncF64Signed,
    I32TruncF64Unsigned,
    I64ExtendI32Signed,
    I64ExtendI32Unsigned,
    I64TruncF32Signed,
    I64TruncF32Unsigned,
    I64TruncF64Signed,
    I64TruncF64Unsigned,
    F32ConvertI32Signed,
    F32ConvertI32Unsigned,
    F32ConvertI64Signed,
    F32ConvertI64Unsigned,
    F32DemoteF64,
    F64ConvertI32Signed,
    F64ConvertI32Unsigned,
    F64ConvertI64Signed,
    F64ConvertI64Unsigned,
    F64PromoteF32,
    I32ReinterpretAsF32,
    I64ReinterpretAsF64,
    F32ReinterpretAsI32,
    F64ReinterpretAsI64,
    I32Extend8Signed,
    I32Extend16Signed,
    I64Extend8Signed,
    I64Extend16Signed,
    I64Extend32Signed,
    I32TruncSatF32Signed,
    I32TruncSatF32Unsigned,
    I32TruncSatF64Signed,
    I32TruncSatF64Unsigned,
    I64TruncSatF32Signed,
    I64TruncSatF32Unsigned,
    I64TruncSatF64Signed,
    I64TruncSatF64Unsigned,
    Vector(VectorInstruction),
}

/// The mathematical form of an instruction: bodies and lists as sequences.
pub enum InstrView {
    Block(BlockType, Seq<InstrView>),
    Loop(BlockType, Seq<InstrView>),
    If(BlockType, Seq<InstrView>),
    IfElse(BlockType, Seq<InstrView>, Seq<InstrView>),
    BranchTable(Seq<LabelIdx>, LabelIdx),
    SelectVal(Seq<ValType>),
    /// Any other instruction, which holds plain values only.
    Leaf(Instruction),
}

/// The view of an instruction.
pub open spec fn instr_view(i: Instruction) -> InstrView
    decreases i, 0nat,
{
    match i {
        Instruction::Block { bt, inner } => InstrView::Block(bt, view_prefix(inner@, inner@.len())),
        Instruction::Loop { bt, inner } => InstrView::Loop(bt, view_prefix(inner@, inner@.len())),
        Instruction::If { bt, inner } => InstrView::If(bt, view_prefix(inner@, inner@.len())),
        Instruction::IfElse { bt, if_inner, else_inner } => InstrView::IfElse(
            bt,
            view_prefix(if_inner@, if_inner@.len()),
            view_prefix(else_inner@, else_inner@.len()),
        ),
        Instruction::BranchTable { labels, index } => InstrView::BranchTable(labels@, index),
        Instruction::SelectVal { val } => InstrView::SelectVal(val@),
        _ => InstrView::Leaf(i),
    }
}

/// The views of the first `n` instructions of `v`.
pub open spec fn view_prefix(v: Seq<Instruction>, n: nat) -> Seq<InstrView>
    decreases v, n,
{
    if n == 0 || n > v.len() {
        Seq::empty()
    } else {
        view_prefix(v, (n - 1) as nat).push(instr_view(v[n - 1]))
    }
}

/// The views of a sequence of instructions.
pub open spec fn instrs_view(v: Seq<Instruction>) -> Seq<InstrView> {
    view_prefix(v, v.len())
}

/// An instruction that holds neither a body nor a list.
pub open spec fn is_leaf(i: Instruction) -> bool {
    !(i is Block || i is Loop || i is If || i is IfElse || i is BranchTable || i is SelectVal)
}

proof fn lemma_view_prefix_push(v: Seq<Instruction>, x: Instruction, n: nat)
    requires
        n <= v.len(),
    ensures
        view_prefix(v.push(x), n) == view_prefix(v, n),
    decreases n,
{
    if n > 0 {
        lemma_view_prefix_push(v, x, (n - 1) as nat);
        assert(v.push(x)[n - 1] == v[n - 1]);
    }
}

/// Appending an instruction appends its view.
pub proof fn lemma_instrs_view_push(v: Seq<Instruction>, x: Instruction)
    ensures
        instrs_view(v.push(x)) == instrs_view(v).push(instr_view(x)),
{
    lemma_view_prefix_push(v, x, v.len());
    assert(v.push(x)[v.len() as int] == x);
}

proof fn lemma_view_prefix_index(v: Seq<Instruction>, n: nat)
    requires
        n <= v.len(),
    ensures
        view_prefix(v, n).len() == n,
        forall|k: int| 0 <= k < n ==> #[trigger] view_prefix(v, n)[k] == instr_view(v[k]),
    decreases n,
{
    if n > 0 {
        lemma_view_prefix_index(v, (n - 1) as nat);
    }
}

/// The view of a sequence has its length, and holds the view of each element.
pub proof fn lemma_instrs_view_index(v: Seq<Instruction>)
    ensures
        instrs_view(v).len() == v.len(),
        forall|k: int| 0 <= k < v.len() ==> #[trigger] instrs_view(v)[k] == instr_view(v[k]),
{
    lemma_view_prefix_index(v, v.len());
}

/// `r` is the instruction that `spec` describes.
pub open spec fn instr_agrees(r: ParseResult<Instruction>, rd: Reader, spec: SpecResult<InstrView>) -> bool {
    match spec {
        Ok((v, q)) => r is Ok && instr_view(r->Ok_0) == v && rd.pos() == q,
        Err(er) => err_matches(r, er),
    }
}

/// `r` is the instruction sequence that `spec` describes.
pub open spec fn body_agrees(
    r: ParseResult<Vec<Instruction>>,
    rd: Reader,
    spec: SpecResult<Seq<InstrView>>,
) -> bool {
    match spec {
        Ok((v, q)) => r is Ok && instrs_view(r->Ok_0@) == v && rd.pos() == q,
        Err(er) => err_matches(r, er),
    }
}

/// A reserved byte, which must be zero.
pub open spec fn spec_zero(s: Seq<u8>, p: int, e: int) -> SpecResult<u8> {
    match spec_u8(s, p, e) {
        Ok((b, q)) => if b == 0 {
            Ok((b, q))
        } else {
            Err((ErrorKind::UnknownInstruction, p))
        },
        Err(er) => Err(er),
    }
}

/// A LEB128 `i32`.
pub open spec fn spec_i32(s: Seq<u8>, p: int, e: int) -> SpecResult<i32> {
    match spec_leb(s, p, e, IntType::I32) {
        Ok((v, q)) => Ok((v as i32, q)),
        Err(er) => Err(er),
    }
}

/// A LEB128 `i64`.
pub open spec fn spec_i64(s: Seq<u8>, p: int, e: int) -> SpecResult<i64> {
    match spec_leb(s, p, e, IntType::I64) {
        Ok((v, q)) => Ok((v as i64, q)),
        Err(er) => Err(er),
    }
}

/// Four little-endian bytes.
pub open spec fn spec_le32(s: Seq<u8>, p: int, e: int) -> SpecResult<u32> {
    if p + 4 <= e {
        Ok((le_value(s, p, 4) as u32, p + 4))
    } else {
        Err((ErrorKind::EndOfFile, p))
    }
}

/// Eight little-endian bytes.
pub open spec fn spec_le64(s: Seq<u8>, p: int, e: int) -> SpecResult<u64> {
    if p + 8 <= e {
        Ok((le_value(s, p, 8) as u64, p + 8))
    } else {
        Err((ErrorKind::EndOfFile, p))
    }
}

/// Sixteen little-endian bytes, read as two halves.
pub open spec fn spec_v128(s: Seq<u8>, p: int, e: int) -> SpecResult<u128> {
    match spec_le64(s, p, e) {
        Ok((lo, q)) => match spec_le64(s, q, e) {
            Ok((hi, q2)) => Ok(((lo as int + 0x1_0000_0000_0000_0000 * hi as int) as u128, q2)),
            Err(er) => Err(er),
        },
        Err(er) => Err(er),
    }
}

/// The lane indices of a shuffle from its lane `k` on; lane `k` goes in byte `k`.
pub open spec fn spec_lanes(s: Seq<u8>, p: int, e: int, k: nat, acc: int) -> SpecResult<u128>
    decreases 16 - k,
{
    if k >= 16 {
        Ok((acc as u128, p))
    } else {
        match spec_lane(s, p, e, 16) {
            Ok((l, q)) => spec_lanes(s, q, e, k + 1, acc + l.0 * pow256(k)),
            Err(er) => Err(er),
        }
    }
}

/// The sixteen lane indices of a shuffle, each below 16.
pub open spec fn spec_shuffle(s: Seq<u8>, p: int, e: int) -> SpecResult<u128> {
    spec_lanes(s, p, e, 0, 0)
}

/// `n` label indices.
pub open spec fn spec_labels(s: Seq<u8>, p: int, e: int, n: nat, acc: Seq<LabelIdx>) -> SpecResult<Seq<LabelIdx>>
    decreases n,
{
    if n == 0 {
        Ok((acc, p))
    } else {
        match spec_index(s, p, e) {
            Ok((v, q)) => spec_labels(s, q, e, (n - 1) as nat, acc.push(LabelIdx(v))),
            Err(er) => Err(er),
        }
    }
}

/// A vector of label indices: its length, then the indices.
pub open spec fn spec_label_vec(s: Seq<u8>, p: int, e: int) -> SpecResult<Seq<LabelIdx>> {
    match spec_u32(s, p, e) {
        Ok((n, q)) => spec_labels(s, q, e, n as nat, Seq::empty()),
        Err(er) => Err(er),
    }
}

/// `n` value types.
pub open spec fn spec_val_types(s: Seq<u8>, p: int, e: int, n: nat, acc: Seq<ValType>) -> SpecResult<Seq<ValType>>
    decreases n,
{
    if n == 0 {
        Ok((acc, p))
    } else {
        match spec_read_val_type(s, p, e) {
            Ok((v, q)) => spec_val_types(s, q, e, (n - 1) as nat, acc.push(v)),
            Err(er) => Err(er),
        }
    }
}

/// A vector of value types: its length, then the types.
pub open spec fn spec_val_type_vec(s: Seq<u8>, p: int, e: int) -> SpecResult<Seq<ValType>> {
    match spec_u32(s, p, e) {
        Ok((n, q)) => spec_val_types(s, q, e, n as nat, Seq::empty()),
        Err(er) => Err(er),
    }
}

/// The instruction of opcode `op`, other than the structured ones and those
/// that hold a list; its immediates start at `q`.
pub open spec fn spec_leaf(s: Seq<u8>, q: int, e: int, op: u8) -> SpecResult<Instruction> {
    match spec_base_simple(op) {
        Some(i) => Ok((i, q)),
        None => if op == 0xFC {
            spec_extended(s, q, e)
        } else if op == 0xFD {
            spec_vector(s, q, e)
        } else {
            spec_base_imm(s, q, e, op)
        },
    }
}

/// The instruction behind the `0xFC` prefix, whose sub-opcode starts at `q`.
pub open spec fn spec_extended(s: Seq<u8>, q: int, e: int) -> SpecResult<Instruction> {
    match spec_u32(s, q, e) {
        Ok((sub, q2)) => match spec_extended_simple(sub) {
            Some(i) => Ok((i, q2)),
            None => spec_extended_imm(s, q2, e, sub, q),
        },
        Err(er) => Err(er),
    }
}

/// The instruction behind the `0xFD` prefix, whose sub-opcode starts at `q`.
pub open spec fn spec_vector(s: Seq<u8>, q: int, e: int) -> SpecResult<Instruction> {
    match spec_u32(s, q, e) {
        Ok((sub, q2)) => match spec_vector_simple(sub) {
            Some(v) => Ok((Instruction::Vector(v), q2)),
            None => match spec_vector_imm(s, q2, e, sub, q) {
                Ok((v, q3)) => Ok((Instruction::Vector(v), q3)),
                Err(er) => Err(er),
            },
        },
        Err(er) => Err(er),
    }
}

/// The instruction at `p` in `s[..e]`, with the position after it.
pub open spec fn spec_instr(s: Seq<u8>, p: int, e: int) -> SpecResult<InstrView>
    decreases e - p, 0nat,
{
    if p >= e || p < 0 {
        Err((ErrorKind::EndOfFile, p))
    } else {
        let op = s[p];
        if op == 0x02 || op == 0x03 {
            match spec_block_type(s, p + 1, e) {
                Ok((bt, q)) => match spec_body(s, q, e, Seq::empty()) {
                    Ok((body, q2)) => Ok(
                        (
                            if op == 0x02 {
                                InstrView::Block(bt, body)
                            } else {
                                InstrView::Loop(bt, body)
                            },
                            q2,
                        ),
                    ),
                    Err(er) => Err(er),
                },
                Err(er) => Err(er),
            }
        } else if op == 0x04 {
            match spec_block_type(s, p + 1, e) {
                Ok((bt, q)) => match spec_if_body(s, q, e, Seq::empty(), Seq::empty(), false) {
                    Ok(((a, b), q2)) => Ok(
                        (
                            match b {
                                Some(b) => InstrView::IfElse(bt, a, b),
                                None => InstrView::If(bt, a),
                            },
                            q2,
                        ),
                    ),
                    Err(er) => Err(er),
                },
                Err(er) => Err(er),
            }
        } else if op == 0x0E {
            match spec_label_vec(s, p + 1, e) {
                Ok((labels, q)) => match spec_index(s, q, e) {
                    Ok((d, q2)) => Ok((InstrView::BranchTable(labels, LabelIdx(d)), q2)),
                    Err(er) => Err(er),
                },
                Err(er) => Err(er),
            }
        } else if op == 0x1C {
            match spec_val_type_vec(s, p + 1, e) {
                Ok((val, q)) => Ok((InstrView::SelectVal(val), q)),
                Err(er) => Err(er),
            }
        } else {
            match spec_leaf(s, p + 1, e, op) {
                Ok((i, q)) => Ok((InstrView::Leaf(i), q)),
                Err(er) => Err(er),
            }
        }
    }
}

/// The instructions from `p` up to the terminator `0x0B`, which is consumed;
/// `acc` holds those already read.
pub open spec fn spec_body(s: Seq<u8>, p: int, e: int, acc: Seq<InstrView>) -> SpecResult<Seq<InstrView>>
    decreases e - p, 1nat,
{
    if p >= e || p < 0 {
        Err((ErrorKind::EndOfFile, p))
    } else if s[p] == 0x0B {
        Ok((acc, p + 1))
    } else {
        match spec_instr(s, p, e) {
            Ok((i, q)) => if p < q <= e {
                spec_body(s, q, e, acc.push(i))
            } else {
                Err((ErrorKind::EndOfFile, p))
            },
            Err(er) => Err(er),
        }
    }
}

/// The two branches of an `if` from `p` up to the terminator `0x0B`; a single
/// `0x05` separates them. `a` and `b` hold the instructions already read, and
/// `in_else` tells whether the separator was seen.
pub open spec fn spec_if_body(
    s: Seq<u8>,
    p: int,
    e: int,
    a: Seq<InstrView>,
    b: Seq<InstrView>,
    in_else: bool,
) -> SpecResult<(Seq<InstrView>, Option<Seq<InstrView>>)>
    decreases e - p, 1nat,
{
    if p >= e || p < 0 {
        Err((ErrorKind::EndOfFile, p))
    } else if s[p] == 0x0B {
        Ok(
            (
                (
                    a,
                    if in_else {
                        Some(b)
                    } else {
                        None
                    },
                ),
                p + 1,
            ),
        )
    } else if s[p] == 0x05 {
        if in_else {
            Err((ErrorKind::DuplicateElse, p))
        } else {
            spec_if_body(s, p + 1, e, a, b, true)
        }
    } else {
        match spec_instr(s, p, e) {
            Ok((i, q)) => if p < q <= e {
                if in_else {
                    spec_if_body(s, q, e, a, b.push(i), true)
                } else {
                    spec_if_body(s, q, e, a.push(i), b, false)
                }
            } else {
                Err((ErrorKind::EndOfFile, p))
            },
            Err(er) => Err(er),
        }
    }
}

/// The instructions from `p` to the end of the input; `acc` holds those
/// already read.
pub open spec fn spec_instrs_to_end(s: Seq<u8>, p: int, e: int, acc: Seq<InstrView>) -> SpecResult<Seq<InstrView>>
    decreases e - p,
{
    if p >= e || p < 0 {
        Ok((acc, p))
    } else {
        match spec_instr(s, p, e) {
            Ok((i, q)) => if p < q <= e {
                spec_instrs_to_end(s, q, e, acc.push(i))
            } else {
                Err((ErrorKind::EndOfFile, p))
            },
            Err(er) => Err(er),
        }
    }
}

/// The instruction that opcode `op` stands for alone, with no immediate.
pub open spec fn spec_base_simple(op: u8) -> Option<Instruction> {
    match op {
        0x00 => Some(Instruction::Unreachable),
        0x01 => Some(Instruction::Nop),
        0x0F => Some(Instruction::Return),
        0xD1 => Some(Instruction::RefIsNull),
        0x1A => Some(Instruction::Drop),
        0x1B => Some(Instruction::Select),
        0x45 => Some(Instruction::I32EqualZero),
        0x46 => Some(Instruction::I32Equals),
        0x47 => Some(Instruction::I32NotEquals),
        0x48 => Some(Instruction::I32LessThanSigned),
        0x49 => Some(Instruction::I32LessThanUnsigned),
        0x4A => Some(Instruction::I32GreaterThanSigned),
        0x4B => Some(Instruction::I32GreaterThanUnsigned),
        0x4C => Some(Instruction::I32LessOrEqualToSigned),
        0x4D => Some(Instruction::I32LessOrEqualToUnsigned),
        0x4E => Some(Instruction::I32GreaterOrEqualToSigned),
        0x4F => Some(Instruction::I32GreaterOrEqualToUnsigned),
        0x50 => Some(Instruction::I64EqualZero),
        0x51 => Some(Instruction::I64Equals),
        0x52 => Some(Instruction::I64NotEquals),
        0x53 => Some(Instruction::I64LessThanSigned),
        0x54 => Some(Instruction::I64LessThanUnsigned),
        0x55 => Some(Instruction::I64GreaterThanSigned),
        0x56 => Some(Instruction::I64GreaterThanUnsigned),
        0x57 => Some(Instruction::I64LessOrEqualToSigned),
        0x58 => Some(Instruction::I64LessOrEqualToUnsigned),
        0x59 => Some(Instruction::I64GreaterOrEqualToSigned),
        0x5A => Some(Instruction::I64GreaterOrEqualToUnsigned),
        0x5B => Some(Instruction::F32Equals),
        0x5C => Some(Instruction::F32NotEquals),
        0x5D => Some(Instruction::F32LessThan),
        0x5E => Some(Instruction::F32GreaterThan),
        0x5F => Some(Instruction::F32LessOrEqualTo),
        0x60 => Some(Instruction::F32GreaterOrEqualTo),
        0x61 => Some(Instruction::F64Equals),
        0x62 => Some(Instruction::F64NotEquals),
        0x63 => Some(Instruction::F64LessThan),
        0x64 => Some(Instruction::F64GreaterThan),
        0x65 => Some(Instruction::F64LessOrEqualTo),
        0x66 => Some(Instruction::F64GreaterOrEqualTo),
        0x67 => Some(Instruction::I32CountLeadingZeroBits),
        0x68 => Some(Instruction::I32CountTrailingZeroBits),
        0x69 => Some(Instruction::I32CountNonZeroBits),
        0x6A => Some(Instruction::I32Add),
        0x6B => Some(Instruction::I32Sub),
        0x6C => Some(Instruction::I32Mul),
        0x6D => Some(Instruction::I32DivSigned),
        0x6E => Some(Instruction::I32DivUnsigned),
        0x6F => Some(Instruction::I32RemainderSigned),
        0x70 => Some(Instruction::I32RemainderUnsigned),
        0x71 => Some(Instruction::I32LogicalAnd),
        0x72 => Some(Instruction::I32LogicalOr),
        0x73 => Some(Instruction::I32LogicalXor),
        0x74 => Some(Instruction::I32ShiftLeft),
        0x75 => Some(Instruction::I32ShiftRightSigned),
        0x76 => Some(Instruction::I32ShiftRightUnsigned),
        0x77 => Some(Instruction::I32RotateLeft),
        0x78 => Some(Instruction::I32RotateRight),
        0x79 => Some(Instruction::I64CountLeadingZeroBits),
        0x7A => Some(Instruction::I64CountTrailingZeroBits),
        0x7B => Some(Instruction::I64CountNonZeroBits),
        0x7C => Some(Instruction::I64Add),
        0x7D => Some(Instruction::I64Sub),
        0x7E => Some(Instruction::I64Mul),
        0x7F => Some(Instruction::I64DivSigned),
        0x80 => Some(Instruction::I64DivUnsigned),
        0x81 => Some(Instruction::I64RemainderSigned),
        0x82 => Some(Instruction::I64RemainderUnsigned),
        0x83 => Some(Instruction::I64LogicalAnd),
        0x84 => Some(Instruction::I64LogicalOr),
        0x85 => Some(Instruction::I64LogicalXor),
        0x86 => Some(Instruction::I64ShiftLeft),
        0x87 => Some(Instruction::I64ShiftRightSigned),
        0x88 => Some(Instruction::I64ShiftRightUnsigned),
        0x89 => Some(Instruction::I64RotateLeft),
        0x8A => Some(Instruction::I64RotateRight),
        0x8B => Some(Instruction::F32Abs),
        0x8C => Some(Instruction::F32Neg),
        0x8D => Some(Instruction::F32Ceil),
        0x8E => Some(Instruction::F32Floor),
        0x8F => Some(Instruction::F32Trunc),
        0x90 => Some(Instruction::F32Nearest),
        0x91 => Some(Instruction::F32Sqrt),
        0x92 => Some(Instruction::F32Add),
        0x93 => Some(Instruction::F32Sub),
        0x94 => Some(Instruction::F32Mul),
        0x95 => Some(Instruction::F32Div),
        0x96 => Some(Instruction::F32Min),
        0x97 => Some(Instruction::F32Max),
        0x98 => Some(Instruction::F32CopySign),
        0x99 => Some(Instruction::F64Abs),
        0x9A => Some(Instruction::F64Neg),
        0x9B => Some(Instruction::F64Ceil),
        0x9C => Some(Instruction::F64Floor),
        0x9D => Some(Instruction::F64Trunc),
        0x9E => Some(Instruction::F64Nearest),
        0x9F => Some(Instruction::F64Sqrt),
        0xA0 => Some(Instruction::F64Add),
        0xA1 => Some(Instruction::F64Sub),
        0xA2 => Some(Instruction::F64Mul),
        0xA3 => Some(Instruction::F64Div),
        0xA4 => Some(Instruction::F64Min),
        0xA5 => Some(Instruction::F64Max),
        0xA6 => Some(Instruction::F64CopySign),
        0xA7 => Some(Instruction::I32WrapI64),
        0xA8 => Some(Instruction::I32TruncF32Signed),
        0xA9 => Some(Instruction::I32TruncF32Unsigned),
        0xAA => Some(Instruction::I32TruncF64Signed),
        0xAB => Some(Instruction::I32TruncF64Unsigned),
        0xAC => Some(Instruction::I64ExtendI32Signed),
        0xAD => Some(Instruction::I64ExtendI32Unsigned),
        0xAE => Some(Instruction::I64TruncF32Signed),
        0xAF => Some(Instruction::I64TruncF32Unsigned),
        0xB0 => Some(Instruction::I64TruncF64Signed),
        0xB1 => Some(Instruction::I64TruncF64Unsigned),
        0xB2 => Some(Instruction::F32ConvertI32Signed),
        0xB3 => Some(Instruction::F32ConvertI32Unsigned),
        0xB4 => Some(Instruction::F32ConvertI64Signed),
        0xB5 => Some(Instruction::F32ConvertI64Unsigned),
        0xB6 => Some(Instruction::F32DemoteF64),
        0xB7 => Some(Instruction::F64ConvertI32Signed),
        0xB8 => Some(Instruction::F64ConvertI32Unsigned),
        0xB9 => Some(Instruction::F64ConvertI64Signed),
        0xBA => Some(Instruction::F64ConvertI64Unsigned),
        0xBB => Some(Instruction::F64PromoteF32),
        0xBC => Some(Instruction::I32ReinterpretAsF32),
        0xBD => Some(Instruction::I64ReinterpretAsF64),
        0xBE => Some(Instruction::F32ReinterpretAsI32),
        0xBF => Some(Instruction::F64ReinterpretAsI64),
        0xC0 => Some(Instruction::I32Extend8Signed),
        0xC1 => Some(Instruction::I32Extend16Signed),
        0xC2 => Some(Instruction::I64Extend8Signed),
        0xC3 => Some(Instruction::I64Extend16Signed),
        0xC4 => Some(Instruction::I64Extend32Signed),
        _ => None,
    }
}

fn base_simple(op: u8) -> (r: Option<Instruction>)
    ensures
        r == spec_base_simple(op),
{
    match op {
        0x00 => Some(Instruction::Unreachable),
        0x01 => Some(Instruction::Nop),
        0x0F => Some(Instruction::Return),
        0xD1 => Some(Instruction::RefIsNull),
        0x1A => Some(Instruction::Drop),
        0x1B => Some(Instruction::Select),
        0x45 => Some(Instruction::I32EqualZero),
        0x46 => Some(Instruction::I32Equals),
        0x47 => Some(Instruction::I32NotEquals),
        0x48 => Some(Instruction::I32LessThanSigned),
        0x49 => Some(Instruction::I32LessThanUnsigned),
        0x4A => Some(Instruction::I32GreaterThanSigned),
        0x4B => Some(Instruction::I32GreaterThanUnsigned),
        0x4C => Some(Instruction::I32LessOrEqualToSigned),
        0x4D => Some(Instruction::I32LessOrEqualToUnsigned),
        0x4E => Some(Instruction::I32GreaterOrEqualToSigned),
        0x4F => Some(Instruction::I32GreaterOrEqualToUnsigned),
        0x50 => Some(Instruction::I64EqualZero),
        0x51 => Some(Instruction::I64Equals),
        0x52 => Some(Instruction::I64NotEquals),
        0x53 => Some(Instruction::I64LessThanSigned),
        0x54 => Some(Instruction::I64LessThanUnsigned),
        0x55 => Some(Instruction::I64GreaterThanSigned),
        0x56 => Some(Instruction::I64GreaterThanUnsigned),
        0x57 => Some(Instruction::I64LessOrEqualToSigned),
        0x58 => Some(Instruction::I64LessOrEqualToUnsigned),
        0x59 => Some(Instruction::I64GreaterOrEqualToSigned),
        0x5A => Some(Instruction::I64GreaterOrEqualToUnsigned),
        0x5B => Some(Instruction::F32Equals),
        0x5C => Some(Instruction::F32NotEquals),
        0x5D => Some(Instruction::F32LessThan),
        0x5E => Some(Instruction::F32GreaterThan),
        0x5F => Some(Instruction::F32LessOrEqualTo),
        0x60 => Some(Instruction::F32GreaterOrEqualTo),
        0x61 => Some(Instruction::F64Equals),
        0x62 => Some(Instruction::F64NotEquals),
        0x63 => Some(Instruction::F64LessThan),
        0x64 => Some(Instruction::F64GreaterThan),
        0x65 => Some(Instruction::F64LessOrEqualTo),
        0x66 => Some(Instruction::F64GreaterOrEqualTo),
        0x67 => Some(Instruction::I32CountLeadingZeroBits),
        0x68 => Some(Instruction::I32CountTrailingZeroBits),
        0x69 => Some(Instruction::I32CountNonZeroBits),
        0x6A => Some(Instruction::I32Add),
        0x6B => Some(Instruction::I32Sub),
        0x6C => Some(Instruction::I32Mul),
        0x6D => Some(Instruction::I32DivSigned),
        0x6E => Some(Instruction::I32DivUnsigned),
        0x6F => Some(Instruction::I32RemainderSigned),
        0x70 => Some(Instruction::I32RemainderUnsigned),
        0x71 => Some(Instruction::I32LogicalAnd),
        0x72 => Some(Instruction::I32LogicalOr),
        0x73 => Some(Instruction::I32LogicalXor),
        0x74 => Some(Instruction::I32ShiftLeft),
        0x75 => Some(Instruction::I32ShiftRightSigned),
        0x76 => Some(Instruction::I32ShiftRightUnsigned),
        0x77 => Some(Instruction::I32RotateLeft),
        0x78 => Some(Instruction::I32RotateRight),
        0x79 => Some(Instruction::I64CountLeadingZeroBits),
        0x7A => Some(Instruction::I64CountTrailingZeroBits),
        0x7B => Some(Instruction::I64CountNonZeroBits),
        0x7C => Some(Instruction::I64Add),
        0x7D => Some(Instruction::I64Sub),
        0x7E => Some(Instruction::I64Mul),
        0x7F => Some(Instruction::I64DivSigned),
        0x80 => Some(Instruction::I64DivUnsigned),
        0x81 => Some(Instruction::I64RemainderSigned),
        0x82 => Some(Instruction::I64RemainderUnsigned),
        0x83 => Some(Instruction::I64LogicalAnd),
        0x84 => Some(Instruction::I64LogicalOr),
        0x85 => Some(Instruction::I64LogicalXor),
        0x86 => Some(Instruction::I64ShiftLeft),
        0x87 => Some(Instruction::I64ShiftRightSigned),
        0x88 => Some(Instruction::I64ShiftRightUnsigned),
        0x89 => Some(Instruction::I64RotateLeft),
        0x8A => Some(Instruction::I64RotateRight),
        0x8B => Some(Instruction::F32Abs),
        0x8C => Some(Instruction::F32Neg),
        0x8D => Some(Instruction::F32Ceil),
        0x8E => Some(Instruction::F32Floor),
        0x8F => Some(Instruction::F32Trunc),
        0x90 => Some(Instruction::F32Nearest),
        0x91 => Some(Instruction::F32Sqrt),
        0x92 => Some(Instruction::F32Add),
        0x93 => Some(Instruction::F32Sub),
        0x94 => Some(Instruction::F32Mul),
        0x95 => Some(Instruction::F32Div),
        0x96 => Some(Instruction::F32Min),
        0x97 => Some(Instruction::F32Max),
        0x98 => Some(Instruction::F32CopySign),
        0x99 => Some(Instruction::F64Abs),
        0x9A => Some(Instruction::F64Neg),
        0x9B => Some(Instruction::F64Ceil),
        0x9C => Some(Instruction::F64Floor),
        0x9D => Some(Instruction::F64Trunc),
        0x9E => Some(Instruction::F64Nearest),
        0x9F => Some(Instruction::F64Sqrt),
        0xA0 => Some(Instruction::F64Add),
        0xA1 => Some(Instruction::F64Sub),
        0xA2 => Some(Instruction::F64Mul),
        0xA3 => Some(Instruction::F64Div),
        0xA4 => Some(Instruction::F64Min),
        0xA5 => Some(Instruction::F64Max),
        0xA6 => Some(Instruction::F64CopySign),
        0xA7 => Some(Instruction::I32WrapI64),
        0xA8 => Some(Instruction::I32TruncF32Signed),
        0xA9 => Some(Instruction::I32TruncF32Unsigned),
        0xAA => Some(Instruction::I32TruncF64Signed),
        0xAB => Some(Instruction::I32TruncF64Unsigned),
        0xAC => Some(Instruction::I64ExtendI32Signed),
        0xAD => Some(Instruction::I64ExtendI32Unsigned),
        0xAE => Some(Instruction::I64TruncF32Signed),
        0xAF => Some(Instruction::I64TruncF32Unsigned),
        0xB0 => Some(Instruction::I64TruncF64Signed),
        0xB1 => Some(Instruction::I64TruncF64Unsigned),
        0xB2 => Some(Instruction::F32ConvertI32Signed),
        0xB3 => Some(Instruction::F32ConvertI32Unsigned),
        0xB4 => Some(Instruction::F32ConvertI64Signed),
        0xB5 => Some(Instruction::F32ConvertI64Unsigned),
        0xB6 => Some(Instruction::F32DemoteF64),
        0xB7 => Some(Instruction::F64ConvertI32Signed),
        0xB8 => Some(Instruction::F64ConvertI32Unsigned),
        0xB9 => Some(Instruction::F64ConvertI64Signed),
        0xBA => Some(Instruction::F64ConvertI64Unsigned),
        0xBB => Some(Instruction::F64PromoteF32),
        0xBC => Some(Instruction::I32ReinterpretAsF32),
        0xBD => Some(Instruction::I64ReinterpretAsF64),
        0xBE => Some(Instruction::F32ReinterpretAsI32),
        0xBF => Some(Instruction::F64ReinterpretAsI64),
        0xC0 => Some(Instruction::I32Extend8Signed),
        0xC1 => Some(Instruction::I32Extend16Signed),
        0xC2 => Some(Instruction::I64Extend8Signed),
        0xC3 => Some(Instruction::I64Extend16Signed),
        0xC4 => Some(Instruction::I64Extend32Signed),
        _ => None,
    }
}

/// The instruction of opcode `op`, whose immediates start at `q`.
pub open spec fn spec_base_imm(s: Seq<u8>, q: int, e: int, op: u8) -> SpecResult<Instruction> {
    match op {
        0x0C => {
            match spec_index(s, q, e) {
                Ok((v0, q1)) => {
                    Ok((Instruction::Branch { index: LabelIdx(v0) }, q1))
                },
                Err(er) => Err(er),
            }
        },
        0x0D => {
            match spec_index(s, q, e) {
                Ok((v0, q1)) => {
                    Ok((Instruction::BranchIf { index: LabelIdx(v0) }, q1))
                },
                Err(er) => Err(er),
            }
        },
        0x10 => {
            match spec_index(s, q, e) {
                Ok((v0, q1)) => {
                    Ok((Instruction::Call { function: FuncIdx(v0) }, q1))
                },
                Err(er) => Err(er),
            }
        },
        0x11 => {
            match spec_index(s, q, e) {
                Ok((v0, q1)) => {
                    match spec_index(s, q1, e) {
                        Ok((v1, q2)) => {
                            Ok((Instruction::CallIndirect { type_idx: TypeIdx(v0), table_idx: TableIdx(v1) }, q2))
                        },
                        Err(er) => Err(er),
                    }
                },
                Err(er) => Err(er),
            }
        },
        0xD0 => {
            match spec_read_ref_type(s, q, e) {
                Ok((v0, q1)) => {
                    Ok((Instruction::RefNull { reftype: v0 }, q1))
                },
                Err(er) => Err(er),
            }
        },
        0xD2 => {
            match spec_index(s, q, e) {
                Ok((v0, q1)) => {
                    Ok((Instruction::RefFunc { index: FuncIdx(v0) }, q1))
                },
                Err(er) => Err(er),
            }
        },
        0x20 => {
            match spec_index(s, q, e) {
                Ok((v0, q1)) => {
                    Ok((Instruction::LocalGet(LocalIdx(v0)), q1))
                },
                Err(er) => Err(er),
            }
        },
        0x21 => {
            match spec_index(s, q, e) {
                Ok((v0, q1)) => {
                    Ok((Instruction::LocalSet(LocalIdx(v0)), q1))
                },
                Err(er) => Err(er),
            }
        },
        0x22 => {
            match spec_index(s, q, e) {
                Ok((v0, q1)) => {
                    Ok((Instruction::LocalTee(LocalIdx(v0)), q1))
                },
                Err(er) => Err(er),
            }
        },
        0x23 => {
            match spec_index(s, q, e) {
                Ok((v0, q1)) => {
                    Ok((Instruction::GlobalGet(GlobalIdx(v0)), q1))
                },
                Err(er) => Err(er),
            }
        },
        0x24 => {
            match spec_index(s, q, e) {
                Ok((v0, q1)) => {
                    Ok((Instruction::GlobalSet(GlobalIdx(v0)), q1))
                },
                Err(er) => Err(er),
            }
        },
        0x25 => {
            match spec_index(s, q, e) {
                Ok((v0, q1)) => {
                    Ok((Instruction::TableGet { index: TableIdx(v0) }, q1))
                },
                Err(er) => Err(er),
            }
        },
        0x26 => {
            match spec_index(s, q, e) {
                Ok((v0, q1)) => {
                    Ok((Instruction::TableSet { index: TableIdx(v0) }, q1))
                },
                Err(er) => Err(er),
            }
        },
        0x28 => {
            match spec_mem_arg(s, q, e) {
                Ok((v0, q1)) => {
                    Ok((Instruction::Load { numtype: NumType::I32, memarg: v0 }, q1))
                },
                Err(er) => Err(er),
            }
        },
        0x29 => {
            match spec_mem_arg(s, q, e) {
                Ok((v0, q1)) => {
                    Ok((Instruction::Load { numtype: NumType::I64, memarg: v0 }, q1))
                },
                Err(er) => Err(er),
            }
        },
        0x2A => {
            match spec_mem_arg(s, q, e) {
                Ok((v0, q1)) => {
                    Ok((Instruction::Load { numtype: NumType::F32, memarg: v0 }, q1))
                },
                Err(er) => Err(er),
            }
        },
        0x2B => {
            match spec_mem_arg(s, q, e) {
                Ok((v0, q1)) => {
                    Ok((Instruction::Load { numtype: NumType::F64, memarg: v0 }, q1))
                },
                Err(er) => Err(er),
            }
        },
        0x2C => {
            match spec_mem_arg(s, q, e) {
                Ok((v0, q1)) => {
                    Ok((Instruction::Load8 { numtype: NumType::I32, memarg: v0, signedness: Signedness::Signed }, q1))
                },
                Err(er) => Err(er),
            }
        },
        0x2D => {
            match spec_mem_arg(s, q, e) {
                Ok((v0, q1)) => {
                    Ok((Instruction::Load8 { numtype: NumType::I32, memarg: v0, signedness: Signedness::Unsigned }, q1))
                },
                Err(er) => Err(er),
            }
        },
        0x2E => {
            match spec_mem_arg(s, q, e) {
                Ok((v0, q1)) => {
                    Ok((Instruction::Load16 { numtype: NumType::I32, memarg: v0, signedness: Signedness::Signed }, q1))
                },
                Err(er) => Err(er),
            }
        },
        0x2F => {
            match spec_mem_arg(s, q, e) {
                Ok((v0, q1)) => {
                    Ok((Instruction::Load16 { numtype: NumType::I32, memarg: v0, signedness: Signedness::Unsigned }, q1))
                },
                Err(er) => Err(er),
            }
        },
        0x30 => {
            match spec_mem_arg(s, q, e) {
                Ok((v0, q1)) => {
                    Ok((Instruction::Load8 { numtype: NumType::I64, memarg: v0, signedness: Signedness::Signed }, q1))
                },
                Err(er) => Err(er),
            }
        },
        0x31 => {
            match spec_mem_arg(s, q, e) {
                Ok((v0, q1)) => {
                    Ok((Instruction::Load8 { numtype: NumType::I64, memarg: v0, signedness: Signedness::Unsigned }, q1))
                },
                Err(er) => Err(er),
            }
        },
        0x32 => {
            match spec_mem_arg(s, q, e) {
                Ok((v0, q1)) => {
                    Ok((Instruction::Load16 { numtype: NumType::I64, memarg: v0, signedness: Signedness::Signed }, q1))
                },
                Err(er) => Err(er),
            }
        },
        0x33 => {
            match spec_mem_arg(s, q, e) {
                Ok((v0, q1)) => {
                    Ok((Instruction::Load16 { numtype: NumType::I64, memarg: v0, signedness: Signedness::Unsigned }, q1))
                },
                Err(er) => Err(er),
            }
        },
        0x34 => {
            match spec_mem_arg(s, q, e) {
                Ok((v0, q1)) => {
                    Ok((Instruction::Load32 { memarg: v0, signedness: Signedness::Signed }, q1))
                },
                Err(er) => Err(er),
            }
        },
        0x35 => {
            match spec_mem_arg(s, q, e) {
                Ok((v0, q1)) => {
                    Ok((Instruction::Load32 { memarg: v0, signedness: Signedness::Unsigned }, q1))
                },
                Err(er) => Err(er),
            }
        },
        0x36 => {
            match spec_mem_arg(s, q, e) {
                Ok((v0, q1)) => {
                    Ok((Instruction::Store { numtype: NumType::I32, memarg: v0 }, q1))
                },
                Err(er) => Err(er),
            }
        },
        0x37 => {
            match spec_mem_arg(s, q, e) {
                Ok((v0, q1)) => {
                    Ok((Instruction::Store { numtype: NumType::I64, memarg: v0 }, q1))
                },
                Err(er) => Err(er),
            }
        },
        0x38 => {
            match spec_mem_arg(s, q, e) {
                Ok((v0, q1)) => {
                    Ok((Instruction::Store { numtype: NumType::F32, memarg: v0 }, q1))
                },
                Err(er) => Err(er),
            }
        },
        0x39 => {
            match spec_mem_arg(s, q, e) {
                Ok((v0, q1)) => {
                    Ok((Instruction::Store { numtype: NumType::F64, memarg: v0 }, q1))
                },
                Err(er) => Err(er),
            }
        },
        0x3A => {
            match spec_mem_arg(s, q, e) {
                Ok((v0, q1)) => {
                    Ok((Instruction::Store8 { numtype: NumType::I32, memarg: v0 }, q1))
                },
                Err(er) => Err(er),
            }
        },
        0x3B => {
            match spec_mem_arg(s, q, e) {
                Ok((v0, q1)) => {
                    Ok((Instruction::Store16 { numtype: NumType::I32, memarg: v0 }, q1))
                },
                Err(er) => Err(er),
            }
        },
        0x3C => {
            match spec_mem_arg(s, q, e) {
                Ok((v0, q1)) => {
                    Ok((Instruction::Store8 { numtype: NumType::I64, memarg: v0 }, q1))
                },
                Err(er) => Err(er),
            }
        },
        0x3D => {
            match spec_mem_arg(s, q, e) {
                Ok((v0, q1)) => {
                    Ok((Instruction::Store16 { numtype: NumType::I64, memarg: v0 }, q1))
                },
                Err(er) => Err(er),
            }
        },
        0x3E => {
            match spec_mem_arg(s, q, e) {
                Ok((v0, q1)) => {
                    Ok((Instruction::Store32 { numtype: NumType::I64, memarg: v0 }, q1))
                },
                Err(er) => Err(er),
            }
        },
        0x3F => {
            match spec_zero(s, q, e) {
                Ok((v0, q1)) => {
                    Ok((Instruction::MemorySize, q1))
                },
                Err(er) => Err(er),
            }
        },
        0x40 => {
            match spec_zero(s, q, e) {
                Ok((v0, q1)) => {
                    Ok((Instruction::MemoryGrow, q1))
                },
                Err(er) => Err(er),
            }
        },
        0x41 => {
            match spec_i32(s, q, e) {
                Ok((v0, q1)) => {
                    Ok((Instruction::I32Const(v0), q1))
                },
                Err(er) => Err(er),
            }
        },
        0x42 => {
            match spec_i64(s, q, e) {
                Ok((v0, q1)) => {
                    Ok((Instruction::I64Const(v0), q1))
                },
                Err(er) => Err(er),
            }
        },
        0x43 => {
            match spec_le32(s, q, e) {
                Ok((v0, q1)) => {
                    Ok((Instruction::F32Const(v0), q1))
                },
                Err(er) => Err(er),
            }
        },
        0x44 => {
            match spec_le64(s, q, e) {
                Ok((v0, q1)) => {
                    Ok((Instruction::F64Const(v0), q1))
                },
                Err(er) => Err(er),
            }
        },
        _ => Err((ErrorKind::UnknownInstruction, q - 1)),
    }
}

fn parse_base_imm<'a>(reader: &mut Reader<'a>, op: u8) -> (r: ParseResult<'a, Instruction>)
    requires
        old(reader).wf(),
        old(reader).pos() >= 1,
    ensures
        final(reader).follows(old(reader)),
        agrees(
            r,
            *final(reader),
            spec_base_imm(old(reader).data(), old(reader).pos(), old(reader).limit(), op),
        ),
{
    match op {
        0x0C => {
            let v0 = match reader.read_index::<LabelIdx>() {
                Ok(v) => v,
                Err(er) => return Err(er),
            };
            Ok(Instruction::Branch { index: v0 })
        },
        0x0D => {
            let v0 = match reader.read_index::<LabelIdx>() {
                Ok(v) => v,
                Err(er) => return Err(er),
            };
            Ok(Instruction::BranchIf { index: v0 })
        },
        0x10 => {
            let v0 = match reader.read_index::<FuncIdx>() {
                Ok(v) => v,
                Err(er) => return Err(er),
            };
            Ok(Instruction::Call { function: v0 })
        },
        0x11 => {
            let v0 = match reader.read_index::<TypeIdx>() {
                Ok(v) => v,
                Err(er) => return Err(er),
            };
            let v1 = match reader.read_index::<TableIdx>() {
                Ok(v) => v,
                Err(er) => return Err(er),
            };
            Ok(Instruction::CallIndirect { type_idx: v0, table_idx: v1 })
        },
        0xD0 => {
            let v0 = match RefType::parse(reader) {
                Ok(v) => v,
                Err(er) => return Err(er),
            };
            Ok(Instruction::RefNull { reftype: v0 })
        },
        0xD2 => {
            let v0 = match reader.read_index::<FuncIdx>() {
                Ok(v) => v,
                Err(er) => return Err(er),
            };
            Ok(Instruction::RefFunc { index: v0 })
        },
        0x20 => {
            let v0 = match reader.read_index::<LocalIdx>() {
                Ok(v) => v,
                Err(er) => return Err(er),
            };
            Ok(Instruction::LocalGet(v0))
        },
        0x21 => {
            let v0 = match reader.read_index::<LocalIdx>() {
                Ok(v) => v,
                Err(er) => return Err(er),
            };
            Ok(Instruction::LocalSet(v0))
        },
        0x22 => {
            let v0 = match reader.read_index::<LocalIdx>() {
                Ok(v) => v,
                Err(er) => return Err(er),
            };
            Ok(Instruction::LocalTee(v0))
        },
        0x23 => {
            let v0 = match reader.read_index::<GlobalIdx>() {
                Ok(v) => v,
                Err(er) => return Err(er),
            };
            Ok(Instruction::GlobalGet(v0))
        },
        0x24 => {
            let v0 = match reader.read_index::<GlobalIdx>() {
                Ok(v) => v,
                Err(er) => return Err(er),
            };
            Ok(Instruction::GlobalSet(v0))
        },
        0x25 => {
            let v0 = match reader.read_index::<TableIdx>() {
                Ok(v) => v,
                Err(er) => return Err(er),
            };
            Ok(Instruction::TableGet { index: v0 })
        },
        0x26 => {
            let v0 = match reader.read_index::<TableIdx>() {
                Ok(v) => v,
                Err(er) => return Err(er),
            };
            Ok(Instruction::TableSet { index: v0 })
        },
        0x28 => {
            let v0 = match MemArg::parse(reader) {
                Ok(v) => v,
                Err(er) => return Err(er),
            };
            Ok(Instruction::Load { numtype: NumType::I32, memarg: v0 })
        },
        0x29 => {
            let v0 = match MemArg::parse(reader) {
                Ok(v) => v,
                Err(er) => return Err(er),
            };
            Ok(Instruction::Load { numtype: NumType::I64, memarg: v0 })
        },
        0x2A => {
            let v0 = match MemArg::parse(reader) {
                Ok(v) => v,
                Err(er) => return Err(er),
            };
            Ok(Instruction::Load { numtype: NumType::F32, memarg: v0 })
        },
        0x2B => {
            let v0 = match MemArg::parse(reader) {
                Ok(v) => v,
                Err(er) => return Err(er),
            };
            Ok(Instruction::Load { numtype: NumType::F64, memarg: v0 })
        },
        0x2C => {
            let v0 = match MemArg::parse(reader) {
                Ok(v) => v,
                Err(er) => return Err(er),
            };
            Ok(Instruction::Load8 { numtype: NumType::I32, memarg: v0, signedness: Signedness::Signed })
        },
        0x2D => {
            let v0 = match MemArg::parse(reader) {
                Ok(v) => v,
                Err(er) => return Err(er),
            };
            Ok(Instruction::Load8 { numtype: NumType::I32, memarg: v0, signedness: Signedness::Unsigned })
        },
        0x2E => {
            let v0 = match MemArg::parse(reader) {
                Ok(v) => v,
                Err(er) => return Err(er),
            };
            Ok(Instruction::Load16 { numtype: NumType::I32, memarg: v0, signedness: Signedness::Signed })
        },
        0x2F => {
            let v0 = match MemArg::parse(reader) {
                Ok(v) => v,
                Err(er) => return Err(er),
            };
            Ok(Instruction::Load16 { numtype: NumType::I32, memarg: v0, signedness: Signedness::Unsigned })
        },
        0x30 => {
            let v0 = match MemArg::parse(reader) {
                Ok(v) => v,
                Err(er) => return Err(er),
            };
            Ok(Instruction::Load8 { numtype: NumType::I64, memarg: v0, signedness: Signedness::Signed })
        },
        0x31 => {
            let v0 = match MemArg::parse(reader) {
                Ok(v) => v,
                Err(er) => return Err(er),
            };
            Ok(Instruction::Load8 { numtype: NumType::I64, memarg: v0, signedness: Signedness::Unsigned })
        },
        0x32 => {
            let v0 = match MemArg::parse(reader) {
                Ok(v) => v,
                Err(er) => return Err(er),
            };
            Ok(Instruction::Load16 { numtype: NumType::I64, memarg: v0, signedness: Signedness::Signed })
        },
        0x33 => {
            let v0 = match MemArg::parse(reader) {
                Ok(v) => v,
                Err(er) => return Err(er),
            };
            Ok(Instruction::Load16 { numtype: NumType::I64, memarg: v0, signedness: Signedness::Unsigned })
        },
        0x34 => {
            let v0 = match MemArg::parse(reader) {
                Ok(v) => v,
                Err(er) => return Err(er),
            };
            Ok(Instruction::Load32 { memarg: v0, signedness: Signedness::Signed })
        },
        0x35 => {
            let v0 = match MemArg::parse(reader) {
                Ok(v) => v,
                Err(er) => return Err(er),
            };
            Ok(Instruction::Load32 { memarg: v0, signedness: Signedness::Unsigned })
        },
        0x36 => {
            let v0 = match MemArg::parse(reader) {
                Ok(v) => v,
                Err(er) => return Err(er),
            };
            Ok(Instruction::Store { numtype: NumType::I32, memarg: v0 })
        },
        0x37 => {
            let v0 = match MemArg::parse(reader) {
                Ok(v) => v,
                Err(er) => return Err(er),
            };
            Ok(Instruction::Store { numtype: NumType::I64, memarg: v0 })
        },
        0x38 => {
            let v0 = match MemArg::parse(reader) {
                Ok(v) => v,
                Err(er) => return Err(er),
            };
            Ok(Instruction::Store { numtype: NumType::F32, memarg: v0 })
        },
        0x39 => {
            let v0 = match MemArg::parse(reader) {
                Ok(v) => v,
                Err(er) => return Err(er),
            };
            Ok(Instruction::Store { numtype: NumType::F64, memarg: v0 })
        },
        0x3A => {
            let v0 = match MemArg::parse(reader) {
                Ok(v) => v,
                Err(er) => return Err(er),
            };
            Ok(Instruction::Store8 { numtype: NumType::I32, memarg: v0 })
        },
        0x3B => {
            let v0 = match MemArg::parse(reader) {
                Ok(v) => v,
                Err(er) => return Err(er),
            };
            Ok(Instruction::Store16 { numtype: NumType::I32, memarg: v0 })
        },
        0x3C => {
            let v0 = match MemArg::parse(reader) {
                Ok(v) => v,
                Err(er) => return Err(er),
            };
            Ok(Instruction::Store8 { numtype: NumType::I64, memarg: v0 })
        },
        0x3D => {
            let v0 = match MemArg::parse(reader) {
                Ok(v) => v,
                Err(er) => return Err(er),
            };
            Ok(Instruction::Store16 { numtype: NumType::I64, memarg: v0 })
        },
        0x3E => {
            let v0 = match MemArg::parse(reader) {
                Ok(v) => v,
                Err(er) => return Err(er),
            };
            Ok(Instruction::Store32 { numtype: NumType::I64, memarg: v0 })
        },
        0x3F => {
            let _z0 = match read_zero(reader) {
                Ok(v) => v,
                Err(er) => return Err(er),
            };
            Ok(Instruction::MemorySize)
        },
        0x40 => {
            let _z0 = match read_zero(reader) {
                Ok(v) => v,
                Err(er) => return Err(er),
            };
            Ok(Instruction::MemoryGrow)
        },
        0x41 => {
            let v0 = match read_i32(reader) {
                Ok(v) => v,
                Err(er) => return Err(er),
            };
            Ok(Instruction::I32Const(v0))
        },
        0x42 => {
            let v0 = match read_i64(reader) {
                Ok(v) => v,
                Err(er) => return Err(er),
            };
            Ok(Instruction::I64Const(v0))
        },
        0x43 => {
            let v0 = match reader.read_u32_le() {
                Ok(v) => v,
                Err(er) => return Err(er),
            };
            Ok(Instruction::F32Const(v0))
        },
        0x44 => {
            let v0 = match reader.read_u64_le() {
                Ok(v) => v,
                Err(er) => return Err(er),
            };
            Ok(Instruction::F64Const(v0))
        },
        _ => Err(reader.mark_relative(-1).into_error(ErrorKind::UnknownInstruction)),
    }
}

/// The instruction that `0xFC` and sub-opcode `op` stand for alone.
pub open spec fn spec_extended_simple(op: u32) -> Option<Instruction> {
    match op {
        0 => Some(Instruction::I32TruncSatF32Signed),
        1 => Some(Instruction::I32TruncSatF32Unsigned),
        2 => Some(Instruction::I32TruncSatF64Signed),
        3 => Some(Instruction::I32TruncSatF64Unsigned),
        4 => Some(Instruction::I64TruncSatF32Signed),
        5 => Some(Instruction::I64TruncSatF32Unsigned),
        6 => Some(Instruction::I64TruncSatF64Signed),
        7 => Some(Instruction::I64TruncSatF64Unsigned),
        _ => None,
    }
}

fn extended_simple(op: u32) -> (r: Option<Instruction>)
    ensures
        r == spec_extended_simple(op),
{
    match op {
        0 => Some(Instruction::I32TruncSatF32Signed),
        1 => Some(Instruction::I32TruncSatF32Unsigned),
        2 => Some(Instruction::I32TruncSatF64Signed),
        3 => Some(Instruction::I32TruncSatF64Unsigned),
        4 => Some(Instruction::I64TruncSatF32Signed),
        5 => Some(Instruction::I64TruncSatF32Unsigned),
        6 => Some(Instruction::I64TruncSatF64Signed),
        7 => Some(Instruction::I64TruncSatF64Unsigned),
        _ => None,
    }
}

/// The instruction of `0xFC` and sub-opcode `op`, whose immediates start at `q`; `at` is where the sub-opcode starts.
pub open spec fn spec_extended_imm(s: Seq<u8>, q: int, e: int, op: u32, at: int) -> SpecResult<Instruction> {
    match op {
        8 => {
            match spec_index(s, q, e) {
                Ok((v0, q1)) => {
                    match spec_zero(s, q1, e) {
                        Ok((v1, q2)) => {
                            Ok((Instruction::MemoryInit { index: DataIdx(v0) }, q2))
                        },
                        Err(er) => Err(er),
                    }
                },
                Err(er) => Err(er),
            }
        },
        9 => {
            match spec_index(s, q, e) {
                Ok((v0, q1)) => {
                    Ok((Instruction::DataDrop { index: DataIdx(v0) }, q1))
                },
                Err(er) => Err(er),
            }
        },
        10 => {
            match spec_zero(s, q, e) {
                Ok((v0, q1)) => {
                    match spec_zero(s, q1, e) {
                        Ok((v1, q2)) => {
                            Ok((Instruction::MemoryCopy, q2))
                        },
                        Err(er) => Err(er),
                    }
                },
                Err(er) => Err(er),
            }
        },
        11 => {
            match spec_zero(s, q, e) {
                Ok((v0, q1)) => {
                    Ok((Instruction::MemoryFill, q1))
                },
                Err(er) => Err(er),
            }
        },
        12 => {
            match spec_index(s, q, e) {
                Ok((v0, q1)) => {
                    match spec_index(s, q1, e) {
                        Ok((v1, q2)) => {
                            Ok((Instruction::TableInit { y: ElemIdx(v0), x: TableIdx(v1) }, q2))
                        },
                        Err(er) => Err(er),
                    }
                },
                Err(er) => Err(er),
            }
        },
        13 => {
            match spec_index(s, q, e) {
                Ok((v0, q1)) => {
                    Ok((Instruction::TableDrop { x: ElemIdx(v0) }, q1))
                },
                Err(er) => Err(er),
            }
        },
        14 => {
            match spec_index(s, q, e) {
                Ok((v0, q1)) => {
                    match spec_index(s, q1, e) {
                        Ok((v1, q2)) => {
                            Ok((Instruction::TableCopy { x: TableIdx(v0), y: TableIdx(v1) }, q2))
                        },
                        Err(er) => Err(er),
                    }
                },
                Err(er) => Err(er),
            }
        },
        15 => {
            match spec_index(s, q, e) {
                Ok((v0, q1)) => {
                    Ok((Instruction::TableGrow { x: TableIdx(v0) }, q1))
                },
                Err(er) => Err(er),
            }
        },
        16 => {
            match spec_index(s, q, e) {
                Ok((v0, q1)) => {
                    Ok((Instruction::TableSize { x: TableIdx(v0) }, q1))
                },
                Err(er) => Err(er),
            }
        },
        17 => {
            match spec_index(s, q, e) {
                Ok((v0, q1)) => {
                    Ok((Instruction::TableFill { x: TableIdx(v0) }, q1))
                },
                Err(er) => Err(er),
            }
        },
        _ => Err((ErrorKind::UnknownExtendedInstruction, at)),
    }
}

fn parse_extended_imm<'a>(reader: &mut Reader<'a>, op: u32, mark: Mark<'a>) -> (r: ParseResult<'a, Instruction>)
    requires
        old(reader).wf(),
    ensures
        final(reader).follows(old(reader)),
        agrees(
            r,
            *final(reader),
            spec_extended_imm(old(reader).data(), old(reader).pos(), old(reader).limit(), op, mark.pos()),
        ),
{
    match op {
        8 => {
            let v0 = match reader.read_index::<DataIdx>() {
                Ok(v) => v,
                Err(er) => return Err(er),
            };
            let _z1 = match read_zero(reader) {
                Ok(v) => v,
                Err(er) => return Err(er),
            };
            Ok(Instruction::MemoryInit { index: v0 })
        },
        9 => {
            let v0 = match reader.read_index::<DataIdx>() {
                Ok(v) => v,
                Err(er) => return Err(er),
            };
            Ok(Instruction::DataDrop { index: v0 })
        },
        10 => {
            let _z0 = match read_zero(reader) {
                Ok(v) => v,
                Err(er) => return Err(er),
            };
            let _z1 = match read_zero(reader) {
                Ok(v) => v,
                Err(er) => return Err(er),
            };
            Ok(Instruction::MemoryCopy)
        },
        11 => {
            let _z0 = match read_zero(reader) {
                Ok(v) => v,
                Err(er) => return Err(er),
            };
            Ok(Instruction::MemoryFill)
        },
        12 => {
            let v0 = match reader.read_index::<ElemIdx>() {
                Ok(v) => v,
                Err(er) => return Err(er),
            };
            let v1 = match reader.read_index::<TableIdx>() {
                Ok(v) => v,
                Err(er) => return Err(er),
            };
            Ok(Instruction::TableInit { y: v0, x: v1 })
        },
        13 => {
            let v0 = match reader.read_index::<ElemIdx>() {
                Ok(v) => v,
                Err(er) => return Err(er),
            };
            Ok(Instruction::TableDrop { x: v0 })
        },
        14 => {
            let v0 = match reader.read_index::<TableIdx>() {
                Ok(v) => v,
                Err(er) => return Err(er),
            };
            let v1 = match reader.read_index::<TableIdx>() {
                Ok(v) => v,
                Err(er) => return Err(er),
            };
            Ok(Instruction::TableCopy { x: v0, y: v1 })
        },
        15 => {
            let v0 = match reader.read_index::<TableIdx>() {
                Ok(v) => v,
                Err(er) => return Err(er),
            };
            Ok(Instruction::TableGrow { x: v0 })
        },
        16 => {
            let v0 = match reader.read_index::<TableIdx>() {
                Ok(v) => v,
                Err(er) => return Err(er),
            };
            Ok(Instruction::TableSize { x: v0 })
        },
        17 => {
            let v0 = match reader.read_index::<TableIdx>() {
                Ok(v) => v,
                Err(er) => return Err(er),
            };
            Ok(Instruction::TableFill { x: v0 })
        },
        _ => Err(mark.into_error(ErrorKind::UnknownExtendedInstruction)),
    }
}

/// The vector instruction that `0xFD` and sub-opcode `op` stand for alone.
pub open spec fn spec_vector_simple(op: u32) -> Option<VectorInstruction> {
    match op {
        14 => Some(VectorInstruction::I8x16Swizzle),
        15 => Some(VectorInstruction::I8x16Splat),
        16 => Some(VectorInstruction::I16x8Splat),
        17 => Some(VectorInstruction::I32x4Splat),
        18 => Some(VectorInstruction::I64x2Splat),
        19 => Some(VectorInstruction::F32x4Splat),
        20 => Some(VectorInstruction::F64x2Splat),
        35 => Some(VectorInstruction::I8x16Equal),
        36 => Some(VectorInstruction::I8x16NotEqual),
        37 => Some(VectorInstruction::I8x16LessThan(Signedness::Signed)),
        38 => Some(VectorInstruction::I8x16LessThan(Signedness::Unsigned)),
        39 => Some(VectorInstruction::I8x16GreaterThan(Signedness::Signed)),
        40 => Some(VectorInstruction::I8x16GreaterThan(Signedness::Unsigned)),
        41 => Some(VectorInstruction::I8x16LessOrEqualTo(Signedness::Signed)),
        42 => Some(VectorInstruction::I8x16LessOrEqualTo(Signedness::Unsigned)),
        43 => Some(VectorInstruction::I8x16GreaterOrEqualTo(Signedness::Signed)),
        44 => Some(VectorInstruction::I8x16GreaterOrEqualTo(Signedness::Unsigned)),
        45 => Some(VectorInstruction::I16x8Equal),
        46 => Some(VectorInstruction::I16x8NotEqual),
        47 => Some(VectorInstruction::I16x8LessThan(Signedness::Signed)),
        48 => Some(VectorInstruction::I16x8LessThan(Signedness::Unsigned)),
        49 => Some(VectorInstruction::I16x8GreaterThan(Signedness::Signed)),
        50 => Some(VectorInstruction::I16x8GreaterThan(Signedness::Unsigned)),
        51 => Some(VectorInstruction::I16x8LessOrEqualTo(Signedness::Signed)),
        52 => Some(VectorInstruction::I16x8LessOrEqualTo(Signedness::Unsigned)),
        53 => Some(VectorInstruction::I16x8GreaterOrEqualTo(Signedness::Signed)),
        54 => Some(VectorInstruction::I16x8GreaterOrEqualTo(Signedness::Unsigned)),
        55 => Some(VectorInstruction::I32x4Equal),
        56 => Some(VectorInstruction::I32x4NotEqual),
        57 => Some(VectorInstruction::I32x4LessThan(Signedness::Signed)),
        58 => Some(VectorInstruction::I32x4LessThan(Signedness::Unsigned)),
        59 => Some(VectorInstruction::I32x4GreaterThan(Signedness::Signed)),
        60 => Some(VectorInstruction::I32x4GreaterThan(Signedness::Unsigned)),
        61 => Some(VectorInstruction::I32x4LessOrEqualTo(Signedness::Signed)),
        62 => Some(VectorInstruction::I32x4LessOrEqualTo(Signedness::Unsigned)),
        63 => Some(VectorInstruction::I32x4GreaterOrEqualTo(Signedness::Signed)),
        64 => Some(VectorInstruction::I32x4GreaterOrEqualTo(Signedness::Unsigned)),
        65 => Some(VectorInstruction::F32x4Equal),
        66 => Some(VectorInstruction::F32x4NotEqual),
        67 => Some(VectorInstruction::F32x4LessThan),
        68 => Some(VectorInstruction::F32x4GreaterThan),
        69 => Some(VectorInstruction::F32x4LessOrEqualTo),
        70 => Some(VectorInstruction::F32x4GreaterOrEqualTo),
        71 => Some(VectorInstruction::F64x2Equal),
        72 => Some(VectorInstruction::F64x2NotEqual),
        73 => Some(VectorInstruction::F64x2LessThan),
        74 => Some(VectorInstruction::F64x2GreaterThan),
        75 => Some(VectorInstruction::F64x2LessOrEqualTo),
        76 => Some(VectorInstruction::F64x2GreaterOrEqualTo),
        77 => Some(VectorInstruction::V128Not),
        78 => Some(VectorInstruction::V128And),
        79 => Some(VectorInstruction::V128AndNot),
        80 => Some(VectorInstruction::V128Or),
        81 => Some(VectorInstruction::V128Xor),
        82 => Some(VectorInstruction::V128BitSelect),
        83 => Some(VectorInstruction::V128AnyTrue),
        94 => Some(VectorInstruction::F32x4DemoteF64x2Zero),
        95 => Some(VectorInstruction::F64x2PromoteLowF32x4),
        96 => Some(VectorInstruction::I8x16Abs),
        97 => Some(VectorInstruction::I8x16Neg),
        98 => Some(VectorInstruction::I8x16PopCnt),
        99 => Some(VectorInstruction::I8x16AllTrue),
        100 => Some(VectorInstruction::I8x16Bitmask),
        101 => Some(VectorInstruction::I8x16NarrowI16x8(Signedness::Signed)),
        102 => Some(VectorInstruction::I8x16NarrowI16x8(Signedness::Unsigned)),
        103 => Some(VectorInstruction::F32x4Ceil),
        104 => Some(VectorInstruction::F32x4Floor),
        105 => Some(VectorInstruction::F32x4Trunc),
        106 => Some(VectorInstruction::F32x4Nearest),
        107 => Some(VectorInstruction::I8x16ShiftLeft),
        108 => Some(VectorInstruction::I8x16ShiftRight(Signedness::Signed)),
        109 => Some(VectorInstruction::I8x16ShiftRight(Signedness::Unsigned)),
        110 => Some(VectorInstruction::I8x16Add),
        111 => Some(VectorInstruction::I8x16AddSaturating(Signedness::Signed)),
        112 => Some(VectorInstruction::I8x16AddSaturating(Signedness::Unsigned)),
        113 => Some(VectorInstruction::I8x16Sub),
        114 => Some(VectorInstruction::I8x16SubSaturating(Signedness::Signed)),
        115 => Some(VectorInstruction::I8x16SubSaturating(Signedness::Unsigned)),
        116 => Some(VectorInstruction::F64x2Ceil),
        117 => Some(VectorInstruction::F64x2Floor),
        118 => Some(VectorInstruction::I8x16Min(Signedness::Signed)),
        119 => Some(VectorInstruction::I8x16Min(Signedness::Unsigned)),
        120 => Some(VectorInstruction::I8x16Max(Signedness::Signed)),
        121 => Some(VectorInstruction::I8x16Max(Signedness::Unsigned)),
        122 => Some(VectorInstruction::F64x2Trunc),
        123 => Some(VectorInstruction::I8x16Average),
        124 => Some(VectorInstruction::I16x8ExtAddPairwiseI8x16(Signedness::Signed)),
        125 => Some(VectorInstruction::I16x8ExtAddPairwiseI8x16(Signedness::Unsigned)),
        126 => Some(VectorInstruction::I32x4ExtAddPairwiseI16x8(Signedness::Signed)),
        127 => Some(VectorInstruction::I32x4ExtAddPairwiseI16x8(Signedness::Unsigned)),
        128 => Some(VectorInstruction::I16x8Abs),
        129 => Some(VectorInstruction::I16x8Neg),
        130 => Some(VectorInstruction::I16x8Q16MulrSat),
        131 => Some(VectorInstruction::I16x8AllTrue),
        132 => Some(VectorInstruction::I16x8Bitmask),
        133 => Some(VectorInstruction::I16x8NarrowI32x4(Signedness::Signed)),
        134 => Some(VectorInstruction::I16x8NarrowI32x4(Signedness::Unsigned)),
        135 => Some(VectorInstruction::I16x8ExtendLowI8x16(Signedness::Signed)),
        136 => Some(VectorInstruction::I16x8ExtendHighI8x16(Signedness::Signed)),
        137 => Some(VectorInstruction::I16x8ExtendLowI8x16(Signedness::Unsigned)),
        138 => Some(VectorInstruction::I16x8ExtendHighI8x16(Signedness::Unsigned)),
        139 => Some(VectorInstruction::I16x8ShiftLeft),
        140 => Some(VectorInstruction::I16x8ShiftRight(Signedness::Signed)),
        141 => Some(VectorInstruction::I16x8ShiftRight(Signedness::Unsigned)),
        142 => Some(VectorInstruction::I16x8Add),
        143 => Some(VectorInstruction::I16x8AddSaturating(Signedness::Signed)),
        144 => Some(VectorInstruction::I16x8AddSaturating(Signedness::Unsigned)),
        145 => Some(VectorInstruction::I16x8Sub),
        146 => Some(VectorInstruction::I16x8SubSaturating(Signedness::Signed)),
        147 => Some(VectorInstruction::I16x8SubSaturating(Signedness::Unsigned)),
        148 => Some(VectorInstruction::F64x2Nearest),
        149 => Some(VectorInstruction::I16x8Mul),
        150 => Some(VectorInstruction::I16x8Min(Signedness::Signed)),
        151 => Some(VectorInstruction::I16x8Min(Signedness::Unsigned)),
        152 => Some(VectorInstruction::I16x8Max(Signedness::Signed)),
        153 => Some(VectorInstruction::I16x8Max(Signedness::Unsigned)),
        155 => Some(VectorInstruction::I16x8Average),
        156 => Some(VectorInstruction::I16x8ExtMulLowI8x16(Signedness::Signed)),
        157 => Some(VectorInstruction::I16x8ExtMulHighI8x16(Signedness::Signed)),
        158 => Some(VectorInstruction::I16x8ExtMulLowI8x16(Signedness::Unsigned)),
        159 => Some(VectorInstruction::I16x8ExtMulHighI8x16(Signedness::Unsigned)),
        160 => Some(VectorInstruction::I32x4Abs),
        161 => Some(VectorInstruction::I32x4Neg),
        163 => Some(VectorInstruction::I32x4AllTrue),
        164 => Some(VectorInstruction::I32x4Bitmask),
        167 => Some(VectorInstruction::I32x4ExtendLowI16x8(Signedness::Signed)),
        168 => Some(VectorInstruction::I32x4ExtendHighI16x8(Signedness::Signed)),
        169 => Some(VectorInstruction::I32x4ExtendLowI16x8(Signedness::Unsigned)),
        170 => Some(VectorInstruction::I32x4ExtendHighI16x8(Signedness::Unsigned)),
        171 => Some(VectorInstruction::I32x4ShiftLeft),
        172 => Some(VectorInstruction::I32x4ShiftRight(Signedness::Signed)),
        173 => Some(VectorInstruction::I32x4ShiftRight(Signedness::Unsigned)),
        174 => Some(VectorInstruction::I32x4Add),
        177 => Some(VectorInstruction::I32x4Sub),
        181 => Some(VectorInstruction::I32x4Mul),
        182 => Some(VectorInstruction::I32x4Min(Signedness::Signed)),
        183 => Some(VectorInstruction::I32x4Min(Signedness::Unsigned)),
        184 => Some(VectorInstruction::I32x4Max(Signedness::Signed)),
        185 => Some(VectorInstruction::I32x4Max(Signedness::Unsigned)),
        186 => Some(VectorInstruction::I32x4DotI16x8),
        188 => Some(VectorInstruction::I32x4ExtMulLowI16x8(Signedness::Signed)),
        189 => Some(VectorInstruction::I32x4ExtMulHighI16x8(Signedness::Signed)),
        190 => Some(VectorInstruction::I32x4ExtMulLowI16x8(Signedness::Unsigned)),
        191 => Some(VectorInstruction::I32x4ExtMulHighI16x8(Signedness::Unsigned)),
        192 => Some(VectorInstruction::I64x2Abs),
        193 => Some(VectorInstruction::I64x2Neg),
        195 => Some(VectorInstruction::I64x2AllTrue),
        196 => Some(VectorInstruction::I64x2Bitmask),
        199 => Some(VectorInstruction::I64x2ExtendLowI32x4(Signedness::Signed)),
        200 => Some(VectorInstruction::I64x2ExtendHighI32x4(Signedness::Signed)),
        201 => Some(VectorInstruction::I64x2ExtendLowI32x4(Signedness::Unsigned)),
        202 => Some(VectorInstruction::I64x2ExtendHighI32x4(Signedness::Unsigned)),
        203 => Some(VectorInstruction::I64x2ShiftLeft),
        204 => Some(VectorInstruction::I64x2ShiftRight(Signedness::Signed)),
        205 => Some(VectorInstruction::I64x2ShiftRight(Signedness::Unsigned)),
        206 => Some(VectorInstruction::I64x2Add),
        209 => Some(VectorInstruction::I64x2Sub),
        213 => Some(VectorInstruction::I64x2Mul),
        214 => Some(VectorInstruction::I64x2Equal),
        215 => Some(VectorInstruction::I64x2NotEqual),
        216 => Some(VectorInstruction::I64x2LessThan),
        217 => Some(VectorInstruction::I64x2GreaterThan),
        218 => Some(VectorInstruction::I64x2LessOrEqualTo),
        219 => Some(VectorInstruction::I64x2GreaterOrEqualTo),
        220 => Some(VectorInstruction::I64x2ExtMulLowI32x4(Signedness::Signed)),
        221 => Some(VectorInstruction::I64x2ExtMulHighI32x4(Signedness::Signed)),
        222 => Some(VectorInstruction::I64x2ExtMulLowI32x4(Signedness::Unsigned)),
        223 => Some(VectorInstruction::I64x2ExtMulHighI32x4(Signedness::Unsigned)),
        224 => Some(VectorInstruction::F32x4Abs),
        225 => Some(VectorInstruction::F32x4Neg),
        227 => Some(VectorInstruction::F32x4Sqrt),
        228 => Some(VectorInstruction::F32x4Add),
        229 => Some(VectorInstruction::F32x4Sub),
        230 => Some(VectorInstruction::F32x4Mul),
        231 => Some(VectorInstruction::F32x4Div),
        232 => Some(VectorInstruction::F32x4Min),
        233 => Some(VectorInstruction::F32x4Max),
        234 => Some(VectorInstruction::F32x4PMin),
        235 => Some(VectorInstruction::F32x4PMax),
        236 => Some(VectorInstruction::F64x2Abs),
        237 => Some(VectorInstruction::F64x2Neg),
        239 => Some(VectorInstruction::F64x2Sqrt),
        240 => Some(VectorInstruction::F64x2Add),
        241 => Some(VectorInstruction::F64x2Sub),
        242 => Some(VectorInstruction::F64x2Mul),
        243 => Some(VectorInstruction::F64x2Div),
        244 => Some(VectorInstruction::F64x2Min),
        245 => Some(VectorInstruction::F64x2Max),
        246 => Some(VectorInstruction::F64x2PMin),
        247 => Some(VectorInstruction::F64x2PMax),
        248 => Some(VectorInstruction::I32x4TruncSatF32x4(Signedness::Signed)),
        249 => Some(VectorInstruction::I32x4TruncSatF32x4(Signedness::Unsigned)),
        250 => Some(VectorInstruction::F32x4ConvertI32x4(Signedness::Signed)),
        251 => Some(VectorInstruction::F32x4ConvertI32x4(Signedness::Unsigned)),
        252 => Some(VectorInstruction::I32x4TruncSatF64x2Zero(Signedness::Signed)),
        253 => Some(VectorInstruction::I32x4TruncSatF64x2Zero(Signedness::Unsigned)),
        254 => Some(VectorInstruction::F64x2ConvertLowI32x4(Signedness::Signed)),
        255 => Some(VectorInstruction::F64x2ConvertLowI32x4(Signedness::Unsigned)),
        _ => None,
    }
}

fn vector_simple(op: u32) -> (r: Option<VectorInstruction>)
    ensures
        r == spec_vector_simple(op),
{
    match op {
        14 => Some(VectorInstruction::I8x16Swizzle),
        15 => Some(VectorInstruction::I8x16Splat),
        16 => Some(VectorInstruction::I16x8Splat),
        17 => Some(VectorInstruction::I32x4Splat),
        18 => Some(VectorInstruction::I64x2Splat),
        19 => Some(VectorInstruction::F32x4Splat),
        20 => Some(VectorInstruction::F64x2Splat),
        35 => Some(VectorInstruction::I8x16Equal),
        36 => Some(VectorInstruction::I8x16NotEqual),
        37 => Some(VectorInstruction::I8x16LessThan(Signedness::Signed)),
        38 => Some(VectorInstruction::I8x16LessThan(Signedness::Unsigned)),
        39 => Some(VectorInstruction::I8x16GreaterThan(Signedness::Signed)),
        40 => Some(VectorInstruction::I8x16GreaterThan(Signedness::Unsigned)),
        41 => Some(VectorInstruction::I8x16LessOrEqualTo(Signedness::Signed)),
        42 => Some(VectorInstruction::I8x16LessOrEqualTo(Signedness::Unsigned)),
        43 => Some(VectorInstruction::I8x16GreaterOrEqualTo(Signedness::Signed)),
        44 => Some(VectorInstruction::I8x16GreaterOrEqualTo(Signedness::Unsigned)),
        45 => Some(VectorInstruction::I16x8Equal),
        46 => Some(VectorInstruction::I16x8NotEqual),
        47 => Some(VectorInstruction::I16x8LessThan(Signedness::Signed)),
        48 => Some(VectorInstruction::I16x8LessThan(Signedness::Unsigned)),
        49 => Some(VectorInstruction::I16x8GreaterThan(Signedness::Signed)),
        50 => Some(VectorInstruction::I16x8GreaterThan(Signedness::Unsigned)),
        51 => Some(VectorInstruction::I16x8LessOrEqualTo(Signedness::Signed)),
        52 => Some(VectorInstruction::I16x8LessOrEqualTo(Signedness::Unsigned)),
        53 => Some(VectorInstruction::I16x8GreaterOrEqualTo(Signedness::Signed)),
        54 => Some(VectorInstruction::I16x8GreaterOrEqualTo(Signedness::Unsigned)),
        55 => Some(VectorInstruction::I32x4Equal),
        56 => Some(VectorInstruction::I32x4NotEqual),
        57 => Some(VectorInstruction::I32x4LessThan(Signedness::Signed)),
        58 => Some(VectorInstruction::I32x4LessThan(Signedness::Unsigned)),
        59 => Some(VectorInstruction::I32x4GreaterThan(Signedness::Signed)),
        60 => Some(VectorInstruction::I32x4GreaterThan(Signedness::Unsigned)),
        61 => Some(VectorInstruction::I32x4LessOrEqualTo(Signedness::Signed)),
        62 => Some(VectorInstruction::I32x4LessOrEqualTo(Signedness::Unsigned)),
        63 => Some(VectorInstruction::I32x4GreaterOrEqualTo(Signedness::Signed)),
        64 => Some(VectorInstruction::I32x4GreaterOrEqualTo(Signedness::Unsigned)),
        65 => Some(VectorInstruction::F32x4Equal),
        66 => Some(VectorInstruction::F32x4NotEqual),
        67 => Some(VectorInstruction::F32x4LessThan),
        68 => Some(VectorInstruction::F32x4GreaterThan),
        69 => Some(VectorInstruction::F32x4LessOrEqualTo),
        70 => Some(VectorInstruction::F32x4GreaterOrEqualTo),
        71 => Some(VectorInstruction::F64x2Equal),
        72 => Some(VectorInstruction::F64x2NotEqual),
        73 => Some(VectorInstruction::F64x2LessThan),
        74 => Some(VectorInstruction::F64x2GreaterThan),
        75 => Some(VectorInstruction::F64x2LessOrEqualTo),
        76 => Some(VectorInstruction::F64x2GreaterOrEqualTo),
        77 => Some(VectorInstruction::V128Not),
        78 => Some(VectorInstruction::V128And),
        79 => Some(VectorInstruction::V128AndNot),
        80 => Some(VectorInstruction::V128Or),
        81 => Some(VectorInstruction::V128Xor),
        82 => Some(VectorInstruction::V128BitSelect),
        83 => Some(VectorInstruction::V128AnyTrue),
        94 => Some(VectorInstruction::F32x4DemoteF64x2Zero),
        95 => Some(VectorInstruction::F64x2PromoteLowF32x4),
        96 => Some(VectorInstruction::I8x16Abs),
        97 => Some(VectorInstruction::I8x16Neg),
        98 => Some(VectorInstruction::I8x16PopCnt),
        99 => Some(VectorInstruction::I8x16AllTrue),
        100 => Some(VectorInstruction::I8x16Bitmask),
        101 => Some(VectorInstruction::I8x16NarrowI16x8(Signedness::Signed)),
        102 => Some(VectorInstruction::I8x16NarrowI16x8(Signedness::Unsigned)),
        103 => Some(VectorInstruction::F32x4Ceil),
        104 => Some(VectorInstruction::F32x4Floor),
        105 => Some(VectorInstruction::F32x4Trunc),
        106 => Some(VectorInstruction::F32x4Nearest),
        107 => Some(VectorInstruction::I8x16ShiftLeft),
        108 => Some(VectorInstruction::I8x16ShiftRight(Signedness::Signed)),
        109 => Some(VectorInstruction::I8x16ShiftRight(Signedness::Unsigned)),
        110 => Some(VectorInstruction::I8x16Add),
        111 => Some(VectorInstruction::I8x16AddSaturating(Signedness::Signed)),
        112 => Some(VectorInstruction::I8x16AddSaturating(Signedness::Unsigned)),
        113 => Some(VectorInstruction::I8x16Sub),
        114 => Some(VectorInstruction::I8x16SubSaturating(Signedness::Signed)),
        115 => Some(VectorInstruction::I8x16SubSaturating(Signedness::Unsigned)),
        116 => Some(VectorInstruction::F64x2Ceil),
        117 => Some(VectorInstruction::F64x2Floor),
        118 => Some(VectorInstruction::I8x16Min(Signedness::Signed)),
        119 => Some(VectorInstruction::I8x16Min(Signedness::Unsigned)),
        120 => Some(VectorInstruction::I8x16Max(Signedness::Signed)),
        121 => Some(VectorInstruction::I8x16Max(Signedness::Unsigned)),
        122 => Some(VectorInstruction::F64x2Trunc),
        123 => Some(VectorInstruction::I8x16Average),
        124 => Some(VectorInstruction::I16x8ExtAddPairwiseI8x16(Signedness::Signed)),
        125 => Some(VectorInstruction::I16x8ExtAddPairwiseI8x16(Signedness::Unsigned)),
        126 => Some(VectorInstruction::I32x4ExtAddPairwiseI16x8(Signedness::Signed)),
        127 => Some(VectorInstruction::I32x4ExtAddPairwiseI16x8(Signedness::Unsigned)),
        128 => Some(VectorInstruction::I16x8Abs),
        129 => Some(VectorInstruction::I16x8Neg),
        130 => Some(VectorInstruction::I16x8Q16MulrSat),
        131 => Some(VectorInstruction::I16x8AllTrue),
        132 => Some(VectorInstruction::I16x8Bitmask),
        133 => Some(VectorInstruction::I16x8NarrowI32x4(Signedness::Signed)),
        134 => Some(VectorInstruction::I16x8NarrowI32x4(Signedness::Unsigned)),
        135 => Some(VectorInstruction::I16x8ExtendLowI8x16(Signedness::Signed)),
        136 => Some(VectorInstruction::I16x8ExtendHighI8x16(Signedness::Signed)),
        137 => Some(VectorInstruction::I16x8ExtendLowI8x16(Signedness::Unsigned)),
        138 => Some(VectorInstruction::I16x8ExtendHighI8x16(Signedness::Unsigned)),
        139 => Some(VectorInstruction::I16x8ShiftLeft),
        140 => Some(VectorInstruction::I16x8ShiftRight(Signedness::Signed)),
        141 => Some(VectorInstruction::I16x8ShiftRight(Signedness::Unsigned)),
        142 => Some(VectorInstruction::I16x8Add),
        143 => Some(VectorInstruction::I16x8AddSaturating(Signedness::Signed)),
        144 => Some(VectorInstruction::I16x8AddSaturating(Signedness::Unsigned)),
        145 => Some(VectorInstruction::I16x8Sub),
        146 => Some(VectorInstruction::I16x8SubSaturating(Signedness::Signed)),
        147 => Some(VectorInstruction::I16x8SubSaturating(Signedness::Unsigned)),
        148 => Some(VectorInstruction::F64x2Nearest),
        149 => Some(VectorInstruction::I16x8Mul),
        150 => Some(VectorInstruction::I16x8Min(Signedness::Signed)),
        151 => Some(VectorInstruction::I16x8Min(Signedness::Unsigned)),
        152 => Some(VectorInstruction::I16x8Max(Signedness::Signed)),
        153 => Some(VectorInstruction::I16x8Max(Signedness::Unsigned)),
        155 => Some(VectorInstruction::I16x8Average),
        156 => Some(VectorInstruction::I16x8ExtMulLowI8x16(Signedness::Signed)),
        157 => Some(VectorInstruction::I16x8ExtMulHighI8x16(Signedness::Signed)),
        158 => Some(VectorInstruction::I16x8ExtMulLowI8x16(Signedness::Unsigned)),
        159 => Some(VectorInstruction::I16x8ExtMulHighI8x16(Signedness::Unsigned)),
        160 => Some(VectorInstruction::I32x4Abs),
        161 => Some(VectorInstruction::I32x4Neg),
        163 => Some(VectorInstruction::I32x4AllTrue),
        164 => Some(VectorInstruction::I32x4Bitmask),
        167 => Some(VectorInstruction::I32x4ExtendLowI16x8(Signedness::Signed)),
        168 => Some(VectorInstruction::I32x4ExtendHighI16x8(Signedness::Signed)),
        169 => Some(VectorInstruction::I32x4ExtendLowI16x8(Signedness::Unsigned)),
        170 => Some(VectorInstruction::I32x4ExtendHighI16x8(Signedness::Unsigned)),
        171 => Some(VectorInstruction::I32x4ShiftLeft),
        172 => Some(VectorInstruction::I32x4ShiftRight(Signedness::Signed)),
        173 => Some(VectorInstruction::I32x4ShiftRight(Signedness::Unsigned)),
        174 => Some(VectorInstruction::I32x4Add),
        177 => Some(VectorInstruction::I32x4Sub),
        181 => Some(VectorInstruction::I32x4Mul),
        182 => Some(VectorInstruction::I32x4Min(Signedness::Signed)),
        183 => Some(VectorInstruction::I32x4Min(Signedness::Unsigned)),
        184 => Some(VectorInstruction::I32x4Max(Signedness::Signed)),
        185 => Some(VectorInstruction::I32x4Max(Signedness::Unsigned)),
        186 => Some(VectorInstruction::I32x4DotI16x8),
        188 => Some(VectorInstruction::I32x4ExtMulLowI16x8(Signedness::Signed)),
        189 => Some(VectorInstruction::I32x4ExtMulHighI16x8(Signedness::Signed)),
        190 => Some(VectorInstruction::I32x4ExtMulLowI16x8(Signedness::Unsigned)),
        191 => Some(VectorInstruction::I32x4ExtMulHighI16x8(Signedness::Unsigned)),
        192 => Some(VectorInstruction::I64x2Abs),
        193 => Some(VectorInstruction::I64x2Neg),
        195 => Some(VectorInstruction::I64x2AllTrue),
        196 => Some(VectorInstruction::I64x2Bitmask),
        199 => Some(VectorInstruction::I64x2ExtendLowI32x4(Signedness::Signed)),
        200 => Some(VectorInstruction::I64x2ExtendHighI32x4(Signedness::Signed)),
        201 => Some(VectorInstruction::I64x2ExtendLowI32x4(Signedness::Unsigned)),
        202 => Some(VectorInstruction::I64x2ExtendHighI32x4(Signedness::Unsigned)),
        203 => Some(VectorInstruction::I64x2ShiftLeft),
        204 => Some(VectorInstruction::I64x2ShiftRight(Signedness::Signed)),
        205 => Some(VectorInstruction::I64x2ShiftRight(Signedness::Unsigned)),
        206 => Some(VectorInstruction::I64x2Add),
        209 => Some(VectorInstruction::I64x2Sub),
        213 => Some(VectorInstruction::I64x2Mul),
        214 => Some(VectorInstruction::I64x2Equal),
        215 => Some(VectorInstruction::I64x2NotEqual),
        216 => Some(VectorInstruction::I64x2LessThan),
        217 => Some(VectorInstruction::I64x2GreaterThan),
        218 => Some(VectorInstruction::I64x2LessOrEqualTo),
        219 => Some(VectorInstruction::I64x2GreaterOrEqualTo),
        220 => Some(VectorInstruction::I64x2ExtMulLowI32x4(Signedness::Signed)),
        221 => Some(VectorInstruction::I64x2ExtMulHighI32x4(Signedness::Signed)),
        222 => Some(VectorInstruction::I64x2ExtMulLowI32x4(Signedness::Unsigned)),
        223 => Some(VectorInstruction::I64x2ExtMulHighI32x4(Signedness::Unsigned)),
        224 => Some(VectorInstruction::F32x4Abs),
        225 => Some(VectorInstruction::F32x4Neg),
        227 => Some(VectorInstruction::F32x4Sqrt),
        228 => Some(VectorInstruction::F32x4Add),
        229 => Some(VectorInstruction::F32x4Sub),
        230 => Some(VectorInstruction::F32x4Mul),
        231 => Some(VectorInstruction::F32x4Div),
        232 => Some(VectorInstruction::F32x4Min),
        233 => Some(VectorInstruction::F32x4Max),
        234 => Some(VectorInstruction::F32x4PMin),
        235 => Some(VectorInstruction::F32x4PMax),
        236 => Some(VectorInstruction::F64x2Abs),
        237 => Some(VectorInstruction::F64x2Neg),
        239 => Some(VectorInstruction::F64x2Sqrt),
        240 => Some(VectorInstruction::F64x2Add),
        241 => Some(VectorInstruction::F64x2Sub),
        242 => Some(VectorInstruction::F64x2Mul),
        243 => Some(VectorInstruction::F64x2Div),
        244 => Some(VectorInstruction::F64x2Min),
        245 => Some(VectorInstruction::F64x2Max),
        246 => Some(VectorInstruction::F64x2PMin),
        247 => Some(VectorInstruction::F64x2PMax),
        248 => Some(VectorInstruction::I32x4TruncSatF32x4(Signedness::Signed)),
        249 => Some(VectorInstruction::I32x4TruncSatF32x4(Signedness::Unsigned)),
        250 => Some(VectorInstruction::F32x4ConvertI32x4(Signedness::Signed)),
        251 => Some(VectorInstruction::F32x4ConvertI32x4(Signedness::Unsigned)),
        252 => Some(VectorInstruction::I32x4TruncSatF64x2Zero(Signedness::Signed)),
        253 => Some(VectorInstruction::I32x4TruncSatF64x2Zero(Signedness::Unsigned)),
        254 => Some(VectorInstruction::F64x2ConvertLowI32x4(Signedness::Signed)),
        255 => Some(VectorInstruction::F64x2ConvertLowI32x4(Signedness::Unsigned)),
        _ => None,
    }
}

/// The vector instruction of `0xFD` and sub-opcode `op`, whose immediates start at `q`; `at` is where the sub-opcode starts.
pub open spec fn spec_vector_imm(s: Seq<u8>, q: int, e: int, op: u32, at: int) -> SpecResult<VectorInstruction> {
    match op {
        0 => {
            match spec_mem_arg(s, q, e) {
                Ok((v0, q1)) => {
                    Ok((VectorInstruction::V128Load(v0), q1))
                },
                Err(er) => Err(er),
            }
        },
        1 => {
            match spec_mem_arg(s, q, e) {
                Ok((v0, q1)) => {
                    Ok((VectorInstruction::V128Load8x8(v0, Signedness::Signed), q1))
                },
                Err(er) => Err(er),
            }
        },
        2 => {
            match spec_mem_arg(s, q, e) {
                Ok((v0, q1)) => {
                    Ok((VectorInstruction::V128Load8x8(v0, Signedness::Unsigned), q1))
                },
                Err(er) => Err(er),
            }
        },
        3 => {
            match spec_mem_arg(s, q, e) {
                Ok((v0, q1)) => {
                    Ok((VectorInstruction::V128Load16x4(v0, Signedness::Signed), q1))
                },
                Err(er) => Err(er),
            }
        },
        4 => {
            match spec_mem_arg(s, q, e) {
                Ok((v0, q1)) => {
                    Ok((VectorInstruction::V128Load16x4(v0, Signedness::Unsigned), q1))
                },
                Err(er) => Err(er),
            }
        },
        5 => {
            match spec_mem_arg(s, q, e) {
                Ok((v0, q1)) => {
                    Ok((VectorInstruction::V128Load32x2(v0, Signedness::Signed), q1))
                },
                Err(er) => Err(er),
            }
        },
        6 => {
            match spec_mem_arg(s, q, e) {
                Ok((v0, q1)) => {
                    Ok((VectorInstruction::V128Load32x2(v0, Signedness::Unsigned), q1))
                },
                Err(er) => Err(er),
            }
        },
        7 => {
            match spec_mem_arg(s, q, e) {
                Ok((v0, q1)) => {
                    Ok((VectorInstruction::V128Load8Splat(v0), q1))
                },
                Err(er) => Err(er),
            }
        },
        8 => {
            match spec_mem_arg(s, q, e) {
                Ok((v0, q1)) => {
                    Ok((VectorInstruction::V128Load16Splat(v0), q1))
                },
                Err(er) => Err(er),
            }
        },
        9 => {
            match spec_mem_arg(s, q, e) {
                Ok((v0, q1)) => {
                    Ok((VectorInstruction::V128Load32Splat(v0), q1))
                },
                Err(er) => Err(er),
            }
        },
        10 => {
            match spec_mem_arg(s, q, e) {
                Ok((v0, q1)) => {
                    Ok((VectorInstruction::V128Load64Splat(v0), q1))
                },
                Err(er) => Err(er),
            }
        },
        11 => {
            match spec_mem_arg(s, q, e) {
                Ok((v0, q1)) => {
                    Ok((VectorInstruction::V128Store(v0), q1))
                },
                Err(er) => Err(er),
            }
        },
        12 => {
            match spec_v128(s, q, e) {
                Ok((v0, q1)) => {
                    Ok((VectorInstruction::V128Const(v0), q1))
                },
                Err(er) => Err(er),
            }
        },
        13 => {
            match spec_shuffle(s, q, e) {
                Ok((v0, q1)) => {
                    Ok((VectorInstruction::I8x16Shuffle(v0), q1))
                },
                Err(er) => Err(er),
            }
        },
        21 => {
            match spec_lane(s, q, e, 16) {
                Ok((v0, q1)) => {
                    Ok((VectorInstruction::I8x16ExtractLane(v0, Signedness::Signed), q1))
                },
                Err(er) => Err(er),
            }
        },
        22 => {
            match spec_lane(s, q, e, 16) {
                Ok((v0, q1)) => {
                    Ok((VectorInstruction::I8x16ExtractLane(v0, Signedness::Unsigned), q1))
                },
                Err(er) => Err(er),
            }
        },
        23 => {
            match spec_lane(s, q, e, 16) {
                Ok((v0, q1)) => {
                    Ok((VectorInstruction::I8x16ReplaceLane(v0), q1))
                },
                Err(er) => Err(er),
            }
        },
        24 => {
            match spec_lane(s, q, e, 8) {
                Ok((v0, q1)) => {
                    Ok((VectorInstruction::I16x8ExtractLane(v0, Signedness::Signed), q1))
                },
                Err(er) => Err(er),
            }
        },
        25 => {
            match spec_lane(s, q, e, 8) {
                Ok((v0, q1)) => {
                    Ok((VectorInstruction::I16x8ExtractLane(v0, Signedness::Unsigned), q1))
                },
                Err(er) => Err(er),
            }
        },
        26 => {
            match spec_lane(s, q, e, 8) {
                Ok((v0, q1)) => {
                    Ok((VectorInstruction::I16x8ReplaceLane(v0), q1))
                },
                Err(er) => Err(er),
            }
        },
        27 => {
            match spec_lane(s, q, e, 4) {
                Ok((v0, q1)) => {
                    Ok((VectorInstruction::I32x4ExtractLane(v0), q1))
                },
                Err(er) => Err(er),
            }
        },
        28 => {
            match spec_lane(s, q, e, 4) {
                Ok((v0, q1)) => {
                    Ok((VectorInstruction::I32x4ReplaceLane(v0), q1))
                },
                Err(er) => Err(er),
            }
        },
        29 => {
            match spec_lane(s, q, e, 2) {
                Ok((v0, q1)) => {
                    Ok((VectorInstruction::I64x2ExtractLane(v0), q1))
                },
                Err(er) => Err(er),
            }
        },
        30 => {
            match spec_lane(s, q, e, 2) {
                Ok((v0, q1)) => {
                    Ok((VectorInstruction::I64x2ReplaceLane(v0), q1))
                },
                Err(er) => Err(er),
            }
        },
        31 => {
            match spec_lane(s, q, e, 4) {
                Ok((v0, q1)) => {
                    Ok((VectorInstruction::F32x4ExtractLane(v0), q1))
                },
                Err(er) => Err(er),
            }
        },
        32 => {
            match spec_lane(s, q, e, 4) {
                Ok((v0, q1)) => {
                    Ok((VectorInstruction::F32x4ReplaceLane(v0), q1))
                },
                Err(er) => Err(er),
            }
        },
        33 => {
            match spec_lane(s, q, e, 2) {
                Ok((v0, q1)) => {
                    Ok((VectorInstruction::F64x2ExtractLane(v0), q1))
                },
                Err(er) => Err(er),
            }
        },
        34 => {
            match spec_lane(s, q, e, 2) {
                Ok((v0, q1)) => {
                    Ok((VectorInstruction::F64x2ReplaceLane(v0), q1))
                },
                Err(er) => Err(er),
            }
        },
        84 => {
            match spec_mem_arg(s, q, e) {
                Ok((v0, q1)) => {
                    match spec_lane(s, q1, e, 16) {
                        Ok((v1, q2)) => {
                            Ok((VectorInstruction::V128Load8Lane(v0, v1), q2))
                        },
                        Err(er) => Err(er),
                    }
                },
                Err(er) => Err(er),
            }
        },
        85 => {
            match spec_mem_arg(s, q, e) {
                Ok((v0, q1)) => {
                    match spec_lane(s, q1, e, 8) {
                        Ok((v1, q2)) => {
                            Ok((VectorInstruction::V128Load16Lane(v0, v1), q2))
                        },
                        Err(er) => Err(er),
                    }
                },
                Err(er) => Err(er),
            }
        },
        86 => {
            match spec_mem_arg(s, q, e) {
                Ok((v0, q1)) => {
                    match spec_lane(s, q1, e, 4) {
                        Ok((v1, q2)) => {
                            Ok((VectorInstruction::V128Load32Lane(v0, v1), q2))
                        },
                        Err(er) => Err(er),
                    }
                },
                Err(er) => Err(er),
            }
        },
        87 => {
            match spec_mem_arg(s, q, e) {
                Ok((v0, q1)) => {
                    match spec_lane(s, q1, e, 2) {
                        Ok((v1, q2)) => {
                            Ok((VectorInstruction::V128Load64Lane(v0, v1), q2))
                        },
                        Err(er) => Err(er),
                    }
                },
                Err(er) => Err(er),
            }
        },
        88 => {
            match spec_mem_arg(s, q, e) {
                Ok((v0, q1)) => {
                    match spec_lane(s, q1, e, 16) {
                        Ok((v1, q2)) => {
                            Ok((VectorInstruction::V128Store8Lane(v0, v1), q2))
                        },
                        Err(er) => Err(er),
                    }
                },
                Err(er) => Err(er),
            }
        },
        89 => {
            match spec_mem_arg(s, q, e) {
                Ok((v0, q1)) => {
                    match spec_lane(s, q1, e, 8) {
                        Ok((v1, q2)) => {
                            Ok((VectorInstruction::V128Store16Lane(v0, v1), q2))
                        },
                        Err(er) => Err(er),
                    }
                },
                Err(er) => Err(er),
            }
        },
        90 => {
            match spec_mem_arg(s, q, e) {
                Ok((v0, q1)) => {
                    match spec_lane(s, q1, e, 4) {
                        Ok((v1, q2)) => {
                            Ok((VectorInstruction::V128Store32Lane(v0, v1), q2))
                        },
                        Err(er) => Err(er),
                    }
                },
                Err(er) => Err(er),
            }
        },
        91 => {
            match spec_mem_arg(s, q, e) {
                Ok((v0, q1)) => {
                    match spec_lane(s, q1, e, 2) {
                        Ok((v1, q2)) => {
                            Ok((VectorInstruction::V128Store64Lane(v0, v1), q2))
                        },
                        Err(er) => Err(er),
                    }
                },
                Err(er) => Err(er),
            }
        },
        92 => {
            match spec_mem_arg(s, q, e) {
                Ok((v0, q1)) => {
                    Ok((VectorInstruction::V128Load32Zero(v0), q1))
                },
                Err(er) => Err(er),
            }
        },
        93 => {
            match spec_mem_arg(s, q, e) {
                Ok((v0, q1)) => {
                    Ok((VectorInstruction::V128Load64Zero(v0), q1))
                },
                Err(er) => Err(er),
            }
        },
        _ => Err((ErrorKind::UnknownVectorInstruction, at)),
    }
}

fn parse_vector_imm<'a>(reader: &mut Reader<'a>, op: u32, mark: Mark<'a>) -> (r: ParseResult<'a, VectorInstruction>)
    requires
        old(reader).wf(),
    ensures
        final(reader).follows(old(reader)),
        agrees(
            r,
            *final(reader),
            spec_vector_imm(old(reader).data(), old(reader).pos(), old(reader).limit(), op, mark.pos()),
        ),
{
    match op {
        0 => {
            let v0 = match MemArg::parse(reader) {
                Ok(v) => v,
                Err(er) => return Err(er),
            };
            Ok(VectorInstruction::V128Load(v0))
        },
        1 => {
            let v0 = match MemArg::parse(reader) {
                Ok(v) => v,
                Err(er) => return Err(er),
            };
            Ok(VectorInstruction::V128Load8x8(v0, Signedness::Signed))
        },
        2 => {
            let v0 = match MemArg::parse(reader) {
                Ok(v) => v,
                Err(er) => return Err(er),
            };
            Ok(VectorInstruction::V128Load8x8(v0, Signedness::Unsigned))
        },
        3 => {
            let v0 = match MemArg::parse(reader) {
                Ok(v) => v,
                Err(er) => return Err(er),
            };
            Ok(VectorInstruction::V128Load16x4(v0, Signedness::Signed))
        },
        4 => {
            let v0 = match MemArg::parse(reader) {
                Ok(v) => v,
                Err(er) => return Err(er),
            };
            Ok(VectorInstruction::V128Load16x4(v0, Signedness::Unsigned))
        },
        5 => {
            let v0 = match MemArg::parse(reader) {
                Ok(v) => v,
                Err(er) => return Err(er),
            };
            Ok(VectorInstruction::V128Load32x2(v0, Signedness::Signed))
        },
        6 => {
            let v0 = match MemArg::parse(reader) {
                Ok(v) => v,
                Err(er) => return Err(er),
            };
            Ok(VectorInstruction::V128Load32x2(v0, Signedness::Unsigned))
        },
        7 => {
            let v0 = match MemArg::parse(reader) {
                Ok(v) => v,
                Err(er) => return Err(er),
            };
            Ok(VectorInstruction::V128Load8Splat(v0))
        },
        8 => {
            let v0 = match MemArg::parse(reader) {
                Ok(v) => v,
                Err(er) => return Err(er),
            };
            Ok(VectorInstruction::V128Load16Splat(v0))
        },
        9 => {
            let v0 = match MemArg::parse(reader) {
                Ok(v) => v,
                Err(er) => return Err(er),
            };
            Ok(VectorInstruction::V128Load32Splat(v0))
        },
        10 => {
            let v0 = match MemArg::parse(reader) {
                Ok(v) => v,
                Err(er) => return Err(er),
            };
            Ok(VectorInstruction::V128Load64Splat(v0))
        },
        11 => {
            let v0 = match MemArg::parse(reader) {
                Ok(v) => v,
                Err(er) => return Err(er),
            };
            Ok(VectorInstruction::V128Store(v0))
        },
        12 => {
            let v0 = match read_v128(reader) {
                Ok(v) => v,
                Err(er) => return Err(er),
            };
            Ok(VectorInstruction::V128Const(v0))
        },
        13 => {
            let v0 = match read_shuffle(reader) {
                Ok(v) => v,
                Err(er) => return Err(er),
            };
            Ok(VectorInstruction::I8x16Shuffle(v0))
        },
        21 => {
            let v0 = match LaneIdx::parse_max_16(reader) {
                Ok(v) => v,
                Err(er) => return Err(er),
            };
            Ok(VectorInstruction::I8x16ExtractLane(v0, Signedness::Signed))
        },
        22 => {
            let v0 = match LaneIdx::parse_max_16(reader) {
                Ok(v) => v,
                Err(er) => return Err(er),
            };
            Ok(VectorInstruction::I8x16ExtractLane(v0, Signedness::Unsigned))
        },
        23 => {
            let v0 = match LaneIdx::parse_max_16(reader) {
                Ok(v) => v,
                Err(er) => return Err(er),
            };
            Ok(VectorInstruction::I8x16ReplaceLane(v0))
        },
        24 => {
            let v0 = match LaneIdx::parse_max_8(reader) {
                Ok(v) => v,
                Err(er) => return Err(er),
            };
            Ok(VectorInstruction::I16x8ExtractLane(v0, Signedness::Signed))
        },
        25 => {
            let v0 = match LaneIdx::parse_max_8(reader) {
                Ok(v) => v,
                Err(er) => return Err(er),
            };
            Ok(VectorInstruction::I16x8ExtractLane(v0, Signedness::Unsigned))
        },
        26 => {
            let v0 = match LaneIdx::parse_max_8(reader) {
                Ok(v) => v,
                Err(er) => return Err(er),
            };
            Ok(VectorInstruction::I16x8ReplaceLane(v0))
        },
        27 => {
            let v0 = match LaneIdx::parse_max_4(reader) {
                Ok(v) => v,
                Err(er) => return Err(er),
            };
            Ok(VectorInstruction::I32x4ExtractLane(v0))
        },
        28 => {
            let v0 = match LaneIdx::parse_max_4(reader) {
                Ok(v) => v,
                Err(er) => return Err(er),
            };
            Ok(VectorInstruction::I32x4ReplaceLane(v0))
        },
        29 => {
            let v0 = match LaneIdx::parse_max_2(reader) {
                Ok(v) => v,
                Err(er) => return Err(er),
            };
            Ok(VectorInstruction::I64x2ExtractLane(v0))
        },
        30 => {
            let v0 = match LaneIdx::parse_max_2(reader) {
                Ok(v) => v,
                Err(er) => return Err(er),
            };
            Ok(VectorInstruction::I64x2ReplaceLane(v0))
        },
        31 => {
            let v0 = match LaneIdx::parse_max_4(reader) {
                Ok(v) => v,
                Err(er) => return Err(er),
            };
            Ok(VectorInstruction::F32x4ExtractLane(v0))
        },
        32 => {
            let v0 = match LaneIdx::parse_max_4(reader) {
                Ok(v) => v,
                Err(er) => return Err(er),
            };
            Ok(VectorInstruction::F32x4ReplaceLane(v0))
        },
        33 => {
            let v0 = match LaneIdx::parse_max_2(reader) {
                Ok(v) => v,
                Err(er) => return Err(er),
            };
            Ok(VectorInstruction::F64x2ExtractLane(v0))
        },
        34 => {
            let v0 = match LaneIdx::parse_max_2(reader) {
                Ok(v) => v,
                Err(er) => return Err(er),
            };
            Ok(VectorInstruction::F64x2ReplaceLane(v0))
        },
        84 => {
            let v0 = match MemArg::parse(reader) {
                Ok(v) => v,
                Err(er) => return Err(er),
            };
            let v1 = match LaneIdx::parse_max_16(reader) {
                Ok(v) => v,
                Err(er) => return Err(er),
            };
            Ok(VectorInstruction::V128Load8Lane(v0, v1))
        },
        85 => {
            let v0 = match MemArg::parse(reader) {
                Ok(v) => v,
                Err(er) => return Err(er),
            };
            let v1 = match LaneIdx::parse_max_8(reader) {
                Ok(v) => v,
                Err(er) => return Err(er),
            };
            Ok(VectorInstruction::V128Load16Lane(v0, v1))
        },
        86 => {
            let v0 = match MemArg::parse(reader) {
                Ok(v) => v,
                Err(er) => return Err(er),
            };
            let v1 = match LaneIdx::parse_max_4(reader) {
                Ok(v) => v,
                Err(er) => return Err(er),
            };
            Ok(VectorInstruction::V128Load32Lane(v0, v1))
        },
        87 => {
            let v0 = match MemArg::parse(reader) {
                Ok(v) => v,
                Err(er) => return Err(er),
            };
            let v1 = match LaneIdx::parse_max_2(reader) {
                Ok(v) => v,
                Err(er) => return Err(er),
            };
            Ok(VectorInstruction::V128Load64Lane(v0, v1))
        },
        88 => {
            let v0 = match MemArg::parse(reader) {
                Ok(v) => v,
                Err(er) => return Err(er),
            };
            let v1 = match LaneIdx::parse_max_16(reader) {
                Ok(v) => v,
                Err(er) => return Err(er),
            };
            Ok(VectorInstruction::V128Store8Lane(v0, v1))
        },
        89 => {
            let v0 = match MemArg::parse(reader) {
                Ok(v) => v,
                Err(er) => return Err(er),
            };
            let v1 = match LaneIdx::parse_max_8(reader) {
                Ok(v) => v,
                Err(er) => return Err(er),
            };
            Ok(VectorInstruction::V128Store16Lane(v0, v1))
        },
        90 => {
            let v0 = match MemArg::parse(reader) {
                Ok(v) => v,
                Err(er) => return Err(er),
            };
            let v1 = match LaneIdx::parse_max_4(reader) {
                Ok(v) => v,
                Err(er) => return Err(er),
            };
            Ok(VectorInstruction::V128Store32Lane(v0, v1))
        },
        91 => {
            let v0 = match MemArg::parse(reader) {
                Ok(v) => v,
                Err(er) => return Err(er),
            };
            let v1 = match LaneIdx::parse_max_2(reader) {
                Ok(v) => v,
                Err(er) => return Err(er),
            };
            Ok(VectorInstruction::V128Store64Lane(v0, v1))
        },
        92 => {
            let v0 = match MemArg::parse(reader) {
                Ok(v) => v,
                Err(er) => return Err(er),
            };
            Ok(VectorInstruction::V128Load32Zero(v0))
        },
        93 => {
            let v0 = match MemArg::parse(reader) {
                Ok(v) => v,
                Err(er) => return Err(er),
            };
            Ok(VectorInstruction::V128Load64Zero(v0))
        },
        _ => unknown_instruction(reader, mark),
    }
}

/// Fails with an unknown vector instruction at `mark`; the reader does not move.
pub fn unknown_instruction<'a>(reader: &mut Reader<'a>, mark: Mark<'a>) -> (r: ParseResult<'a, VectorInstruction>)
    ensures
        *final(reader) == *old(reader),
        is_err_at(r, ErrorKind::UnknownVectorInstruction, mark.pos()),
{
    Err(mark.into_error(ErrorKind::UnknownVectorInstruction))
}

fn read_zero<'a>(reader: &mut Reader<'a>) -> (r: ParseResult<'a, u8>)
    requires
        old(reader).wf(),
    ensures
        final(reader).follows(old(reader)),
        agrees(r, *final(reader), spec_zero(old(reader).data(), old(reader).pos(), old(reader).limit())),
{
    let mark = reader.mark();
    let b = match reader.read_u8() {
        Ok(b) => b,
        Err(er) => return Err(er),
    };
    if b == 0 {
        Ok(b)
    } else {
        Err(mark.into_error(ErrorKind::UnknownInstruction))
    }
}

fn read_i32<'a>(reader: &mut Reader<'a>) -> (r: ParseResult<'a, i32>)
    requires
        old(reader).wf(),
    ensures
        final(reader).follows(old(reader)),
        agrees(r, *final(reader), spec_i32(old(reader).data(), old(reader).pos(), old(reader).limit())),
{
    reader.read_int::<i32>()
}

fn read_i64<'a>(reader: &mut Reader<'a>) -> (r: ParseResult<'a, i64>)
    requires
        old(reader).wf(),
    ensures
        final(reader).follows(old(reader)),
        agrees(r, *final(reader), spec_i64(old(reader).data(), old(reader).pos(), old(reader).limit())),
{
    reader.read_int::<i64>()
}

fn read_v128<'a>(reader: &mut Reader<'a>) -> (r: ParseResult<'a, u128>)
    requires
        old(reader).wf(),
    ensures
        final(reader).follows(old(reader)),
        agrees(r, *final(reader), spec_v128(old(reader).data(), old(reader).pos(), old(reader).limit())),
{
    let lo = match reader.read_u64_le() {
        Ok(v) => v,
        Err(er) => return Err(er),
    };
    let hi = match reader.read_u64_le() {
        Ok(v) => v,
        Err(er) => return Err(er),
    };
    Ok(lo as u128 + (hi as u128) * 0x1_0000_0000_0000_0000)
}

proof fn lemma_pow256_16(k: nat)
    requires
        k < 16,
    ensures
        pow256(k) <= 0x1_0000_0000_0000_0000_0000_0000_0000_00,
        pow256(k + 1) == 256 * pow256(k),
{
    reveal_with_fuel(pow256, 17);
}

fn read_shuffle<'a>(reader: &mut Reader<'a>) -> (r: ParseResult<'a, u128>)
    requires
        old(reader).wf(),
    ensures
        final(reader).follows(old(reader)),
        agrees(r, *final(reader), spec_shuffle(old(reader).data(), old(reader).pos(), old(reader).limit())),
{
    let mut acc: u128 = 0;
    let mut pow: u128 = 1;
    let mut k: usize = 0;
    proof {
        reveal_with_fuel(pow256, 1);
    }
    while k < 16
        invariant
            reader.follows(old(reader)),
            k <= 16,
            k < 16 ==> pow == pow256(k as nat),
            acc < pow256(k as nat),
            spec_shuffle(old(reader).data(), old(reader).pos(), old(reader).limit()) == spec_lanes(
                reader.data(),
                reader.pos(),
                reader.limit(),
                k as nat,
                acc as int,
            ),
        decreases 16 - k,
    {
        let lane = match LaneIdx::parse_max_16(reader) {
            Ok(l) => l,
            Err(er) => return Err(er),
        };
        proof {
            lemma_pow256_16(k as nat);
            assert(acc + lane.0 * pow < 256 * pow) by (nonlinear_arith)
                requires
                    acc < pow,
                    lane.0 < 16,
            ;
        }
        acc = acc + (lane.0 as u128) * pow;
        if k + 1 < 16 {
            proof {
                lemma_pow256_16((k + 1) as nat);
            }
            pow = pow * 256;
        }
        k = k + 1;
    }
    Ok(acc)
}

fn read_label_vec<'a>(reader: &mut Reader<'a>) -> (r: ParseResult<'a, Vec<LabelIdx>>)
    requires
        old(reader).wf(),
    ensures
        final(reader).follows(old(reader)),
        match spec_label_vec(old(reader).data(), old(reader).pos(), old(reader).limit()) {
            Ok((v, q)) => r is Ok && r->Ok_0@ == v && final(reader).pos() == q,
            Err(er) => err_matches(r, er),
        },
{
    let n = match reader.read_u32() {
        Ok(n) => n,
        Err(er) => return Err(er),
    };
    let mut labels: Vec<LabelIdx> = Vec::new();
    let mut k: u32 = 0;
    while k < n
        invariant
            reader.follows(old(reader)),
            k <= n,
            spec_label_vec(old(reader).data(), old(reader).pos(), old(reader).limit()) == spec_labels(
                reader.data(),
                reader.pos(),
                reader.limit(),
                (n - k) as nat,
                labels@,
            ),
        decreases n - k,
    {
        let l = match reader.read_index::<LabelIdx>() {
            Ok(l) => l,
            Err(er) => return Err(er),
        };
        labels.push(l);
        k = k + 1;
    }
    Ok(labels)
}

pub(crate) fn read_val_type_vec<'a>(reader: &mut Reader<'a>) -> (r: ParseResult<'a, Vec<ValType>>)
    requires
        old(reader).wf(),
    ensures
        final(reader).follows(old(reader)),
        match spec_val_type_vec(old(reader).data(), old(reader).pos(), old(reader).limit()) {
            Ok((v, q)) => r is Ok && r->Ok_0@ == v && final(reader).pos() == q,
            Err(er) => err_matches(r, er),
        },
{
    let n = match reader.read_u32() {
        Ok(n) => n,
        Err(er) => return Err(er),
    };
    let mut vals: Vec<ValType> = Vec::new();
    let mut k: u32 = 0;
    while k < n
        invariant
            reader.follows(old(reader)),
            k <= n,
            spec_val_type_vec(old(reader).data(), old(reader).pos(), old(reader).limit()) == spec_val_types(
                reader.data(),
                reader.pos(),
                reader.limit(),
                (n - k) as nat,
                vals@,
            ),
        decreases n - k,
    {
        let v = match ValType::parse(reader) {
            Ok(v) => v,
            Err(er) => return Err(er),
        };
        vals.push(v);
        k = k + 1;
    }
    Ok(vals)
}

proof fn lemma_base_simple_leaf(op: u8)
    ensures
        spec_base_simple(op) is Some ==> is_leaf(spec_base_simple(op)->Some_0),
{
}

proof fn lemma_base_imm_leaf(s: Seq<u8>, q: int, e: int, op: u8)
    ensures
        spec_base_imm(s, q, e, op) is Ok ==> is_leaf(spec_base_imm(s, q, e, op)->Ok_0.0),
{
}

proof fn lemma_extended_leaf(s: Seq<u8>, q: int, e: int)
    ensures
        spec_extended(s, q, e) is Ok ==> is_leaf(spec_extended(s, q, e)->Ok_0.0),
{
    match spec_u32(s, q, e) {
        Ok((sub, q2)) => {
            let r = spec_extended_imm(s, q2, e, sub, q);
            assert(r is Ok ==> is_leaf(r->Ok_0.0));
        },
        Err(_) => {},
    }
}

impl Instruction {
    fn parse_extended<'a>(reader: &mut Reader<'a>) -> (r: ParseResult<'a, Instruction>)
        requires
            old(reader).wf(),
        ensures
            final(reader).follows(old(reader)),
            agrees(r, *final(reader), spec_extended(old(reader).data(), old(reader).pos(), old(reader).limit())),
    {
        let mark = reader.mark();
        let sub = match reader.read_u32() {
            Ok(v) => v,
            Err(er) => return Err(er),
        };
        match extended_simple(sub) {
            Some(i) => Ok(i),
            None => parse_extended_imm(reader, sub, mark),
        }
    }

    fn parse_vector<'a>(reader: &mut Reader<'a>) -> (r: ParseResult<'a, Instruction>)
        requires
            old(reader).wf(),
        ensures
            final(reader).follows(old(reader)),
            agrees(r, *final(reader), spec_vector(old(reader).data(), old(reader).pos(), old(reader).limit())),
    {
        let mark = reader.mark();
        let sub = match reader.read_u32() {
            Ok(v) => v,
            Err(er) => return Err(er),
        };
        match vector_simple(sub) {
            Some(v) => Ok(Instruction::Vector(v)),
            None => match parse_vector_imm(reader, sub, mark) {
                Ok(v) => Ok(Instruction::Vector(v)),
                Err(er) => Err(er),
            },
        }
    }

    fn parse_leaf<'a>(reader: &mut Reader<'a>, op: u8) -> (r: ParseResult<'a, Instruction>)
        requires
            old(reader).wf(),
            old(reader).pos() >= 1,
        ensures
            final(reader).follows(old(reader)),
            agrees(r, *final(reader), spec_leaf(old(reader).data(), old(reader).pos(), old(reader).limit(), op)),
            r is Ok ==> is_leaf(r->Ok_0),
    {
        proof {
            lemma_base_simple_leaf(op);
            lemma_base_imm_leaf(old(reader).data(), old(reader).pos(), old(reader).limit(), op);
            lemma_extended_leaf(old(reader).data(), old(reader).pos(), old(reader).limit());
        }
        match base_simple(op) {
            Some(i) => Ok(i),
            None => if op == 0xFC {
                Instruction::parse_extended(reader)
            } else if op == 0xFD {
                Instruction::parse_vector(reader)
            } else {
                parse_base_imm(reader, op)
            },
        }
    }

    /// Reads one instruction; a structured one with its whole body.
    pub fn parse<'a>(reader: &mut Reader<'a>) -> (r: ParseResult<'a, Instruction>)
        requires
            old(reader).wf(),
        ensures
            final(reader).follows(old(reader)),
            instr_agrees(
                r,
                *final(reader),
                spec_instr(old(reader).data(), old(reader).pos(), old(reader).limit()),
            ),
            r is Ok ==> final(reader).pos() > old(reader).pos(),
        decreases old(reader).limit() - old(reader).pos(), 0nat,
    {
        let op = match reader.read_u8() {
            Ok(b) => b,
            Err(er) => return Err(er),
        };
        if op == 0x02 || op == 0x03 {
            let bt = match BlockType::parse(reader) {
                Ok(bt) => bt,
                Err(er) => return Err(er),
            };
            let inner = match Instruction::parse_until_0x0B(reader) {
                Ok(v) => v,
                Err(er) => return Err(er),
            };
            if op == 0x02 {
                Ok(Instruction::Block { bt, inner })
            } else {
                Ok(Instruction::Loop { bt, inner })
            }
        } else if op == 0x04 {
            let bt = match BlockType::parse(reader) {
                Ok(bt) => bt,
                Err(er) => return Err(er),
            };
            let (if_inner, else_inner) = match Instruction::parse_until_0x0B_with_else(reader) {
                Ok(v) => v,
                Err(er) => return Err(er),
            };
            match else_inner {
                Some(else_inner) => Ok(Instruction::IfElse { bt, if_inner, else_inner }),
                None => Ok(Instruction::If { bt, inner: if_inner }),
            }
        } else if op == 0x0E {
            let labels = match read_label_vec(reader) {
                Ok(v) => v,
                Err(er) => return Err(er),
            };
            let index = match reader.read_index::<LabelIdx>() {
                Ok(v) => v,
                Err(er) => return Err(er),
            };
            Ok(Instruction::BranchTable { labels, index })
        } else if op == 0x1C {
            let val = match read_val_type_vec(reader) {
                Ok(v) => v,
                Err(er) => return Err(er),
            };
            Ok(Instruction::SelectVal { val })
        } else {
            Instruction::parse_leaf(reader, op)
        }
    }

    /// Reads instructions up to the terminator `0x0B`, which is consumed.
    #[allow(non_snake_case)]
    pub fn parse_until_0x0B<'a>(reader: &mut Reader<'a>) -> (r: ParseResult<'a, Vec<Instruction>>)
        requires
            old(reader).wf(),
        ensures
            final(reader).follows(old(reader)),
            body_agrees(
                r,
                *final(reader),
                spec_body(old(reader).data(), old(reader).pos(), old(reader).limit(), Seq::empty()),
            ),
            r is Ok ==> final(reader).pos() > old(reader).pos(),
        decreases old(reader).limit() - old(reader).pos(), 1nat,
    {
        let mut instructions: Vec<Instruction> = Vec::new();
        loop
            invariant
                reader.follows(old(reader)),
                reader.pos() >= old(reader).pos(),
                spec_body(old(reader).data(), old(reader).pos(), old(reader).limit(), Seq::empty())
                    == spec_body(reader.data(), reader.pos(), reader.limit(), instrs_view(instructions@)),
            decreases reader.limit() - reader.pos(),
        {
            let end = match reader.read_u8_if(|b: u8| -> (r: bool) ensures r == (b == 0x0B) { b == 0x0B }) {
                Ok(end) => end,
                Err(er) => return Err(er),
            };
            if end {
                return Ok(instructions);
            }
            let i = match Instruction::parse(reader) {
                Ok(i) => i,
                Err(er) => return Err(er),
            };
            proof {
                lemma_instrs_view_push(instructions@, i);
            }
            instructions.push(i);
        }
    }

    /// Reads the branches of an `if` up to the terminator `0x0B`; the second
    /// branch is there when the separator `0x05` was found.
    #[allow(non_snake_case)]
    fn parse_until_0x0B_with_else<'a>(reader: &mut Reader<'a>) -> (r: ParseResult<
        'a,
        (Vec<Instruction>, Option<Vec<Instruction>>),
    >)
        requires
            old(reader).wf(),
        ensures
            final(reader).follows(old(reader)),
            final(reader).pos() > old(reader).pos() || r is Err,
            match spec_if_body(
                old(reader).data(),
                old(reader).pos(),
                old(reader).limit(),
                Seq::empty(),
                Seq::empty(),
                false,
            ) {
                Ok(((a, b), q)) => {
                    &&& r is Ok
                    &&& instrs_view(r->Ok_0.0@) == a
                    &&& match b {
                        Some(b) => r->Ok_0.1 is Some && instrs_view(r->Ok_0.1->Some_0@) == b,
                        None => r->Ok_0.1 is None,
                    }
                    &&& final(reader).pos() == q
                },
                Err(er) => err_matches(r, er),
            },
        decreases old(reader).limit() - old(reader).pos(), 1nat,
    {
        let mut if_inner: Vec<Instruction> = Vec::new();
        let mut else_inner: Vec<Instruction> = Vec::new();
        let mut in_else = false;
        loop
            invariant
                reader.follows(old(reader)),
                reader.pos() >= old(reader).pos(),
                spec_if_body(
                    old(reader).data(),
                    old(reader).pos(),
                    old(reader).limit(),
                    Seq::empty(),
                    Seq::empty(),
                    false,
                ) == spec_if_body(
                    reader.data(),
                    reader.pos(),
                    reader.limit(),
                    instrs_view(if_inner@),
                    instrs_view(else_inner@),
                    in_else,
                ),
            decreases reader.limit() - reader.pos(),
        {
            let end = match reader.read_u8_if(|b: u8| -> (r: bool) ensures r == (b == 0x0B) { b == 0x0B }) {
                Ok(end) => end,
                Err(er) => return Err(er),
            };
            if end {
                return Ok((if_inner, if in_else { Some(else_inner) } else { None }));
            }
            let sep = match reader.read_u8_if(|b: u8| -> (r: bool) ensures r == (b == 0x05) { b == 0x05 }) {
                Ok(sep) => sep,
                Err(er) => return Err(er),
            };
            if sep {
                if in_else {
                    return Err(reader.mark_relative(-1).into_error(ErrorKind::DuplicateElse));
                }
                in_else = true;
            } else {
                let i = match Instruction::parse(reader) {
                    Ok(i) => i,
                    Err(er) => return Err(er),
                };
                if in_else {
                    proof {
                        lemma_instrs_view_push(else_inner@, i);
                    }
                    else_inner.push(i);
                } else {
                    proof {
                        lemma_instrs_view_push(if_inner@, i);
                    }
                    if_inner.push(i);
                }
            }
        }
    }

    /// Reads instructions until the reader is empty.
    pub fn parse_vec<'a>(reader: &mut Reader<'a>) -> (r: ParseResult<'a, Vec<Instruction>>)
        requires
            old(reader).wf(),
        ensures
            final(reader).follows(old(reader)),
            body_agrees(
                r,
                *final(reader),
                spec_instrs_to_end(old(reader).data(), old(reader).pos(), old(reader).limit(), Seq::empty()),
            ),
    {
        let mut result: Vec<Instruction> = Vec::new();
        while !reader.is_empty()
            invariant
                reader.follows(old(reader)),
                reader.pos() >= 0,
                spec_instrs_to_end(old(reader).data(), old(reader).pos(), old(reader).limit(), Seq::empty())
                    == spec_instrs_to_end(reader.data(), reader.pos(), reader.limit(), instrs_view(result@)),
            decreases reader.limit() - reader.pos(),
        {
            let i = match Instruction::parse(reader) {
                Ok(i) => i,
                Err(er) => return Err(er),
            };
            proof {
                lemma_instrs_view_push(result@, i);
            }
            result.push(i);
        }
        Ok(result)
    }
}

/// The terminator `0x0B` never decodes to an instruction: at a `0x0B` byte
/// the decoder reports an unknown instruction.
pub proof fn lemma_end_is_not_an_instruction(s: Seq<u8>, p: int, e: int)
    requires
        0 <= p < e,
        s[p] == 0x0B,
    ensures
        spec_instr(s, p, e) == Err::<(InstrView, int), SpecErr>((ErrorKind::UnknownInstruction, p)),
{
}

/// A decoded body ends just after the terminator `0x0B` that closes it, and
/// holds one decoded instruction per element, none of them the terminator.
pub proof fn lemma_body_ends_at_terminator(s: Seq<u8>, p: int, e: int, acc: Seq<InstrView>)
    requires
        spec_body(s, p, e, acc) is Ok,
    ensures
        p < spec_body(s, p, e, acc)->Ok_0.1 <= e,
        s[spec_body(s, p, e, acc)->Ok_0.1 - 1] == 0x0B,
    decreases e - p,
{
    if p >= e || p < 0 {
    } else if s[p] == 0x0B {
    } else {
        match spec_instr(s, p, e) {
            Ok((i, q)) => {
                if p < q <= e {
                    lemma_body_ends_at_terminator(s, q, e, acc.push(i));
                }
            },
            Err(_) => {},
        }
    }
}

} // verus!
