use vstd::prelude::*;
use vstd::string::StringSliceAdditionalSpecFns;

use crate::instruction::{instr_view, instrs_view, lemma_instrs_view_index, InstrView, Instruction};
use crate::cursor::{
    advance, advance_exec, enter, instr_at, instr_at_exec, locate, pop_level, pop_levels, pop_levels_exec,
    settle, settle_exec,
};
use crate::section::{views, Global, GlobalView};
use crate::types::{FuncIdx, LabelIdx, MemArg, NumType, Signedness, ValType};
use crate::reader::{le_value, pow256};
use vstd::arithmetic::power2::{lemma2_to64, lemma2_to64_rest, pow2};
use crate::wasm::{bytes_eq, code_of, has_code, spec_find_export, ModuleView, Wasm};
use crate::section::ExportDesc;

verus! {

/// An untyped 64-bit value. Narrower types live in its low bits.
#[derive(Clone, Copy, Debug, PartialEq, Eq, Structural)]
pub struct Dynamic(pub u64);

impl Dynamic {
    /// The low 32 bits, as an `i32`.
    pub fn as_i32(&self) -> (r: i32)
        ensures
            r == (self.0 as u32) as i32,
    {
        (self.0 as u32) as i32
    }

    /// All 64 bits, as an `i64`.
    pub fn as_i64(&self) -> (r: i64)
        ensures
            r == self.0 as i64,
    {
        self.0 as i64
    }

    /// The value of an `i32`: its bits, zero-extended.
    pub fn from_i32(v: i32) -> (r: Dynamic)
        ensures
            r == Dynamic((v as u32) as u64),
    {
        Dynamic((v as u32) as u64)
    }

    /// The value of an `i64`: its bits.
    pub fn from_i64(v: i64) -> (r: Dynamic)
        ensures
            r == Dynamic(v as u64),
    {
        Dynamic(v as u64)
    }
}

impl From<i32> for Dynamic {
    fn from(v: i32) -> Dynamic {
        Dynamic((v as u32) as u64)
    }
}

impl vstd::std_specs::convert::FromSpecImpl<i32> for Dynamic {
    open spec fn obeys_from_spec() -> bool {
        true
    }

    open spec fn from_spec(v: i32) -> Dynamic {
        Dynamic((v as u32) as u64)
    }
}

impl From<i64> for Dynamic {
    fn from(v: i64) -> Dynamic {
        Dynamic(v as u64)
    }
}

impl vstd::std_specs::convert::FromSpecImpl<i64> for Dynamic {
    open spec fn obeys_from_spec() -> bool {
        true
    }

    open spec fn from_spec(v: i64) -> Dynamic {
        Dynamic(v as u64)
    }
}

/// The low 32 bits of a value.
pub open spec fn low32(d: Dynamic) -> u32 {
    (d.0 % 0x1_0000_0000) as u32
}

/// The value 1 for true, 0 for false.
pub open spec fn from_bool(b: bool) -> Dynamic {
    Dynamic(
        if b {
            1
        } else {
            0
        },
    )
}

/// One call frame: the function, the path of the current instruction, the locals.
#[derive(Debug)]
pub struct ProgramCounter {
    pub func: FuncIdx,
    pub idx: Vec<usize>,
    pub locals: Vec<Dynamic>,
}

/// The view of a call frame.
pub struct FrameView {
    pub func: FuncIdx,
    pub path: Seq<usize>,
    pub locals: Seq<Dynamic>,
}

impl View for ProgramCounter {
    type V = FrameView;

    open spec fn view(&self) -> FrameView {
        FrameView { func: self.func, path: self.idx@, locals: self.locals@ }
    }
}

/// The total count of a list of groups of locals.
pub open spec fn local_count(groups: Seq<(u32, ValType)>) -> nat
    decreases groups.len(),
{
    if groups.len() == 0 {
        0
    } else {
        (local_count(groups.drop_last()) + groups.last().0) as nat
    }
}

/// `n` zero values.
pub open spec fn zeros(n: nat) -> Seq<Dynamic> {
    Seq::new(n, |i: int| Dynamic(0))
}

impl ProgramCounter {
    /// A frame at the first instruction of function `func`, with `params`
    /// zero-valued parameters followed by the declared locals `l`, all zero.
    pub fn new(func: FuncIdx, params: usize, l: &Vec<(u32, ValType)>) -> (r: ProgramCounter)
        requires
            params + local_count(l@) <= usize::MAX,
        ensures
            r@.func == func,
            r@.path == seq![0usize],
            r@.locals == zeros((params + local_count(l@)) as nat),
    {
        let mut locals: Vec<Dynamic> = Vec::new();
        let mut k: usize = 0;
        while k < params
            invariant
                k <= params,
                locals@ == zeros(k as nat),
            decreases params - k,
        {
            locals.push(Dynamic(0));
            k = k + 1;
            assert(locals@ =~= zeros(k as nat));
        }
        let mut g: usize = 0;
        while g < l.len()
            invariant
                g <= l@.len(),
                params + local_count(l@) <= usize::MAX,
                locals@ == zeros((params + local_count(l@.subrange(0, g as int))) as nat),
            decreases l@.len() - g,
        {
            let (count, _) = l[g];
            proof {
                lemma_local_count_prefix(l@, (g + 1) as nat);
                assert(l@.subrange(0, g + 1).drop_last() =~= l@.subrange(0, g as int));
                lemma_local_count_prefix(l@, g as nat);
            }
            let mut c: u32 = 0;
            while c < count
                invariant
                    c <= count,
                    count == l@[g as int].0,
                    params + local_count(l@.subrange(0, g + 1)) <= usize::MAX,
                    local_count(l@.subrange(0, g + 1)) == local_count(l@.subrange(0, g as int)) + count,
                    locals@ == zeros((params + local_count(l@.subrange(0, g as int)) + c) as nat),
                decreases count - c,
            {
                locals.push(Dynamic(0));
                c = c + 1;
                assert(locals@ =~= zeros((params + local_count(l@.subrange(0, g as int)) + c) as nat));
            }
            g = g + 1;
        }
        assert(l@.subrange(0, l@.len() as int) =~= l@);
        let mut idx: Vec<usize> = Vec::new();
        idx.push(0);
        assert(idx@ =~= seq![0usize]);
        ProgramCounter { func, idx, locals }
    }
}

proof fn lemma_local_count_prefix(l: Seq<(u32, ValType)>, n: nat)
    requires
        n <= l.len(),
    ensures
        local_count(l.subrange(0, n as int)) <= local_count(l),
    decreases l.len() - n,
{
    if n < l.len() {
        lemma_local_count_prefix(l, n + 1);
        assert(l.subrange(0, n + 1 as int).drop_last() =~= l.subrange(0, n as int));
    } else {
        assert(l.subrange(0, n as int) =~= l);
    }
}

/// Why a step failed.
#[derive(Clone, Copy, Debug, PartialEq, Eq, Structural)]
pub enum ExecErrorKind {
    /// `spawn` found no exported function of that name with code.
    FunctionNotFound,
    /// The program trapped: `unreachable`, division by zero, a missing
    /// operand, local, global or label, an access outside the memory, or a
    /// call that cannot be made.
    Trap,
    /// The instruction is decoded but not executed by this engine.
    Unsupported,
}

/// An error while executing.
#[derive(Clone, Copy, Debug, PartialEq, Eq, Structural)]
pub struct ExecError {
    pub kind: ExecErrorKind,
}

/// What the host has to do after a step.
#[derive(Debug)]
pub enum ProcessAction<'a> {
    /// Nothing: `step` may be called again.
    Continue,
    /// The function returned; these were left on the operand stack.
    Finished(Vec<Dynamic>),
    /// The guest called the host function `function` with `args`. The host
    /// pushes the results with `stack_push` before the next `step`.
    CallExtern { function: &'a str, args: Vec<Dynamic> },
}

/// The view of a step's action; a host function by the bytes of its name.
pub enum ActionView {
    Continue,
    Finished(Seq<Dynamic>),
    CallExtern(Seq<u8>, Seq<Dynamic>),
}

impl<'a> View for ProcessAction<'a> {
    type V = ActionView;

    open spec fn view(&self) -> ActionView {
        match self {
            ProcessAction::Continue => ActionView::Continue,
            ProcessAction::Finished(v) => ActionView::Finished(v@),
            ProcessAction::CallExtern { function, args } => ActionView::CallExtern(function.spec_bytes(), args@),
        }
    }
}

/// What the instruction of the top frame did to the frame stack.
pub enum TopOutcome {
    /// The frame stays on top; the host is told this.
    Done(ActionView),
    /// The function returned.
    Return,
    /// The function called another one, which gets this frame.
    Call(FrameView),
}

/// The state of a process: call frames, innermost last, the operand stack,
/// and the values of the module's globals.
pub struct StateView {
    pub frames: Seq<FrameView>,
    pub stack: Seq<Dynamic>,
    pub globals: Seq<Dynamic>,
    pub memory: Seq<u8>,
}

/// The bytes that a load of `n` bytes at `a` reads, little-endian; a signed
/// load extends the sign to 64 bits when `wide`, else to 32 bits.
pub open spec fn load_value(mem: Seq<u8>, a: int, n: nat, signed: bool, wide: bool) -> Dynamic {
    let v = le_value(mem, a, n);
    if signed && 2 * v >= pow256(n) {
        if wide {
            Dynamic((v - pow256(n) + 0x1_0000_0000_0000_0000) as u64)
        } else {
            Dynamic((v - pow256(n) + 0x1_0000_0000) as u64)
        }
    } else {
        Dynamic(v as u64)
    }
}

/// `mem` with its `n` bytes at `a` replaced by the low `n` bytes of `v`, little-endian.
pub open spec fn store_bytes(mem: Seq<u8>, a: int, n: nat, v: Dynamic) -> Seq<u8> {
    Seq::new(mem.len(), |j: int| if a <= j < a + n { ((v.0 as int / pow256((j - a) as nat)) % 256) as u8 } else { mem[j] })
}

/// A load: its memory argument, its width in bytes, whether it extends the
/// sign, and whether its result has 64 bits.
pub open spec fn load_shape(i: Instruction) -> Option<(MemArg, nat, bool, bool)> {
    match i {
        Instruction::Load { numtype, memarg } => match numtype {
            NumType::I32 | NumType::F32 => Some((memarg, 4nat, false, false)),
            NumType::I64 | NumType::F64 => Some((memarg, 8nat, false, true)),
        },
        Instruction::Load8 { numtype, memarg, signedness } => Some((memarg, 1nat, signedness == Signedness::Signed, numtype == NumType::I64 || numtype == NumType::F64)),
        Instruction::Load16 { numtype, memarg, signedness } => Some((memarg, 2nat, signedness == Signedness::Signed, numtype == NumType::I64 || numtype == NumType::F64)),
        Instruction::Load32 { memarg, signedness } => Some((memarg, 4nat, signedness == Signedness::Signed, true)),
        _ => None,
    }
}

/// A store: its memory argument and its width in bytes.
pub open spec fn store_shape(i: Instruction) -> Option<(MemArg, nat)> {
    match i {
        Instruction::Store { numtype, memarg } => match numtype {
            NumType::I32 | NumType::F32 => Some((memarg, 4nat)),
            NumType::I64 | NumType::F64 => Some((memarg, 8nat)),
        },
        Instruction::Store8 { memarg, .. } => Some((memarg, 1nat)),
        Instruction::Store16 { memarg, .. } => Some((memarg, 2nat)),
        Instruction::Store32 { memarg, .. } => Some((memarg, 4nat)),
        _ => None,
    }
}

/// One step of a memory instruction `i`, or `None` for another instruction.
/// An access outside the memory traps.
pub open spec fn spec_memory_step(m: ModuleView, body: Seq<InstrView>, st: StateView, i: Instruction) -> Option<Result<(ActionView, StateView), ExecErrorKind>> {
    let last = st.frames.len() - 1;
    let fr = st.frames[last];
    let frames = st.frames.update(last, next(body, fr));
    match load_shape(i) {
        Some((ma, n, signed, wide)) => Some(
            if st.stack.len() == 0 {
                Err(ExecErrorKind::Trap)
            } else {
                let a = low32(st.stack.last()) + ma.offset;
                if a + n > st.memory.len() {
                    Err(ExecErrorKind::Trap)
                } else {
                    Ok((ActionView::Continue, StateView { frames, stack: st.stack.drop_last().push(load_value(st.memory, a, n, signed, wide)), ..st }))
                }
            },
        ),
        None => match store_shape(i) {
            Some((ma, n)) => Some(
                if st.stack.len() < 2 {
                    Err(ExecErrorKind::Trap)
                } else {
                    let a = low32(st.stack[st.stack.len() - 2]) + ma.offset;
                    if a + n > st.memory.len() {
                        Err(ExecErrorKind::Trap)
                    } else {
                        Ok(
                            (
                                ActionView::Continue,
                                StateView {
                                    frames,
                                    stack: st.stack.subrange(0, st.stack.len() - 2),
                                    memory: store_bytes(st.memory, a, n, st.stack.last()),
                                    ..st
                                },
                            ),
                        )
                    }
                },
            ),
            None => if i is MemorySize {
                Some(Ok((ActionView::Continue, StateView { frames, stack: st.stack.push(Dynamic((st.memory.len() / 65536) as u64)), ..st })))
            } else if i is MemoryGrow {
                Some(
                    if st.stack.len() == 0 {
                        Err(ExecErrorKind::Trap)
                    } else {
                        let pages = st.memory.len() / 65536;
                        let n = low32(st.stack.last());
                        if pages + n <= max_pages(m) && (pages + n) * 65536 <= usize::MAX {
                            Ok(
                                (
                                    ActionView::Continue,
                                    StateView {
                                        frames,
                                        stack: st.stack.drop_last().push(Dynamic(pages as u64)),
                                        memory: st.memory + Seq::new((n * 65536) as nat, |j: int| 0u8),
                                        ..st
                                    },
                                ),
                            )
                        } else {
                            Ok((ActionView::Continue, StateView { frames, stack: st.stack.drop_last().push(Dynamic(0xFFFF_FFFF)), ..st }))
                        }
                    },
                )
            } else {
                None
            },
        },
    }
}

/// The body of function `f`.
pub open spec fn body_of(m: ModuleView, f: FuncIdx) -> Seq<InstrView> {
    code_of(m, f).expr
}

/// The number of parameters of function `f`, when its type can be found.
pub open spec fn param_count(m: ModuleView, f: FuncIdx) -> Option<nat> {
    let k = f.0 - m.imports.len();
    if 0 <= k < m.functions.len() && m.functions[k].0.0 < m.types.len() {
        Some(m.types[m.functions[k].0.0 as int].lhs.len())
    } else {
        None
    }
}

/// The frame that a call of function `f` starts with: the arguments, then
/// the declared locals, all zero.
pub open spec fn callee_frame(m: ModuleView, f: FuncIdx, args: Seq<Dynamic>) -> FrameView {
    FrameView { func: f, path: seq![0usize], locals: args + zeros(local_count(code_of(m, f).locals)) }
}

/// The frame with its path replaced.
pub open spec fn with_path(fr: FrameView, p: Seq<usize>) -> FrameView {
    FrameView { path: p, ..fr }
}

/// The frame moved on to its next instruction.
pub open spec fn next(body: Seq<InstrView>, fr: FrameView) -> FrameView {
    with_path(fr, advance(body, fr.path))
}

/// A step that moves on and tells the host nothing.
pub open spec fn done(fr: FrameView, stack: Seq<Dynamic>) -> Result<(TopOutcome, FrameView, Seq<Dynamic>), ExecErrorKind> {
    Ok((TopOutcome::Done(ActionView::Continue), fr, stack))
}

/// A branch out of `k + 1` levels: the target loop is entered again, any
/// other container is left; leaving every level returns from the function.
pub open spec fn spec_branch(body: Seq<InstrView>, fr: FrameView, stack: Seq<Dynamic>, k: nat) -> Result<(TopOutcome, FrameView, Seq<Dynamic>), ExecErrorKind> {
    match pop_levels(body, fr.path, k + 1) {
        Some(p) => match instr_at(body, p) {
            Some(InstrView::Loop(_, _)) => done(with_path(fr, enter(body, p, None)), stack),
            _ => done(with_path(fr, advance(body, p)), stack),
        },
        None => match pop_levels(body, fr.path, k) {
            Some(_) => Ok((TopOutcome::Return, fr, stack)),
            None => Err(ExecErrorKind::Trap),
        },
    }
}

/// `select`: of the third and second value from the top, the first if the top is non-zero.
pub open spec fn spec_select(body: Seq<InstrView>, fr: FrameView, stack: Seq<Dynamic>) -> Result<(TopOutcome, FrameView, Seq<Dynamic>), ExecErrorKind> {
    if stack.len() < 3 {
        Err(ExecErrorKind::Trap)
    } else {
        let c = stack[stack.len() - 1];
        let b = stack[stack.len() - 2];
        let a = stack[stack.len() - 3];
        done(next(body, fr), stack.subrange(0, stack.len() - 3).push(if low32(c) != 0 { a } else { b }))
    }
}

/// A call of function `f`: a host call for an import, a new frame otherwise.
pub open spec fn spec_call(m: ModuleView, body: Seq<InstrView>, fr: FrameView, stack: Seq<Dynamic>, f: FuncIdx) -> Result<(TopOutcome, FrameView, Seq<Dynamic>), ExecErrorKind> {
    if f.0 < m.imports.len() {
        Ok((TopOutcome::Done(ActionView::CallExtern(m.imports[f.0 as int].name, stack)), next(body, fr), Seq::empty()))
    } else if has_code(m, f) && param_count(m, f) is Some {
        let n = param_count(m, f)->Some_0;
        if stack.len() < n || n + local_count(code_of(m, f).locals) > usize::MAX {
            Err(ExecErrorKind::Trap)
        } else {
            Ok(
                (
                    TopOutcome::Call(callee_frame(m, f, stack.subrange(stack.len() - n, stack.len() as int))),
                    next(body, fr),
                    stack.subrange(0, stack.len() - n),
                ),
            )
        }
    } else {
        Err(ExecErrorKind::Trap)
    }
}

/// The absolute value of `a`.
pub open spec fn abs(a: int) -> int {
    if a < 0 {
        -a
    } else {
        a
    }
}

/// Division rounding toward zero, as Wasm's signed division does.
pub open spec fn trunc_div(a: int, b: int) -> int {
    let q = abs(a) / abs(b);
    if (a < 0) != (b < 0) {
        -q
    } else {
        q
    }
}

/// The remainder of the division rounding toward zero; it has the sign of `a`.
pub open spec fn trunc_rem(a: int, b: int) -> int {
    a - b * trunc_div(a, b)
}

/// The `bits`-bit two's-complement pattern of `v`.
pub open spec fn bits_of(v: int, bits: nat) -> int {
    (v + pow2(bits)) % (pow2(bits) as int)
}

/// The number of leading zero bits of the `bits`-bit value `a`.
pub open spec fn clz(a: nat, bits: nat) -> nat
    decreases bits,
{
    if bits == 0 {
        0
    } else if a >= pow2((bits - 1) as nat) {
        0
    } else {
        1 + clz(a, (bits - 1) as nat)
    }
}

/// The number of trailing zero bits of the `bits`-bit value `a`.
pub open spec fn ctz(a: nat, bits: nat) -> nat
    decreases bits,
{
    if bits == 0 {
        0
    } else if a % 2 == 1 {
        0
    } else {
        1 + ctz(a / 2, (bits - 1) as nat)
    }
}

/// The number of one bits among the low `bits` bits of `a`.
pub open spec fn popcnt(a: nat, bits: nat) -> nat
    decreases bits,
{
    if bits == 0 {
        0
    } else {
        a % 2 + popcnt(a / 2, (bits - 1) as nat)
    }
}

/// The result of a binary `i32` instruction on `a` and `b`: `None` for
/// another instruction, `Some(None)` for a trap.
pub open spec fn i32_binop(i: Instruction, a: u32, b: u32) -> Option<Option<Dynamic>> {
    match i {
        Instruction::I32Equals => Some(Some(from_bool(a == b))),
        Instruction::I32NotEquals => Some(Some(from_bool(a != b))),
        Instruction::I32LessThanSigned => Some(Some(from_bool((a as i32) < (b as i32)))),
        Instruction::I32LessThanUnsigned => Some(Some(from_bool(a < b))),
        Instruction::I32GreaterThanSigned => Some(Some(from_bool((a as i32) > (b as i32)))),
        Instruction::I32GreaterThanUnsigned => Some(Some(from_bool(a > b))),
        Instruction::I32LessOrEqualToSigned => Some(Some(from_bool((a as i32) <= (b as i32)))),
        Instruction::I32LessOrEqualToUnsigned => Some(Some(from_bool(a <= b))),
        Instruction::I32GreaterOrEqualToSigned => Some(Some(from_bool((a as i32) >= (b as i32)))),
        Instruction::I32GreaterOrEqualToUnsigned => Some(Some(from_bool(a >= b))),
        Instruction::I32Add => Some(Some(Dynamic(((a + b) % 0x1_0000_0000) as u64))),
        Instruction::I32Sub => Some(Some(Dynamic(((a + 0x1_0000_0000 - b) % 0x1_0000_0000) as u64))),
        Instruction::I32Mul => Some(Some(Dynamic(((a * b) % 0x1_0000_0000) as u64))),
        Instruction::I32DivUnsigned => if b == 0 { Some(None) } else { Some(Some(Dynamic((a / b) as u64))) },
        Instruction::I32RemainderUnsigned => if b == 0 { Some(None) } else { Some(Some(Dynamic((a % b) as u64))) },
        Instruction::I32DivSigned => if b == 0 || trunc_div(a as i32 as int, b as i32 as int) == 0x8000_0000 {
            Some(None)
        } else {
            Some(Some(Dynamic(bits_of(trunc_div(a as i32 as int, b as i32 as int), 32) as u64)))
        },
        Instruction::I32RemainderSigned => if b == 0 {
            Some(None)
        } else {
            Some(Some(Dynamic(bits_of(trunc_rem(a as i32 as int, b as i32 as int), 32) as u64)))
        },
        Instruction::I32LogicalAnd => Some(Some(Dynamic((a & b) as u64))),
        Instruction::I32LogicalOr => Some(Some(Dynamic((a | b) as u64))),
        Instruction::I32LogicalXor => Some(Some(Dynamic((a ^ b) as u64))),
        Instruction::I32ShiftLeft => Some(Some(Dynamic((a << (b % 32)) as u64))),
        Instruction::I32ShiftRightUnsigned => Some(Some(Dynamic((a >> (b % 32)) as u64))),
        Instruction::I32ShiftRightSigned => Some(Some(Dynamic((((a as i32) >> (b % 32)) as u32) as u64))),
        Instruction::I32RotateLeft => Some(Some(Dynamic(rotl32(a, b % 32) as u64))),
        Instruction::I32RotateRight => Some(Some(Dynamic(rotl32(a, ((32 - b % 32) % 32) as u32) as u64))),
        _ => None,
    }
}

/// `a` rotated left by `k` bits, `k` below 32.
pub open spec fn rotl32(a: u32, k: u32) -> u32 {
    if k == 0 {
        a
    } else {
        (a << k) | (a >> ((32 - k) as u32))
    }
}

/// `a` rotated left by `k` bits, `k` below 64.
pub open spec fn rotl64(a: u64, k: u64) -> u64 {
    if k == 0 {
        a
    } else {
        (a << k) | (a >> ((64 - k) as u64))
    }
}

/// The result of a unary integer instruction on `a`; `None` for another instruction.
/// Reinterpretations keep the bits.
pub open spec fn unop(i: Instruction, a: Dynamic) -> Option<Dynamic> {
    match i {
        Instruction::I32WrapI64 | Instruction::I64ExtendI32Unsigned | Instruction::I32ReinterpretAsF32
        | Instruction::F32ReinterpretAsI32 => Some(Dynamic(low32(a) as u64)),
        Instruction::I64ReinterpretAsF64 | Instruction::F64ReinterpretAsI64 => Some(a),
        Instruction::I64ExtendI32Signed => Some(Dynamic(((low32(a) as i32) as i64) as u64)),
        Instruction::I32Extend8Signed => Some(Dynamic((((low32(a) as u8) as i8) as i32 as u32) as u64)),
        Instruction::I32Extend16Signed => Some(Dynamic((((low32(a) as u16) as i16) as i32 as u32) as u64)),
        Instruction::I64Extend8Signed => Some(Dynamic(((a.0 as u8) as i8) as i64 as u64)),
        Instruction::I64Extend16Signed => Some(Dynamic(((a.0 as u16) as i16) as i64 as u64)),
        Instruction::I64Extend32Signed => Some(Dynamic(((a.0 as u32) as i32) as i64 as u64)),
        Instruction::I32CountLeadingZeroBits => Some(Dynamic(clz(low32(a) as nat, 32) as u64)),
        Instruction::I32CountTrailingZeroBits => Some(Dynamic(ctz(low32(a) as nat, 32) as u64)),
        Instruction::I32CountNonZeroBits => Some(Dynamic(popcnt(low32(a) as nat, 32) as u64)),
        Instruction::I64CountLeadingZeroBits => Some(Dynamic(clz(a.0 as nat, 64) as u64)),
        Instruction::I64CountTrailingZeroBits => Some(Dynamic(ctz(a.0 as nat, 64) as u64)),
        Instruction::I64CountNonZeroBits => Some(Dynamic(popcnt(a.0 as nat, 64) as u64)),
        _ => None,
    }
}

/// The result of a binary `i64` instruction on `a` and `b`: `None` for
/// another instruction, `Some(None)` for a trap.
pub open spec fn i64_binop(i: Instruction, a: u64, b: u64) -> Option<Option<Dynamic>> {
    match i {
        Instruction::I64Equals => Some(Some(from_bool(a == b))),
        Instruction::I64NotEquals => Some(Some(from_bool(a != b))),
        Instruction::I64LessThanSigned => Some(Some(from_bool((a as i64) < (b as i64)))),
        Instruction::I64LessThanUnsigned => Some(Some(from_bool(a < b))),
        Instruction::I64GreaterThanSigned => Some(Some(from_bool((a as i64) > (b as i64)))),
        Instruction::I64GreaterThanUnsigned => Some(Some(from_bool(a > b))),
        Instruction::I64LessOrEqualToSigned => Some(Some(from_bool((a as i64) <= (b as i64)))),
        Instruction::I64LessOrEqualToUnsigned => Some(Some(from_bool(a <= b))),
        Instruction::I64GreaterOrEqualToSigned => Some(Some(from_bool((a as i64) >= (b as i64)))),
        Instruction::I64GreaterOrEqualToUnsigned => Some(Some(from_bool(a >= b))),
        Instruction::I64Add => Some(Some(Dynamic(((a + b) % 0x1_0000_0000_0000_0000) as u64))),
        Instruction::I64Sub => Some(Some(Dynamic(((a + 0x1_0000_0000_0000_0000 - b) % 0x1_0000_0000_0000_0000) as u64))),
        Instruction::I64Mul => Some(Some(Dynamic(((a * b) % 0x1_0000_0000_0000_0000) as u64))),
        Instruction::I64DivUnsigned => if b == 0 { Some(None) } else { Some(Some(Dynamic(a / b))) },
        Instruction::I64RemainderUnsigned => if b == 0 { Some(None) } else { Some(Some(Dynamic(a % b))) },
        Instruction::I64DivSigned => if b == 0 || trunc_div(a as i64 as int, b as i64 as int) == 0x8000_0000_0000_0000 {
            Some(None)
        } else {
            Some(Some(Dynamic(bits_of(trunc_div(a as i64 as int, b as i64 as int), 64) as u64)))
        },
        Instruction::I64RemainderSigned => if b == 0 {
            Some(None)
        } else {
            Some(Some(Dynamic(bits_of(trunc_rem(a as i64 as int, b as i64 as int), 64) as u64)))
        },
        Instruction::I64LogicalAnd => Some(Some(Dynamic(a & b))),
        Instruction::I64LogicalOr => Some(Some(Dynamic(a | b))),
        Instruction::I64LogicalXor => Some(Some(Dynamic(a ^ b))),
        Instruction::I64ShiftLeft => Some(Some(Dynamic(a << (b % 64)))),
        Instruction::I64ShiftRightUnsigned => Some(Some(Dynamic(a >> (b % 64)))),
        Instruction::I64ShiftRightSigned => Some(Some(Dynamic(((a as i64) >> (b % 64)) as u64))),
        Instruction::I64RotateLeft => Some(Some(Dynamic(rotl64(a, b % 64)))),
        Instruction::I64RotateRight => Some(Some(Dynamic(rotl64(a, ((64 - b % 64) % 64) as u64)))),
        _ => None,
    }
}

/// A binary numeric instruction: pops two values and pushes the result.
pub open spec fn spec_binop(body: Seq<InstrView>, fr: FrameView, stack: Seq<Dynamic>, i: Instruction) -> Result<(TopOutcome, FrameView, Seq<Dynamic>), ExecErrorKind> {
    if stack.len() < 2 {
        Err(ExecErrorKind::Trap)
    } else {
        let b = stack[stack.len() - 1];
        let a = stack[stack.len() - 2];
        let rest = stack.subrange(0, stack.len() - 2);
        let r = match i32_binop(i, low32(a), low32(b)) {
            Some(r) => Some(r),
            None => i64_binop(i, a.0, b.0),
        };
        match r {
            Some(Some(v)) => done(next(body, fr), rest.push(v)),
            Some(None) => Err(ExecErrorKind::Trap),
            None => Err(ExecErrorKind::Unsupported),
        }
    }
}

/// One step of an instruction with no body or list.
pub open spec fn spec_leaf_step(m: ModuleView, body: Seq<InstrView>, fr: FrameView, stack: Seq<Dynamic>, i: Instruction) -> Result<(TopOutcome, FrameView, Seq<Dynamic>), ExecErrorKind> {
    match i {
        Instruction::Nop => done(next(body, fr), stack),
        Instruction::Unreachable => Err(ExecErrorKind::Trap),
        Instruction::Branch { index } => spec_branch(body, fr, stack, index.0 as nat),
        Instruction::BranchIf { index } => if stack.len() == 0 {
            Err(ExecErrorKind::Trap)
        } else if low32(stack.last()) != 0 {
            spec_branch(body, fr, stack.drop_last(), index.0 as nat)
        } else {
            done(next(body, fr), stack.drop_last())
        },
        Instruction::Return => Ok((TopOutcome::Return, fr, stack)),
        Instruction::Call { function } => spec_call(m, body, fr, stack, function),
        Instruction::Drop => if stack.len() == 0 {
            Err(ExecErrorKind::Trap)
        } else {
            done(next(body, fr), stack.drop_last())
        },
        Instruction::Select => spec_select(body, fr, stack),
        Instruction::LocalGet(x) => if x.0 < fr.locals.len() {
            done(next(body, fr), stack.push(fr.locals[x.0 as int]))
        } else {
            Err(ExecErrorKind::Trap)
        },
        Instruction::LocalSet(x) => if x.0 < fr.locals.len() && stack.len() > 0 {
            done(FrameView { locals: fr.locals.update(x.0 as int, stack.last()), ..next(body, fr) }, stack.drop_last())
        } else {
            Err(ExecErrorKind::Trap)
        },
        Instruction::LocalTee(x) => if x.0 < fr.locals.len() && stack.len() > 0 {
            done(FrameView { locals: fr.locals.update(x.0 as int, stack.last()), ..next(body, fr) }, stack)
        } else {
            Err(ExecErrorKind::Trap)
        },
        Instruction::I32Const(v) => done(next(body, fr), stack.push(Dynamic((v as u32) as u64))),
        Instruction::I64Const(v) => done(next(body, fr), stack.push(Dynamic(v as u64))),
        Instruction::F32Const(v) => done(next(body, fr), stack.push(Dynamic(v as u64))),
        Instruction::F64Const(v) => done(next(body, fr), stack.push(Dynamic(v))),
        Instruction::I32EqualZero => if stack.len() == 0 {
            Err(ExecErrorKind::Trap)
        } else {
            done(next(body, fr), stack.drop_last().push(from_bool(low32(stack.last()) == 0)))
        },
        Instruction::I64EqualZero => if stack.len() == 0 {
            Err(ExecErrorKind::Trap)
        } else {
            done(next(body, fr), stack.drop_last().push(from_bool(stack.last().0 == 0)))
        },
        _ => if unop(i, Dynamic(0)) is Some {
            if stack.len() == 0 {
                Err(ExecErrorKind::Trap)
            } else {
                done(next(body, fr), stack.drop_last().push(unop(i, stack.last())->Some_0))
            }
        } else {
            spec_binop(body, fr, stack, i)
        },
    }
}

/// One step of the instruction `iv` of the top frame.
pub open spec fn spec_instr_step(m: ModuleView, body: Seq<InstrView>, fr: FrameView, stack: Seq<Dynamic>, iv: InstrView) -> Result<(TopOutcome, FrameView, Seq<Dynamic>), ExecErrorKind> {
    match iv {
        InstrView::Block(_, _) => done(with_path(fr, enter(body, fr.path, None)), stack),
        InstrView::Loop(_, _) => done(with_path(fr, enter(body, fr.path, None)), stack),
        InstrView::If(_, _) => if stack.len() == 0 {
            Err(ExecErrorKind::Trap)
        } else if low32(stack.last()) != 0 {
            done(with_path(fr, enter(body, fr.path, None)), stack.drop_last())
        } else {
            done(next(body, fr), stack.drop_last())
        },
        InstrView::IfElse(_, _, _) => if stack.len() == 0 {
            Err(ExecErrorKind::Trap)
        } else {
            done(
                with_path(fr, enter(body, fr.path, Some(if low32(stack.last()) != 0 { 0usize } else { 1usize }))),
                stack.drop_last(),
            )
        },
        InstrView::BranchTable(labels, default) => if stack.len() == 0 {
            Err(ExecErrorKind::Trap)
        } else {
            let i = low32(stack.last());
            let target = if i < labels.len() { labels[i as int] } else { default };
            spec_branch(body, fr, stack.drop_last(), target.0 as nat)
        },
        InstrView::SelectVal(_) => spec_select(body, fr, stack),
        InstrView::Leaf(i) => spec_leaf_step(m, body, fr, stack, i),
    }
}

/// One step of the top frame `fr`: its function returns when its path has
/// run off the end of the body.
pub open spec fn spec_top(m: ModuleView, fr: FrameView, stack: Seq<Dynamic>) -> Result<(TopOutcome, FrameView, Seq<Dynamic>), ExecErrorKind> {
    let body = body_of(m, fr.func);
    match instr_at(body, fr.path) {
        None => Ok((TopOutcome::Return, fr, stack)),
        Some(iv) => spec_instr_step(m, body, fr, stack, iv),
    }
}

/// One step of a process: the action for the host and the state after it.
/// When the outermost function returns, the operand stack is handed over
/// and the frame stays, so that further steps finish again.
pub open spec fn spec_step(m: ModuleView, st: StateView) -> Result<(ActionView, StateView), ExecErrorKind> {
    let last = st.frames.len() - 1;
    let fr = st.frames[last];
    let body = body_of(m, fr.func);
    match instr_at(body, fr.path) {
        Some(InstrView::Leaf(Instruction::GlobalGet(x))) => if x.0 < st.globals.len() {
            Ok((ActionView::Continue, StateView { frames: st.frames.update(last, next(body, fr)), stack: st.stack.push(st.globals[x.0 as int]), ..st }))
        } else {
            Err(ExecErrorKind::Trap)
        },
        Some(InstrView::Leaf(Instruction::GlobalSet(x))) => if x.0 < st.globals.len() && st.stack.len() > 0 {
            Ok(
                (
                    ActionView::Continue,
                    StateView {
                        frames: st.frames.update(last, next(body, fr)),
                        stack: st.stack.drop_last(),
                        globals: st.globals.update(x.0 as int, st.stack.last()),
                        ..st
                    },
                ),
            )
        } else {
            Err(ExecErrorKind::Trap)
        },
        Some(InstrView::Leaf(i)) => match spec_memory_step(m, body, st, i) {
            Some(r) => r,
            None => spec_frame_step(m, st),
        },
        _ => spec_frame_step(m, st),
    }
}

/// One step of an instruction that leaves the globals alone.
pub open spec fn spec_frame_step(m: ModuleView, st: StateView) -> Result<(ActionView, StateView), ExecErrorKind> {
    let last = st.frames.len() - 1;
    match spec_top(m, st.frames[last], st.stack) {
        Ok((TopOutcome::Done(a), fr2, stack2)) => Ok((a, StateView { frames: st.frames.update(last, fr2), stack: stack2, ..st })),
        Ok((TopOutcome::Return, _, stack2)) => if st.frames.len() == 1 {
            Ok((ActionView::Finished(stack2), StateView { stack: Seq::empty(), ..st }))
        } else {
            Ok((ActionView::Continue, StateView { frames: st.frames.drop_last(), stack: stack2, ..st }))
        },
        Ok((TopOutcome::Call(callee), fr2, stack2)) => Ok(
            (ActionView::Continue, StateView { frames: st.frames.update(last, fr2).push(callee), stack: stack2, ..st }),
        ),
        Err(k) => Err(k),
    }
}

/// The frame that a process spawned at function `f` starts with: its
/// parameters and declared locals, all zero.
pub open spec fn initial_frame(m: ModuleView, f: FuncIdx) -> FrameView {
    FrameView {
        func: f,
        path: seq![0usize],
        locals: zeros(initial_locals(m, f) as nat),
    }
}

/// How many locals a process spawned at function `f` starts with.
pub open spec fn initial_locals(m: ModuleView, f: FuncIdx) -> int {
    let params: int = match param_count(m, f) {
        Some(n) => n as int,
        None => 0,
    };
    params + local_count(code_of(m, f).locals)
}

/// The value a global starts with: that of a constant initializer, else zero.
pub open spec fn global_init(g: GlobalView) -> Dynamic {
    if g.init.len() == 1 {
        match g.init[0] {
            InstrView::Leaf(Instruction::I32Const(v)) => Dynamic((v as u32) as u64),
            InstrView::Leaf(Instruction::I64Const(v)) => Dynamic(v as u64),
            InstrView::Leaf(Instruction::F32Const(v)) => Dynamic(v as u64),
            InstrView::Leaf(Instruction::F64Const(v)) => Dynamic(v),
            _ => Dynamic(0),
        }
    } else {
        Dynamic(0)
    }
}

/// The size in bytes of the memory of `m`: the minimum of its first memory.
pub open spec fn memory_bytes(m: ModuleView) -> int {
    if m.memories.len() > 0 {
        m.memories[0].0.min.0 * 65536
    } else {
        0
    }
}

/// The most pages the memory of `m` may grow to: its declared maximum, and
/// at most 65536 pages (4 GiB).
pub open spec fn max_pages(m: ModuleView) -> int {
    if m.memories.len() > 0 {
        match m.memories[0].0.max {
            Some(p) => if p.0 < 65536 { p.0 as int } else { 65536 },
            None => 65536,
        }
    } else {
        0
    }
}

/// The values the globals of `m` start with.
pub open spec fn initial_globals(m: ModuleView) -> Seq<Dynamic> {
    Seq::new(m.globals.len(), |i: int| global_init(m.globals[i]))
}

/// Every frame runs a function that has code.
pub open spec fn frames_ok(m: ModuleView, frames: Seq<FrameView>) -> bool {
    &&& frames.len() >= 1
    &&& forall|i: int| 0 <= i < frames.len() ==> #[trigger] has_code(m, frames[i].func)
}

/// What the instruction of the top frame did, as values.
enum Outcome<'a> {
    Done(ProcessAction<'a>),
    Return,
    Call(ProgramCounter),
}

impl<'a> View for Outcome<'a> {
    type V = TopOutcome;

    closed spec fn view(&self) -> TopOutcome {
        match self {
            Outcome::Done(a) => TopOutcome::Done(a@),
            Outcome::Return => TopOutcome::Return,
            Outcome::Call(pc) => TopOutcome::Call(pc@),
        }
    }
}

/// `r`, with the frame and the stack after it, is what `spec` says.
pub open spec fn top_agrees(
    r: Result<TopOutcome, ExecErrorKind>,
    fr: FrameView,
    stack: Seq<Dynamic>,
    spec: Result<(TopOutcome, FrameView, Seq<Dynamic>), ExecErrorKind>,
) -> bool {
    match spec {
        Ok((o, fr2, stack2)) => r == Ok::<TopOutcome, ExecErrorKind>(o) && fr == fr2 && stack == stack2,
        Err(k) => r == Err::<TopOutcome, ExecErrorKind>(k),
    }
}

/// The outcome's view, with errors kept.
spec fn outcome_view(r: Result<Outcome, ExecErrorKind>) -> Result<TopOutcome, ExecErrorKind> {
    match r {
        Ok(o) => Ok(o@),
        Err(k) => Err(k),
    }
}

fn sdiv32(a: u32, b: u32) -> (r: Option<u64>)
    requires
        b != 0,
    ensures
        trunc_div(a as i32 as int, b as i32 as int) == 0x8000_0000 ==> r is None,
        trunc_div(a as i32 as int, b as i32 as int) != 0x8000_0000 ==> r == Some(
            bits_of(trunc_div(a as i32 as int, b as i32 as int), 32) as u64,
        ),
{
    assert((b as i32) != 0) by (bit_vector)
        requires
            b != 0,
    ;
    let x = a as i32 as i64;
    let y = b as i32 as i64;
    let ux: u64 = if x < 0 { (0 - x) as u64 } else { x as u64 };
    let uy: u64 = if y < 0 { (0 - y) as u64 } else { y as u64 };
    let q: u64 = ux / uy;
    proof {
        assert(q <= ux) by (nonlinear_arith)
            requires
                q == ux / uy,
                uy >= 1,
        ;
        lemma2_to64();
    }
    let neg = (x < 0) != (y < 0);
    if !neg && q == 0x8000_0000 {
        return None;
    }
    let bits: u64 = if neg { (0x1_0000_0000 - q) % 0x1_0000_0000 } else { q };
    Some(bits)
}

fn srem32(a: u32, b: u32) -> (r: u64)
    requires
        b != 0,
    ensures
        r == bits_of(trunc_rem(a as i32 as int, b as i32 as int), 32),
{
    assert((b as i32) != 0) by (bit_vector)
        requires
            b != 0,
    ;
    let x = a as i32 as i64;
    let y = b as i32 as i64;
    let ux: u64 = if x < 0 { (0 - x) as u64 } else { x as u64 };
    let uy: u64 = if y < 0 { (0 - y) as u64 } else { y as u64 };
    let m: u64 = ux % uy;
    proof {
        lemma2_to64();
        lemma_trunc_rem(x as int, y as int);
    }
    let bits: u64 = if x < 0 { (0x1_0000_0000 - m) % 0x1_0000_0000 } else { m };
    bits
}

/// The remainder rounding toward zero is that of the magnitudes, with the sign of `x`.
proof fn lemma_trunc_rem(x: int, y: int)
    requires
        y != 0,
    ensures
        0 <= abs(x) % abs(y) < abs(y),
        trunc_rem(x, y) == if x < 0 { -(abs(x) % abs(y)) } else { abs(x) % abs(y) },
{
    let ux = abs(x);
    let uy = abs(y);
    let q = ux / uy;
    let m = ux % uy;
    assert(ux == uy * q + m && 0 <= m < uy) by (nonlinear_arith)
        requires
            uy >= 1,
            ux >= 0,
            q == ux / uy,
            m == ux % uy,
    ;
    if x >= 0 && y > 0 {
        assert(trunc_rem(x, y) == x - y * q);
    } else if x >= 0 {
        assert(y * (-q) == uy * q) by (nonlinear_arith)
            requires
                uy == -y,
        ;
    } else if y > 0 {
        assert(y * (-q) == -(uy * q)) by (nonlinear_arith)
            requires
                uy == y,
        ;
    } else {
        assert(y * q == -(uy * q)) by (nonlinear_arith)
            requires
                uy == -y,
        ;
    }
}

fn sdiv64(a: u64, b: u64) -> (r: Option<u64>)
    requires
        b != 0,
    ensures
        trunc_div(a as i64 as int, b as i64 as int) == 0x8000_0000_0000_0000 ==> r is None,
        trunc_div(a as i64 as int, b as i64 as int) != 0x8000_0000_0000_0000 ==> r == Some(
            bits_of(trunc_div(a as i64 as int, b as i64 as int), 64) as u64,
        ),
{
    assert((b as i64) != 0) by (bit_vector)
        requires
            b != 0,
    ;
    let x = a as i64 as i128;
    let y = b as i64 as i128;
    let ux: u128 = if x < 0 { (0 - x) as u128 } else { x as u128 };
    let uy: u128 = if y < 0 { (0 - y) as u128 } else { y as u128 };
    let q: u128 = ux / uy;
    proof {
        assert(q <= ux) by (nonlinear_arith)
            requires
                q == ux / uy,
                uy >= 1,
        ;
        lemma2_to64();
        lemma2_to64_rest();
    }
    let neg = (x < 0) != (y < 0);
    if !neg && q == 0x8000_0000_0000_0000 {
        return None;
    }
    let bits: u128 = if neg { (0x1_0000_0000_0000_0000 - q) % 0x1_0000_0000_0000_0000 } else { q };
    Some(bits as u64)
}

fn srem64(a: u64, b: u64) -> (r: u64)
    requires
        b != 0,
    ensures
        r == bits_of(trunc_rem(a as i64 as int, b as i64 as int), 64),
{
    assert((b as i64) != 0) by (bit_vector)
        requires
            b != 0,
    ;
    let x = a as i64 as i128;
    let y = b as i64 as i128;
    let ux: u128 = if x < 0 { (0 - x) as u128 } else { x as u128 };
    let uy: u128 = if y < 0 { (0 - y) as u128 } else { y as u128 };
    let m: u128 = ux % uy;
    proof {
        lemma2_to64();
        lemma2_to64_rest();
        lemma_trunc_rem(x as int, y as int);
    }
    let bits: u128 = if x < 0 { (0x1_0000_0000_0000_0000 - m) % 0x1_0000_0000_0000_0000 } else { m };
    bits as u64
}

fn clz_exec(a: u64, bits: u64) -> (r: u64)
    requires
        bits == 32 || bits == 64,
        a < pow2(bits as nat),
    ensures
        r == clz(a as nat, bits as nat),
{
    proof {
        lemma2_to64();
        lemma2_to64_rest();
    }
    let mut k: u64 = bits;
    let mut n: u64 = 0;
    let mut top: u64 = if bits == 64 { 0x8000_0000_0000_0000 } else { 0x8000_0000 };
    while k > 0
        invariant
            k <= bits <= 64,
            n + k == bits,
            k > 0 ==> top == pow2((k - 1) as nat),
            clz(a as nat, bits as nat) == n + clz(a as nat, k as nat),
        decreases k,
    {
        if a >= top {
            return n;
        }
        n = n + 1;
        k = k - 1;
        if k > 0 {
            proof {
                vstd::arithmetic::power2::lemma_pow2_unfold(k as nat);
            }
            top = top / 2;
        }
    }
    n
}

fn ctz_exec(a: u64, bits: u64) -> (r: u64)
    requires
        bits == 32 || bits == 64,
    ensures
        r == ctz(a as nat, bits as nat),
{
    let mut v: u64 = a;
    let mut k: u64 = bits;
    let mut n: u64 = 0;
    while k > 0
        invariant
            k <= bits <= 64,
            n + k == bits,
            ctz(a as nat, bits as nat) == n + ctz(v as nat, k as nat),
        decreases k,
    {
        if v % 2 == 1 {
            return n;
        }
        v = v / 2;
        n = n + 1;
        k = k - 1;
    }
    n
}

fn popcnt_exec(a: u64, bits: u64) -> (r: u64)
    requires
        bits == 32 || bits == 64,
    ensures
        r == popcnt(a as nat, bits as nat),
{
    let mut v: u64 = a;
    let mut k: u64 = bits;
    let mut n: u64 = 0;
    while k > 0
        invariant
            k <= bits <= 64,
            n <= bits - k,
            popcnt(a as nat, bits as nat) == n + popcnt(v as nat, k as nat),
        decreases k,
    {
        n = n + v % 2;
        v = v / 2;
        k = k - 1;
    }
    n
}

fn i32_binop_exec(i: &Instruction, a: u32, b: u32) -> (r: Option<Option<Dynamic>>)
    ensures
        r == i32_binop(*i, a, b),
{
    let t = Dynamic(1);
    let f = Dynamic(0);
    proof {
        assert((a as u64) * (b as u64) < 0x1_0000_0000_0000_0000) by (nonlinear_arith)
            requires
                a < 0x1_0000_0000,
                b < 0x1_0000_0000,
        ;
    }
    match i {
        Instruction::I32Equals => Some(Some(if a == b { t } else { f })),
        Instruction::I32NotEquals => Some(Some(if a != b { t } else { f })),
        Instruction::I32LessThanSigned => Some(Some(if (a as i32) < (b as i32) { t } else { f })),
        Instruction::I32LessThanUnsigned => Some(Some(if a < b { t } else { f })),
        Instruction::I32GreaterThanSigned => Some(Some(if (a as i32) > (b as i32) { t } else { f })),
        Instruction::I32GreaterThanUnsigned => Some(Some(if a > b { t } else { f })),
        Instruction::I32LessOrEqualToSigned => Some(Some(if (a as i32) <= (b as i32) { t } else { f })),
        Instruction::I32LessOrEqualToUnsigned => Some(Some(if a <= b { t } else { f })),
        Instruction::I32GreaterOrEqualToSigned => Some(Some(if (a as i32) >= (b as i32) { t } else { f })),
        Instruction::I32GreaterOrEqualToUnsigned => Some(Some(if a >= b { t } else { f })),
        Instruction::I32Add => Some(Some(Dynamic((a as u64 + b as u64) % 0x1_0000_0000))),
        Instruction::I32Sub => Some(Some(Dynamic((a as u64 + 0x1_0000_0000 - b as u64) % 0x1_0000_0000))),
        Instruction::I32Mul => Some(Some(Dynamic((a as u64 * b as u64) % 0x1_0000_0000))),
        Instruction::I32DivUnsigned => if b == 0 { Some(None) } else { Some(Some(Dynamic((a / b) as u64))) },
        Instruction::I32RemainderUnsigned => if b == 0 { Some(None) } else { Some(Some(Dynamic((a % b) as u64))) },
        Instruction::I32DivSigned => if b == 0 {
            Some(None)
        } else {
            match sdiv32(a, b) {
                Some(q) => Some(Some(Dynamic(q))),
                None => Some(None),
            }
        },
        Instruction::I32RemainderSigned => if b == 0 { Some(None) } else { Some(Some(Dynamic(srem32(a, b)))) },
        Instruction::I32LogicalAnd => Some(Some(Dynamic((a & b) as u64))),
        Instruction::I32LogicalOr => Some(Some(Dynamic((a | b) as u64))),
        Instruction::I32LogicalXor => Some(Some(Dynamic((a ^ b) as u64))),
        Instruction::I32ShiftLeft => Some(Some(Dynamic((a << (b % 32)) as u64))),
        Instruction::I32ShiftRightUnsigned => Some(Some(Dynamic((a >> (b % 32)) as u64))),
        Instruction::I32ShiftRightSigned => Some(Some(Dynamic((((a as i32) >> (b % 32)) as u32) as u64))),
        Instruction::I32RotateLeft => Some(Some(Dynamic(rotl32_exec(a, b % 32) as u64))),
        Instruction::I32RotateRight => Some(Some(Dynamic(rotl32_exec(a, (32 - b % 32) % 32) as u64))),
        _ => None,
    }
}

fn rotl32_exec(a: u32, k: u32) -> (r: u32)
    requires
        k < 32,
    ensures
        r == rotl32(a, k),
{
    if k == 0 {
        a
    } else {
        (a << k) | (a >> (32 - k))
    }
}

fn rotl64_exec(a: u64, k: u64) -> (r: u64)
    requires
        k < 64,
    ensures
        r == rotl64(a, k),
{
    if k == 0 {
        a
    } else {
        (a << k) | (a >> (64 - k))
    }
}

fn unop_exec(i: &Instruction, a: Dynamic) -> (r: Option<Dynamic>)
    ensures
        r == unop(*i, a),
{
    let lo = low32_exec(a);
    proof {
        lemma2_to64();
        lemma2_to64_rest();
    }
    match i {
        Instruction::I32WrapI64 | Instruction::I64ExtendI32Unsigned | Instruction::I32ReinterpretAsF32
        | Instruction::F32ReinterpretAsI32 => Some(Dynamic(lo as u64)),
        Instruction::I64ReinterpretAsF64 | Instruction::F64ReinterpretAsI64 => Some(a),
        Instruction::I64ExtendI32Signed => Some(Dynamic(((lo as i32) as i64) as u64)),
        Instruction::I32Extend8Signed => Some(Dynamic((((lo as u8) as i8) as i32 as u32) as u64)),
        Instruction::I32Extend16Signed => Some(Dynamic((((lo as u16) as i16) as i32 as u32) as u64)),
        Instruction::I64Extend8Signed => Some(Dynamic(((a.0 as u8) as i8) as i64 as u64)),
        Instruction::I64Extend16Signed => Some(Dynamic(((a.0 as u16) as i16) as i64 as u64)),
        Instruction::I64Extend32Signed => Some(Dynamic(((a.0 as u32) as i32) as i64 as u64)),
        Instruction::I32CountLeadingZeroBits => Some(Dynamic(clz_exec(lo as u64, 32))),
        Instruction::I32CountTrailingZeroBits => Some(Dynamic(ctz_exec(lo as u64, 32))),
        Instruction::I32CountNonZeroBits => Some(Dynamic(popcnt_exec(lo as u64, 32))),
        Instruction::I64CountLeadingZeroBits => Some(Dynamic(clz_exec(a.0, 64))),
        Instruction::I64CountTrailingZeroBits => Some(Dynamic(ctz_exec(a.0, 64))),
        Instruction::I64CountNonZeroBits => Some(Dynamic(popcnt_exec(a.0, 64))),
        _ => None,
    }
}

fn i64_binop_exec(i: &Instruction, a: u64, b: u64) -> (r: Option<Option<Dynamic>>)
    ensures
        r == i64_binop(*i, a, b),
{
    let t = Dynamic(1);
    let f = Dynamic(0);
    proof {
        assert((a as u128) * (b as u128) < 0x1_0000_0000_0000_0000_0000_0000_0000_0000) by (nonlinear_arith)
            requires
                a < 0x1_0000_0000_0000_0000,
                b < 0x1_0000_0000_0000_0000,
        ;
    }
    match i {
        Instruction::I64Equals => Some(Some(if a == b { t } else { f })),
        Instruction::I64NotEquals => Some(Some(if a != b { t } else { f })),
        Instruction::I64LessThanSigned => Some(Some(if (a as i64) < (b as i64) { t } else { f })),
        Instruction::I64LessThanUnsigned => Some(Some(if a < b { t } else { f })),
        Instruction::I64GreaterThanSigned => Some(Some(if (a as i64) > (b as i64) { t } else { f })),
        Instruction::I64GreaterThanUnsigned => Some(Some(if a > b { t } else { f })),
        Instruction::I64LessOrEqualToSigned => Some(Some(if (a as i64) <= (b as i64) { t } else { f })),
        Instruction::I64LessOrEqualToUnsigned => Some(Some(if a <= b { t } else { f })),
        Instruction::I64GreaterOrEqualToSigned => Some(Some(if (a as i64) >= (b as i64) { t } else { f })),
        Instruction::I64GreaterOrEqualToUnsigned => Some(Some(if a >= b { t } else { f })),
        Instruction::I64Add => Some(Some(Dynamic(((a as u128 + b as u128) % 0x1_0000_0000_0000_0000) as u64))),
        Instruction::I64Sub => Some(Some(Dynamic(((a as u128 + 0x1_0000_0000_0000_0000 - b as u128) % 0x1_0000_0000_0000_0000) as u64))),
        Instruction::I64Mul => Some(Some(Dynamic(((a as u128 * b as u128) % 0x1_0000_0000_0000_0000) as u64))),
        Instruction::I64DivUnsigned => if b == 0 { Some(None) } else { Some(Some(Dynamic(a / b))) },
        Instruction::I64RemainderUnsigned => if b == 0 { Some(None) } else { Some(Some(Dynamic(a % b))) },
        Instruction::I64DivSigned => if b == 0 {
            Some(None)
        } else {
            match sdiv64(a, b) {
                Some(q) => Some(Some(Dynamic(q))),
                None => Some(None),
            }
        },
        Instruction::I64RemainderSigned => if b == 0 { Some(None) } else { Some(Some(Dynamic(srem64(a, b)))) },
        Instruction::I64LogicalAnd => Some(Some(Dynamic(a & b))),
        Instruction::I64LogicalOr => Some(Some(Dynamic(a | b))),
        Instruction::I64LogicalXor => Some(Some(Dynamic(a ^ b))),
        Instruction::I64ShiftLeft => Some(Some(Dynamic(a << (b % 64)))),
        Instruction::I64ShiftRightUnsigned => Some(Some(Dynamic(a >> (b % 64)))),
        Instruction::I64ShiftRightSigned => Some(Some(Dynamic(((a as i64) >> (b % 64)) as u64))),
        Instruction::I64RotateLeft => Some(Some(Dynamic(rotl64_exec(a, b % 64)))),
        Instruction::I64RotateRight => Some(Some(Dynamic(rotl64_exec(a, (64 - b % 64) % 64)))),
        _ => None,
    }
}

fn low32_exec(d: Dynamic) -> (r: u32)
    ensures
        r == low32(d),
{
    (d.0 % 0x1_0000_0000) as u32
}

/// The number of locals that `l` declares, when it fits in a `usize` together with `extra` more.
fn local_total(l: &Vec<(u32, ValType)>, extra: usize) -> (r: Option<usize>)
    ensures
        extra + local_count(l@) <= usize::MAX ==> r == Some((extra + local_count(l@)) as usize),
        extra + local_count(l@) > usize::MAX ==> r is None,
{
    let mut total: usize = extra;
    let mut g: usize = 0;
    while g < l.len()
        invariant
            g <= l@.len(),
            total == extra + local_count(l@.subrange(0, g as int)),
        decreases l@.len() - g,
    {
        proof {
            assert(l@.subrange(0, g + 1).drop_last() =~= l@.subrange(0, g as int));
            lemma_local_count_prefix(l@, (g + 1) as nat);
        }
        let (count, _) = l[g];
        if total > usize::MAX - (count as usize) {
            proof {
                lemma_local_count_prefix(l@, (g + 1) as nat);
            }
            return None;
        }
        total = total + count as usize;
        g = g + 1;
    }
    assert(l@.subrange(0, l@.len() as int) =~= l@);
    Some(total)
}

impl<'a> Wasm<'a> {
    /// The code of function `idx`: imported functions come first and have none.
    pub fn get_code(&self, idx: FuncIdx) -> (r: Option<&crate::section::Code>)
        ensures
            has_code(self@, idx) <==> r is Some,
            r is Some ==> r->Some_0@ == code_of(self@, idx),
    {
        let n = self.imports.len();
        if idx.0 >= n && idx.0 - n < self.code.len() {
            Some(&self.code[idx.0 - n])
        } else {
            None
        }
    }

    /// The import that function `idx` stands for, if it is imported.
    pub fn get_import(&self, idx: FuncIdx) -> (r: Option<&crate::section::Import<'a>>)
        ensures
            (idx.0 < self@.imports.len()) <==> r is Some,
            r is Some ==> r->Some_0@ == self@.imports[idx.0 as int],
    {
        if idx.0 < self.imports.len() {
            Some(&self.imports[idx.0])
        } else {
            None
        }
    }

    /// The number of parameters of function `idx`, when its type can be found.
    fn param_count_exec(&self, idx: FuncIdx) -> (r: Option<usize>)
        ensures
            match param_count(self@, idx) {
                Some(n) => r is Some && r->Some_0 == n,
                None => r is None,
            },
    {
        let n = self.imports.len();
        if idx.0 < n || idx.0 - n >= self.functions.len() {
            return None;
        }
        let t = self.functions[idx.0 - n].0;
        if t.0 >= self.types.len() {
            return None;
        }
        Some(self.types[t.0].lhs.len())
    }
}

/// Runs the instruction `ins` of frame `pc`, whose function has the body `body`.
fn exec_instr<'a>(
    wasm: &'a Wasm<'a>,
    body: &Vec<Instruction>,
    pc: &mut ProgramCounter,
    stack: &mut Vec<Dynamic>,
    ins: &Instruction,
) -> (r: Result<Outcome<'a>, ExecErrorKind>)
    ensures
        top_agrees(
            outcome_view(r),
            final(pc)@,
            final(stack)@,
            spec_instr_step(wasm@, instrs_view(body@), old(pc)@, old(stack)@, instr_view(*ins)),
        ),
        final(pc).func == old(pc).func,
        r matches Ok(Outcome::Call(c)) ==> has_code(wasm@, c.func),
{
    match ins {
        Instruction::Block { .. } | Instruction::Loop { .. } => {
            pc.idx.push(0);
            settle_exec(body, &mut pc.idx);
            Ok(Outcome::Done(ProcessAction::Continue))
        },
        Instruction::If { .. } => {
            let c = match stack.pop() {
                Some(c) => c,
                None => return Err(ExecErrorKind::Trap),
            };
            if low32_exec(c) != 0 {
                pc.idx.push(0);
                settle_exec(body, &mut pc.idx);
            } else {
                advance_exec(body, &mut pc.idx);
            }
            Ok(Outcome::Done(ProcessAction::Continue))
        },
        Instruction::IfElse { .. } => {
            let c = match stack.pop() {
                Some(c) => c,
                None => return Err(ExecErrorKind::Trap),
            };
            pc.idx.push(if low32_exec(c) != 0 { 0 } else { 1 });
            pc.idx.push(0);
            settle_exec(body, &mut pc.idx);
            Ok(Outcome::Done(ProcessAction::Continue))
        },
        Instruction::BranchTable { labels, index } => {
            let c = match stack.pop() {
                Some(c) => c,
                None => return Err(ExecErrorKind::Trap),
            };
            let i = low32_exec(c) as usize;
            let target = if i < labels.len() { labels[i] } else { *index };
            exec_branch(body, pc, target)
        },
        Instruction::SelectVal { .. } | Instruction::Select => exec_select(body, pc, stack),
        Instruction::Nop => {
            advance_exec(body, &mut pc.idx);
            Ok(Outcome::Done(ProcessAction::Continue))
        },
        Instruction::Unreachable => Err(ExecErrorKind::Trap),
        Instruction::Branch { index } => exec_branch(body, pc, *index),
        Instruction::BranchIf { index } => {
            let c = match stack.pop() {
                Some(c) => c,
                None => return Err(ExecErrorKind::Trap),
            };
            if low32_exec(c) != 0 {
                exec_branch(body, pc, *index)
            } else {
                advance_exec(body, &mut pc.idx);
                Ok(Outcome::Done(ProcessAction::Continue))
            }
        },
        Instruction::Return => Ok(Outcome::Return),
        Instruction::Call { function } => exec_call(wasm, body, pc, stack, *function),
        Instruction::Drop => {
            match stack.pop() {
                Some(_) => {},
                None => return Err(ExecErrorKind::Trap),
            }
            advance_exec(body, &mut pc.idx);
            Ok(Outcome::Done(ProcessAction::Continue))
        },
        Instruction::LocalGet(x) => {
            if x.0 >= pc.locals.len() {
                return Err(ExecErrorKind::Trap);
            }
            stack.push(pc.locals[x.0]);
            advance_exec(body, &mut pc.idx);
            Ok(Outcome::Done(ProcessAction::Continue))
        },
        Instruction::LocalSet(x) => {
            if x.0 >= pc.locals.len() {
                return Err(ExecErrorKind::Trap);
            }
            let v = match stack.pop() {
                Some(v) => v,
                None => return Err(ExecErrorKind::Trap),
            };
            pc.locals.set(x.0, v);
            advance_exec(body, &mut pc.idx);
            Ok(Outcome::Done(ProcessAction::Continue))
        },
        Instruction::LocalTee(x) => {
            if x.0 >= pc.locals.len() || stack.len() == 0 {
                return Err(ExecErrorKind::Trap);
            }
            let v = stack[stack.len() - 1];
            pc.locals.set(x.0, v);
            advance_exec(body, &mut pc.idx);
            Ok(Outcome::Done(ProcessAction::Continue))
        },
        Instruction::I32Const(v) => {
            stack.push(Dynamic((*v as u32) as u64));
            advance_exec(body, &mut pc.idx);
            Ok(Outcome::Done(ProcessAction::Continue))
        },
        Instruction::I64Const(v) => {
            stack.push(Dynamic(*v as u64));
            advance_exec(body, &mut pc.idx);
            Ok(Outcome::Done(ProcessAction::Continue))
        },
        Instruction::F32Const(v) => {
            stack.push(Dynamic(*v as u64));
            advance_exec(body, &mut pc.idx);
            Ok(Outcome::Done(ProcessAction::Continue))
        },
        Instruction::F64Const(v) => {
            stack.push(Dynamic(*v));
            advance_exec(body, &mut pc.idx);
            Ok(Outcome::Done(ProcessAction::Continue))
        },
        Instruction::I32EqualZero => {
            let a = match stack.pop() {
                Some(a) => a,
                None => return Err(ExecErrorKind::Trap),
            };
            stack.push(if low32_exec(a) == 0 { Dynamic(1) } else { Dynamic(0) });
            advance_exec(body, &mut pc.idx);
            Ok(Outcome::Done(ProcessAction::Continue))
        },
        Instruction::I64EqualZero => {
            let a = match stack.pop() {
                Some(a) => a,
                None => return Err(ExecErrorKind::Trap),
            };
            stack.push(if a.0 == 0 { Dynamic(1) } else { Dynamic(0) });
            advance_exec(body, &mut pc.idx);
            Ok(Outcome::Done(ProcessAction::Continue))
        },
        _ => {
            if unop_exec(ins, Dynamic(0)).is_some() {
                let a = match stack.pop() {
                    Some(a) => a,
                    None => return Err(ExecErrorKind::Trap),
                };
                let v = unop_exec(ins, a).unwrap();
                stack.push(v);
                advance_exec(body, &mut pc.idx);
                Ok(Outcome::Done(ProcessAction::Continue))
            } else {
                exec_binop(body, pc, stack, ins)
            }
        },
    }
}

proof fn lemma_pop_levels_len(body: Seq<InstrView>, path: Seq<usize>, n: nat)
    ensures
        pop_levels(body, path, n) is Some ==> n < path.len() || n == 0,
    decreases n,
{
    if n > 0 {
        match pop_level(body, path) {
            Some(p) => {
                lemma_pop_levels_len(body, p, (n - 1) as nat);
            },
            None => {},
        }
    }
}

fn exec_branch<'a>(body: &Vec<Instruction>, pc: &mut ProgramCounter, k: LabelIdx) -> (r: Result<Outcome<'a>, ExecErrorKind>)
    ensures
        forall|stack: Seq<Dynamic>| top_agrees(
            outcome_view(r),
            final(pc)@,
            stack,
            spec_branch(instrs_view(body@), old(pc)@, stack, k.0 as nat),
        ),
        final(pc).func == old(pc).func,
        final(pc).locals == old(pc).locals,
        !(r matches Ok(Outcome::Call(_))),
{
    let mut target = Vec::new();
    let mut i: usize = 0;
    let n = pc.idx.len();
    while i < n
        invariant
            n == pc.idx@.len(),
            i <= n,
            target@ == pc.idx@.subrange(0, i as int),
        decreases n - i,
    {
        target.push(pc.idx[i]);
        i = i + 1;
    }
    assert(target@ =~= pc.idx@);
    if k.0 == usize::MAX {
        proof {
            lemma_pop_levels_len(instrs_view(body@), pc.idx@, k.0 as nat + 1);
            lemma_pop_levels_len(instrs_view(body@), pc.idx@, k.0 as nat);
        }
        return Err(ExecErrorKind::Trap);
    }
    let levels = k.0 + 1;
    if pop_levels_exec(body, &mut target, levels) {
        let is_loop = match instr_at_exec(body, &target) {
            Some(Instruction::Loop { .. }) => true,
            _ => false,
        };
        if is_loop {
            target.push(0);
            settle_exec(body, &mut target);
        } else {
            advance_exec(body, &mut target);
        }
        pc.idx = target;
        Ok(Outcome::Done(ProcessAction::Continue))
    } else {
        let mut probe = Vec::new();
        let mut j: usize = 0;
        while j < n
            invariant
                n == pc.idx@.len(),
                j <= n,
                probe@ == pc.idx@.subrange(0, j as int),
            decreases n - j,
        {
            probe.push(pc.idx[j]);
            j = j + 1;
        }
        assert(probe@ =~= pc.idx@);
        if pop_levels_exec(body, &mut probe, k.0) {
            Ok(Outcome::Return)
        } else {
            Err(ExecErrorKind::Trap)
        }
    }
}

fn exec_select<'a>(body: &Vec<Instruction>, pc: &mut ProgramCounter, stack: &mut Vec<Dynamic>) -> (r: Result<Outcome<'a>, ExecErrorKind>)
    ensures
        top_agrees(
            outcome_view(r),
            final(pc)@,
            final(stack)@,
            spec_select(instrs_view(body@), old(pc)@, old(stack)@),
        ),
        final(pc).func == old(pc).func,
        !(r matches Ok(Outcome::Call(_))),
{
    if stack.len() < 3 {
        return Err(ExecErrorKind::Trap);
    }
    let ghost s0 = stack@;
    let c = stack.pop().unwrap();
    let b = stack.pop().unwrap();
    let a = stack.pop().unwrap();
    assert(stack@ =~= s0.subrange(0, s0.len() - 3));
    assert(c == s0[s0.len() - 1] && b == s0[s0.len() - 2] && a == s0[s0.len() - 3]);
    stack.push(if low32_exec(c) != 0 { a } else { b });
    advance_exec(body, &mut pc.idx);
    Ok(Outcome::Done(ProcessAction::Continue))
}

fn exec_binop<'a>(body: &Vec<Instruction>, pc: &mut ProgramCounter, stack: &mut Vec<Dynamic>, ins: &Instruction) -> (r: Result<Outcome<'a>, ExecErrorKind>)
    ensures
        top_agrees(
            outcome_view(r),
            final(pc)@,
            final(stack)@,
            spec_binop(instrs_view(body@), old(pc)@, old(stack)@, *ins),
        ),
        final(pc).func == old(pc).func,
        !(r matches Ok(Outcome::Call(_))),
{
    if stack.len() < 2 {
        return Err(ExecErrorKind::Trap);
    }
    let ghost s0 = stack@;
    let b = stack.pop().unwrap();
    let a = stack.pop().unwrap();
    assert(stack@ =~= s0.subrange(0, s0.len() - 2));
    assert(b == s0[s0.len() - 1] && a == s0[s0.len() - 2]);
    let r = match i32_binop_exec(ins, low32_exec(a), low32_exec(b)) {
        Some(r) => Some(r),
        None => i64_binop_exec(ins, a.0, b.0),
    };
    match r {
        Some(Some(v)) => {
            stack.push(v);
            advance_exec(body, &mut pc.idx);
            Ok(Outcome::Done(ProcessAction::Continue))
        },
        Some(None) => Err(ExecErrorKind::Trap),
        None => Err(ExecErrorKind::Unsupported),
    }
}

fn exec_call<'a>(wasm: &'a Wasm<'a>, body: &Vec<Instruction>, pc: &mut ProgramCounter, stack: &mut Vec<Dynamic>, f: FuncIdx) -> (r: Result<Outcome<'a>, ExecErrorKind>)
    ensures
        top_agrees(
            outcome_view(r),
            final(pc)@,
            final(stack)@,
            spec_call(wasm@, instrs_view(body@), old(pc)@, old(stack)@, f),
        ),
        final(pc).func == old(pc).func,
        r matches Ok(Outcome::Call(c)) ==> has_code(wasm@, c.func),
{
    match wasm.get_import(f) {
        Some(import) => {
            let mut args: Vec<Dynamic> = Vec::new();
            args.append(stack);
            advance_exec(body, &mut pc.idx);
            return Ok(Outcome::Done(ProcessAction::CallExtern { function: import.name.name, args }));
        },
        None => {},
    }
    let code = match wasm.get_code(f) {
        Some(c) => c,
        None => return Err(ExecErrorKind::Trap),
    };
    let n = match wasm.param_count_exec(f) {
        Some(n) => n,
        None => return Err(ExecErrorKind::Trap),
    };
    if stack.len() < n {
        return Err(ExecErrorKind::Trap);
    }
    let total = match local_total(&code.locals, n) {
        Some(t) => t,
        None => return Err(ExecErrorKind::Trap),
    };
    let mut callee = ProgramCounter::new(f, 0, &code.locals);
    let split = stack.len() - n;
    let mut args: Vec<Dynamic> = Vec::new();
    let mut i: usize = split;
    let len = stack.len();
    while i < len
        invariant
            len == stack@.len(),
            split <= i <= len,
            args@ == stack@.subrange(split as int, i as int),
        decreases len - i,
    {
        args.push(stack[i]);
        i = i + 1;
    }
    assert(args@ =~= stack@.subrange(split as int, stack@.len() as int));
    stack.truncate(split);
    args.append(&mut callee.locals);
    callee.locals = args;
    advance_exec(body, &mut pc.idx);
    assert(callee@.locals =~= callee_frame(wasm@, f, old(stack)@.subrange(split as int, old(stack)@.len() as int)).locals);
    assert(callee@ == callee_frame(wasm@, f, old(stack)@.subrange(split as int, old(stack)@.len() as int)));
    assert(stack@ == old(stack)@.subrange(0, old(stack)@.len() - n));
    assert(pc@ == next(instrs_view(body@), old(pc)@));
    assert(has_code(wasm@, f) && param_count(wasm@, f) == Some(n as nat));
    assert(!(old(stack)@.len() < n || n + local_count(code_of(wasm@, f).locals) > usize::MAX));
    Ok(Outcome::Call(callee))
}

fn load_shape_exec(i: &Instruction) -> (r: Option<(MemArg, usize, bool, bool)>)
    ensures
        match load_shape(*i) {
            Some((ma, n, signed, wide)) => r == Some((ma, n as usize, signed, wide)),
            None => r is None,
        },
{
    match i {
        Instruction::Load { numtype, memarg } => match numtype {
            NumType::I32 | NumType::F32 => Some((*memarg, 4, false, false)),
            NumType::I64 | NumType::F64 => Some((*memarg, 8, false, true)),
        },
        Instruction::Load8 { numtype, memarg, signedness } => Some(
            (*memarg, 1, matches!(signedness, Signedness::Signed), matches!(numtype, NumType::I64 | NumType::F64)),
        ),
        Instruction::Load16 { numtype, memarg, signedness } => Some(
            (*memarg, 2, matches!(signedness, Signedness::Signed), matches!(numtype, NumType::I64 | NumType::F64)),
        ),
        Instruction::Load32 { memarg, signedness } => Some((*memarg, 4, matches!(signedness, Signedness::Signed), true)),
        _ => None,
    }
}

fn store_shape_exec(i: &Instruction) -> (r: Option<(MemArg, usize)>)
    ensures
        match store_shape(*i) {
            Some((ma, n)) => r == Some((ma, n as usize)),
            None => r is None,
        },
{
    match i {
        Instruction::Store { numtype, memarg } => match numtype {
            NumType::I32 | NumType::F32 => Some((*memarg, 4)),
            NumType::I64 | NumType::F64 => Some((*memarg, 8)),
        },
        Instruction::Store8 { memarg, .. } => Some((*memarg, 1)),
        Instruction::Store16 { memarg, .. } => Some((*memarg, 2)),
        Instruction::Store32 { memarg, .. } => Some((*memarg, 4)),
        _ => None,
    }
}

proof fn lemma_pow256_small(k: nat)
    requires
        k <= 8,
    ensures
        pow256(k) <= 0x1_0000_0000_0000_0000,
        k > 0 ==> pow256(k) == 256 * pow256((k - 1) as nat),
        pow256(1) == 256,
        pow256(2) == 0x1_0000,
        pow256(4) == 0x1_0000_0000,
        pow256(8) == 0x1_0000_0000_0000_0000,
{
    reveal_with_fuel(pow256, 9);
}

fn load_exec(mem: &Vec<u8>, a: usize, n: usize, signed: bool, wide: bool) -> (r: Dynamic)
    requires
        n == 1 || n == 2 || n == 4 || n == 8,
        a + n <= mem@.len(),
        !wide ==> n <= 4,
    ensures
        r == load_value(mem@, a as int, n as nat, signed, wide),
{
    let mut v: u64 = 0;
    let mut i: usize = n;
    let total = mem.len();
    while i > 0
        invariant
            i <= n <= 8,
            a + n <= mem@.len(),
            total == mem@.len(),
            v == le_value(mem@, a + i, (n - i) as nat),
            v < pow256((n - i) as nat),
        decreases i,
    {
        i = i - 1;
        proof {
            lemma_pow256_small((n - i) as nat);
            assert(v * 256 + mem@[a + i] < pow256((n - i) as nat)) by (nonlinear_arith)
                requires
                    v < pow256((n - 1 - i) as nat),
                    pow256((n - i) as nat) == 256 * pow256((n - 1 - i) as nat),
                    mem@[a + i] < 256,
            ;
        }
        v = mem[a + i] as u64 + 256 * v;
    }
    proof {
        lemma_pow256_small(n as nat);
    }
    let full: u128 = if n == 1 {
        0x100
    } else if n == 2 {
        0x1_0000
    } else if n == 4 {
        0x1_0000_0000
    } else {
        0x1_0000_0000_0000_0000
    };
    if signed && 2 * (v as u128) >= full {
        if wide {
            Dynamic((v as u128 + 0x1_0000_0000_0000_0000 - full) as u64)
        } else {
            Dynamic((v as u128 + 0x1_0000_0000 - full) as u64)
        }
    } else {
        Dynamic(v)
    }
}

fn store_exec(mem: &mut Vec<u8>, a: usize, n: usize, v: Dynamic)
    requires
        n == 1 || n == 2 || n == 4 || n == 8,
        a + n <= old(mem)@.len(),
    ensures
        final(mem)@ == store_bytes(old(mem)@, a as int, n as nat, v),
{
    let mut k: usize = 0;
    let mut p: u64 = 1;
    let total = mem.len();
    proof {
        reveal_with_fuel(pow256, 1);
    }
    while k < n
        invariant
            k <= n <= 8,
            a + n <= mem@.len(),
            total == mem@.len(),
            mem@.len() == old(mem)@.len(),
            k < 8 ==> p == pow256(k as nat),
            forall|j: int| 0 <= j < mem@.len() ==> #[trigger] mem@[j] == if a <= j < a + k {
                ((v.0 as int / pow256((j - a) as nat)) % 256) as u8
            } else {
                old(mem)@[j]
            },
        decreases n - k,
    {
        proof {
            lemma_pow256_small((k + 1) as nat);
            lemma_pow256_small(k as nat);
        }
        mem.set(a + k, ((v.0 / p) % 256) as u8);
        if k + 1 < 8 {
            p = p * 256;
        }
        k = k + 1;
    }
    assert(mem@ =~= store_bytes(old(mem)@, a as int, n as nat, v));
}

/// A running function: its call frames, its operand stack, the values of
/// the module's globals, its linear memory, and the module it runs.
pub struct Process<'a> {
    wasm: &'a Wasm<'a>,
    program_counter: Vec<ProgramCounter>,
    stack: Vec<Dynamic>,
    globals: Vec<Dynamic>,
    memory: Vec<u8>,
}

fn global_init_exec(g: &Global) -> (r: Dynamic)
    ensures
        r == global_init(g@),
{
    proof {
        lemma_instrs_view_index(g.init@);
    }
    if g.init.len() == 1 {
        match &g.init[0] {
            Instruction::I32Const(v) => Dynamic((*v as u32) as u64),
            Instruction::I64Const(v) => Dynamic(*v as u64),
            Instruction::F32Const(v) => Dynamic(*v as u64),
            Instruction::F64Const(v) => Dynamic(*v),
            _ => Dynamic(0),
        }
    } else {
        Dynamic(0)
    }
}

fn initial_memory_exec(wasm: &Wasm) -> (r: Option<Vec<u8>>)
    ensures
        memory_bytes(wasm@) <= usize::MAX ==> r is Some && r->Some_0@ == Seq::new(
            memory_bytes(wasm@) as nat,
            |i: int| 0u8,
        ),
        memory_bytes(wasm@) > usize::MAX ==> r is None,
{
    let pages: usize = if wasm.memories.len() > 0 {
        proof {
            assert(wasm@.memories[0] == wasm.memories@[0]);
        }
        wasm.memories[0].0.min.0 as usize
    } else {
        0
    };
    if pages > usize::MAX / 65536 {
        return None;
    }
    let n = pages * 65536;
    let mut mem: Vec<u8> = Vec::new();
    let mut i: usize = 0;
    while i < n
        invariant
            i <= n,
            mem@ =~= Seq::new(i as nat, |j: int| 0u8),
        decreases n - i,
    {
        mem.push(0);
        i = i + 1;
    }
    Some(mem)
}

fn initial_globals_exec(wasm: &Wasm) -> (r: Vec<Dynamic>)
    ensures
        r@ == initial_globals(wasm@),
{
    let mut r: Vec<Dynamic> = Vec::new();
    let mut i: usize = 0;
    while i < wasm.globals.len()
        invariant
            i <= wasm.globals@.len(),
            wasm@.globals.len() == wasm.globals@.len(),
            r@ =~= initial_globals(wasm@).subrange(0, i as int),
        decreases wasm.globals@.len() - i,
    {
        proof {
            assert(wasm@.globals[i as int] == wasm.globals@[i as int]@);
        }
        r.push(global_init_exec(&wasm.globals[i]));
        i = i + 1;
    }
    r
}

impl<'a> Process<'a> {
    /// The state of this process.
    pub closed spec fn state(&self) -> StateView {
        StateView { frames: views(self.program_counter@), stack: self.stack@, globals: self.globals@, memory: self.memory@ }
    }

    /// The module this process runs.
    pub closed spec fn module(&self) -> ModuleView {
        self.wasm@
    }

    /// Every frame runs a function that has code.
    pub open spec fn wf(&self) -> bool {
        frames_ok(self.module(), self.state().frames)
    }

    /// A process at the first instruction of function `idx`, whose parameters
    /// and declared locals start as zero.
    pub fn new(wasm: &'a Wasm<'a>, idx: FuncIdx) -> (r: Result<Process<'a>, ExecError>)
        requires
            has_code(wasm@, idx),
        ensures
            initial_locals(wasm@, idx) <= usize::MAX && memory_bytes(wasm@) <= usize::MAX ==> r is Ok && {
                &&& r->Ok_0.wf()
                &&& r->Ok_0.module() == wasm@
                &&& r->Ok_0.state().stack == Seq::<Dynamic>::empty()
                &&& r->Ok_0.state().frames == seq![initial_frame(wasm@, idx)]
                &&& r->Ok_0.state().globals == initial_globals(wasm@)
                &&& r->Ok_0.state().memory == Seq::new(memory_bytes(wasm@) as nat, |i: int| 0u8)
            },
            initial_locals(wasm@, idx) > usize::MAX || memory_bytes(wasm@) > usize::MAX ==> r is Err
                && r->Err_0.kind == ExecErrorKind::Trap,
    {
        let code = wasm.get_code(idx).unwrap();
        let params = match wasm.param_count_exec(idx) {
            Some(n) => n,
            None => 0,
        };
        match local_total(&code.locals, params) {
            Some(_) => {},
            None => return Err(ExecError { kind: ExecErrorKind::Trap }),
        }
        let frame = ProgramCounter::new(idx, params, &code.locals);
        let mut program_counter: Vec<ProgramCounter> = Vec::new();
        program_counter.push(frame);
        let globals = initial_globals_exec(wasm);
        let memory = match initial_memory_exec(wasm) {
            Some(mem) => mem,
            None => return Err(ExecError { kind: ExecErrorKind::Trap }),
        };
        let r = Process { wasm, program_counter, stack: Vec::new(), globals, memory };
        assert(r.state().frames =~= seq![frame@]);
        assert(r.state().stack =~= Seq::<Dynamic>::empty());
        assert(r.state().frames[0].func == idx);
        assert(frames_ok(r.module(), r.state().frames));
        Ok(r)
    }

    /// The instruction the innermost frame is at, or `None` at the end of its function.
    pub fn current_instruction(&self) -> (r: Option<&'a Instruction>)
        requires
            self.wf(),
        ensures
            match instr_at(
                body_of(self.module(), self.state().frames.last().func),
                self.state().frames.last().path,
            ) {
                Some(v) => r is Some && instr_view(*r->Some_0) == v,
                None => r is None,
            },
    {
        let wasm = self.wasm;
        let last = self.program_counter.len() - 1;
        proof {
            assert(has_code(self.module(), self.state().frames[last as int].func));
        }
        let code = wasm.get_code(self.program_counter[last].func).unwrap();
        instr_at_exec(&code.expr, &self.program_counter[last].idx)
    }

    /// Pushes a value on the operand stack: how the host hands back results.
    pub fn stack_push(&mut self, val: Dynamic)
        requires
            old(self).wf(),
        ensures
            final(self).wf(),
            final(self).module() == old(self).module(),
            final(self).state().frames == old(self).state().frames,
            final(self).state().stack == old(self).state().stack.push(val),
            final(self).state().globals == old(self).state().globals,
    {
        self.stack.push(val);
    }

    /// Executes one instruction.
    pub fn step(&mut self) -> (r: Result<ProcessAction<'a>, ExecError>)
        requires
            old(self).wf(),
        ensures
            final(self).wf(),
            final(self).module() == old(self).module(),
            match spec_step(old(self).module(), old(self).state()) {
                Ok((a, st)) => r is Ok && r->Ok_0@ == a && final(self).state() == st,
                Err(k) => r is Err && r->Err_0.kind == k,
            },
    {
        let wasm = self.wasm;
        let last = self.program_counter.len() - 1;
        proof {
            assert(has_code(self.module(), self.state().frames[last as int].func));
        }
        let ghost st = self.state();
        let code = wasm.get_code(self.program_counter[last].func).unwrap();
        let body = &code.expr;
        match instr_at_exec(body, &self.program_counter[last].idx) {
            Some(Instruction::GlobalGet(x)) => {
                if x.0 >= self.globals.len() {
                    return Err(ExecError { kind: ExecErrorKind::Trap });
                }
                let v = self.globals[x.0];
                self.stack.push(v);
                self.advance_top(body);
                Ok(ProcessAction::Continue)
            },
            Some(Instruction::GlobalSet(x)) => {
                if x.0 >= self.globals.len() || self.stack.len() == 0 {
                    return Err(ExecError { kind: ExecErrorKind::Trap });
                }
                let v = self.stack.pop().unwrap();
                self.globals.set(x.0, v);
                self.advance_top(body);
                Ok(ProcessAction::Continue)
            },
            Some(ins) => {
                match load_shape_exec(ins) {
                    Some((ma, n, signed, wide)) => return self.step_load(body, ma, n, signed, wide),
                    None => {},
                }
                match store_shape_exec(ins) {
                    Some((ma, n)) => return self.step_store(body, ma, n),
                    None => {},
                }
                if let Instruction::MemoryGrow = ins {
                    return self.step_grow(body);
                }
                if let Instruction::MemorySize = ins {
                    let pages = self.memory.len() / 65536;
                    self.stack.push(Dynamic(pages as u64));
                    self.advance_top(body);
                    return Ok(ProcessAction::Continue);
                }
                self.step_frame()
            },
            None => self.step_frame(),
        }
    }

    fn step_grow(&mut self, body: &Vec<Instruction>) -> (r: Result<ProcessAction<'a>, ExecError>)
        requires
            old(self).wf(),
            instrs_view(body@) == body_of(old(self).module(), old(self).state().frames.last().func),
        ensures
            final(self).wf(),
            final(self).module() == old(self).module(),
            ({
                let st = old(self).state();
                let last = st.frames.len() - 1;
                let frames = st.frames.update(last, next(instrs_view(body@), st.frames[last]));
                let m = old(self).module();
                if st.stack.len() == 0 {
                    r is Err && r->Err_0.kind == ExecErrorKind::Trap
                } else {
                    let pages = st.memory.len() / 65536;
                    let n = low32(st.stack.last());
                    r is Ok && r->Ok_0@ == ActionView::Continue && if pages + n <= max_pages(m) && (pages + n) * 65536 <= usize::MAX {
                        final(self).state() == (StateView {
                            frames,
                            stack: st.stack.drop_last().push(Dynamic(pages as u64)),
                            memory: st.memory + Seq::new((n * 65536) as nat, |j: int| 0u8),
                            ..st
                        })
                    } else {
                        final(self).state() == (StateView {
                            frames,
                            stack: st.stack.drop_last().push(Dynamic(0xFFFF_FFFF)),
                            ..st
                        })
                    }
                }
            }),
    {
        let wasm = self.wasm;
        let arg = match self.stack.pop() {
            Some(a) => a,
            None => return Err(ExecError { kind: ExecErrorKind::Trap }),
        };
        let n = low32_exec(arg) as usize;
        let pages = self.memory.len() / 65536;
        let max: usize = if wasm.memories.len() > 0 {
            proof {
                assert(wasm@.memories[0] == wasm.memories@[0]);
            }
            match wasm.memories[0].0.max {
                Some(p) => if p.0 < 65536 { p.0 as usize } else { 65536 },
                None => 65536,
            }
        } else {
            0
        };
        if n > max || pages > max - n || pages + n > usize::MAX / 65536 {
            self.stack.push(Dynamic(0xFFFF_FFFF));
            self.advance_top(body);
            return Ok(ProcessAction::Continue);
        }
        let ghost old_mem = self.memory@;
        let extra = n * 65536;
        let mut i: usize = 0;
        while i < extra
            invariant
                i <= extra,
                extra == n * 65536,
                self.memory@ =~= old_mem + Seq::new(i as nat, |j: int| 0u8),
                self.program_counter@ == old(self).program_counter@,
                self.stack@ == old(self).stack@.drop_last(),
                self.globals@ == old(self).globals@,
                self.wasm == old(self).wasm,
            decreases extra - i,
        {
            self.memory.push(0);
            i = i + 1;
        }
        self.stack.push(Dynamic(pages as u64));
        self.advance_top(body);
        Ok(ProcessAction::Continue)
    }

    fn step_load(&mut self, body: &Vec<Instruction>, ma: MemArg, n: usize, signed: bool, wide: bool) -> (r: Result<ProcessAction<'a>, ExecError>)
        requires
            old(self).wf(),
            instrs_view(body@) == body_of(old(self).module(), old(self).state().frames.last().func),
            n == 1 || n == 2 || n == 4 || n == 8,
            !wide ==> n <= 4,
        ensures
            final(self).wf(),
            final(self).module() == old(self).module(),
            ({
                let st = old(self).state();
                let last = st.frames.len() - 1;
                let frames = st.frames.update(last, next(instrs_view(body@), st.frames[last]));
                if st.stack.len() == 0 {
                    r is Err && r->Err_0.kind == ExecErrorKind::Trap
                } else {
                    let a = low32(st.stack.last()) + ma.offset;
                    if a + n > st.memory.len() {
                        r is Err && r->Err_0.kind == ExecErrorKind::Trap
                    } else {
                        r is Ok && r->Ok_0@ == ActionView::Continue && final(self).state() == (StateView {
                            frames,
                            stack: st.stack.drop_last().push(load_value(st.memory, a, n as nat, signed, wide)),
                            ..st
                        })
                    }
                }
            }),
    {
        let base = match self.stack.pop() {
            Some(b) => b,
            None => return Err(ExecError { kind: ExecErrorKind::Trap }),
        };
        let a = low32_exec(base) as u64 + ma.offset as u64;
        if a + n as u64 > self.memory.len() as u64 {
            self.stack.push(base);
            return Err(ExecError { kind: ExecErrorKind::Trap });
        }
        let v = load_exec(&self.memory, a as usize, n, signed, wide);
        self.stack.push(v);
        self.advance_top(body);
        Ok(ProcessAction::Continue)
    }

    fn step_store(&mut self, body: &Vec<Instruction>, ma: MemArg, n: usize) -> (r: Result<ProcessAction<'a>, ExecError>)
        requires
            old(self).wf(),
            instrs_view(body@) == body_of(old(self).module(), old(self).state().frames.last().func),
            n == 1 || n == 2 || n == 4 || n == 8,
        ensures
            final(self).wf(),
            final(self).module() == old(self).module(),
            ({
                let st = old(self).state();
                let last = st.frames.len() - 1;
                let frames = st.frames.update(last, next(instrs_view(body@), st.frames[last]));
                if st.stack.len() < 2 {
                    r is Err && r->Err_0.kind == ExecErrorKind::Trap
                } else {
                    let a = low32(st.stack[st.stack.len() - 2]) + ma.offset;
                    if a + n > st.memory.len() {
                        r is Err && r->Err_0.kind == ExecErrorKind::Trap
                    } else {
                        r is Ok && r->Ok_0@ == ActionView::Continue && final(self).state() == (StateView {
                            frames,
                            stack: st.stack.subrange(0, st.stack.len() - 2),
                            memory: store_bytes(st.memory, a, n as nat, st.stack.last()),
                            ..st
                        })
                    }
                }
            }),
    {
        let len = self.stack.len();
        if len < 2 {
            return Err(ExecError { kind: ExecErrorKind::Trap });
        }
        let v = self.stack[len - 1];
        let base = self.stack[len - 2];
        let a = low32_exec(base) as u64 + ma.offset as u64;
        if a + n as u64 > self.memory.len() as u64 {
            return Err(ExecError { kind: ExecErrorKind::Trap });
        }
        store_exec(&mut self.memory, a as usize, n, v);
        self.stack.truncate(len - 2);
        self.advance_top(body);
        Ok(ProcessAction::Continue)
    }

    /// Moves the innermost frame on to its next instruction.
    fn advance_top(&mut self, body: &Vec<Instruction>)
        requires
            old(self).wf(),
            instrs_view(body@) == body_of(old(self).module(), old(self).state().frames.last().func),
        ensures
            final(self).wf(),
            final(self).module() == old(self).module(),
            final(self).state() == (StateView {
                frames: old(self).state().frames.update(
                    old(self).state().frames.len() - 1,
                    next(instrs_view(body@), old(self).state().frames.last()),
                ),
                ..old(self).state()
            }),
    {
        let ghost st = self.state();
        let last = self.program_counter.len() - 1;
        let mut pc = self.program_counter.pop().unwrap();
        assert(st.frames[last as int] == pc@);
        advance_exec(body, &mut pc.idx);
        self.program_counter.push(pc);
        assert(views(self.program_counter@) =~= st.frames.update(last as int, pc@));
        assert(has_code(self.module(), self.state().frames[last as int].func));
    }

    /// Executes one instruction that leaves the globals alone.
    fn step_frame(&mut self) -> (r: Result<ProcessAction<'a>, ExecError>)
        requires
            old(self).wf(),
        ensures
            final(self).wf(),
            final(self).module() == old(self).module(),
            match spec_frame_step(old(self).module(), old(self).state()) {
                Ok((a, st)) => r is Ok && r->Ok_0@ == a && final(self).state() == st,
                Err(k) => r is Err && r->Err_0.kind == k,
            },
    {
        let wasm = self.wasm;
        let last = self.program_counter.len() - 1;
        proof {
            assert(has_code(self.module(), self.state().frames[last as int].func));
        }
        let ghost st = self.state();
        let ghost m = self.module();
        let mut pc = self.program_counter.pop().unwrap();
        assert(st.frames[last as int] == pc@);
        let code = wasm.get_code(pc.func).unwrap();
        let body = &code.expr;
        assert(instrs_view(body@) == body_of(m, pc.func));
        let cur = instr_at_exec(body, &pc.idx);
        let outcome = match cur {
            None => Ok(Outcome::Return),
            Some(ins) => exec_instr(wasm, body, &mut pc, &mut self.stack, ins),
        };
        assert(top_agrees(outcome_view(outcome), pc@, self.stack@, spec_top(m, st.frames[last as int], st.stack)));
        self.program_counter.push(pc);
        assert(views(self.program_counter@) =~= st.frames.update(last as int, pc@));
        match outcome {
            Ok(Outcome::Done(a)) => Ok(a),
            Ok(Outcome::Return) => {
                assert(views(self.program_counter@) =~= st.frames);
                if self.program_counter.len() == 1 {
                    let ghost s1 = self.stack@;
                    let mut rest: Vec<Dynamic> = Vec::new();
                    rest.append(&mut self.stack);
                    assert(rest@ =~= s1);
                    Ok(ProcessAction::Finished(rest))
                } else {
                    let _ = self.program_counter.pop();
                    assert(views(self.program_counter@) =~= st.frames.drop_last());
                    Ok(ProcessAction::Continue)
                }
            },
            Ok(Outcome::Call(callee)) => {
                self.program_counter.push(callee);
                assert(views(self.program_counter@) =~= st.frames.update(last as int, pc@).push(callee@));
                Ok(ProcessAction::Continue)
            },
            Err(kind) => Err(ExecError { kind }),
        }
    }
}

impl<'a> Wasm<'a> {
    /// Starts a process at the exported function called `fn_name`.
    pub fn spawn(&'a self, fn_name: &str) -> (r: Result<Process<'a>, ExecError>)
        ensures
            match spec_find_export(self@.exports, fn_name.spec_bytes()) {
                Some(f) => if has_code(self@, f) {
                    if initial_locals(self@, f) <= usize::MAX && memory_bytes(self@) <= usize::MAX {
                        &&& r is Ok
                        &&& r->Ok_0.wf()
                        &&& r->Ok_0.module() == self@
                        &&& r->Ok_0.state().stack == Seq::<Dynamic>::empty()
                        &&& r->Ok_0.state().frames == seq![initial_frame(self@, f)]
                        &&& r->Ok_0.state().globals == initial_globals(self@)
                        &&& r->Ok_0.state().memory == Seq::new(memory_bytes(self@) as nat, |i: int| 0u8)
                    } else {
                        r is Err && r->Err_0.kind == ExecErrorKind::Trap
                    }
                } else {
                    r is Err && r->Err_0.kind == ExecErrorKind::FunctionNotFound
                },
                None => r is Err && r->Err_0.kind == ExecErrorKind::FunctionNotFound,
            },
    {
        let name = fn_name.as_bytes();
        let ghost exports = self@.exports;
        let mut i: usize = 0;
        assert(exports.subrange(0, exports.len() as int) =~= exports);
        while i < self.exports.len()
            invariant
                i <= exports.len(),
                exports == self@.exports,
                name@ == fn_name.spec_bytes(),
                spec_find_export(exports, name@) == spec_find_export(exports.subrange(i as int, exports.len() as int), name@),
            decreases exports.len() - i,
        {
            let e = &self.exports[i];
            proof {
                assert(exports.subrange(i as int, exports.len() as int).drop_first() =~= exports.subrange(i + 1, exports.len() as int));
                assert(exports[i as int] == e@);
            }
            match e.desc {
                ExportDesc::Function(f) => {
                    if bytes_eq(e.name.as_bytes(), name) {
                        if self.get_code(f).is_none() {
                            return Err(ExecError { kind: ExecErrorKind::FunctionNotFound });
                        }
                        return Process::new(self, f);
                    }
                },
                _ => {},
            }
            i = i + 1;
        }
        Err(ExecError { kind: ExecErrorKind::FunctionNotFound })
    }
}

/// A branch out of as many levels as the function has (its body counting as
/// the outermost) returns from the function.
pub proof fn lemma_branch_out_of_all_levels_returns(m: ModuleView, fr: FrameView, stack: Seq<Dynamic>, k: nat)
    requires
        instr_at(body_of(m, fr.func), fr.path) == Some(InstrView::Leaf(Instruction::Branch { index: LabelIdx(k as usize) })),
        k <= usize::MAX,
        pop_levels(body_of(m, fr.func), fr.path, k) is Some,
        pop_levels(body_of(m, fr.func), fr.path, k + 1) is None,
    ensures
        spec_top(m, fr, stack) == Ok::<(TopOutcome, FrameView, Seq<Dynamic>), ExecErrorKind>((TopOutcome::Return, fr, stack)),
{
}

/// `if` with a zero condition: with an `else` branch it enters that branch;
/// without one it moves on past the `if`.
pub proof fn lemma_if_zero(m: ModuleView, fr: FrameView, stack: Seq<Dynamic>)
    requires
        stack.len() > 0,
        low32(stack.last()) == 0,
    ensures
        instr_at(body_of(m, fr.func), fr.path) matches Some(InstrView::IfElse(_, _, _)) ==> spec_top(m, fr, stack)
            == done(with_path(fr, enter(body_of(m, fr.func), fr.path, Some(1usize))), stack.drop_last()),
        instr_at(body_of(m, fr.func), fr.path) matches Some(InstrView::If(_, _)) ==> spec_top(m, fr, stack)
            == done(next(body_of(m, fr.func), fr), stack.drop_last()),
{
}

/// A host call names an import of the module and hands over the whole
/// operand stack, which is left empty: where the stack holds exactly the
/// arguments of the import's function type, their count is its arity.
pub proof fn lemma_call_extern_names_an_import(m: ModuleView, st: StateView)
    requires
        frames_ok(m, st.frames),
        spec_step(m, st) matches Ok((ActionView::CallExtern(_, _), _)),
    ensures
        ({
            let (a, st2) = spec_step(m, st)->Ok_0;
            let name = a->CallExtern_0;
            let args = a->CallExtern_1;
            &&& args == st.stack
            &&& st2.stack.len() == 0
            &&& exists|i: int| 0 <= i < m.imports.len() && #[trigger] m.imports[i].name == name
        }),
{
    let last = st.frames.len() - 1;
    let fr = st.frames[last];
    let body = body_of(m, fr.func);
    let iv = instr_at(body, fr.path)->Some_0;
    let f = iv->Leaf_0->Call_function;
    assert(m.imports[f.0 as int].name == spec_step(m, st)->Ok_0.0->CallExtern_0);
}

/// How many values an instruction leaves on the operand stack, less the
/// number it takes, when it neither traps nor calls the host.
pub open spec fn stack_delta(m: ModuleView, iv: InstrView) -> int {
    match iv {
        InstrView::Block(_, _) | InstrView::Loop(_, _) => 0,
        InstrView::If(_, _) | InstrView::IfElse(_, _, _) | InstrView::BranchTable(_, _) => -1,
        InstrView::SelectVal(_) => -2,
        InstrView::Leaf(i) => match i {
            Instruction::Nop | Instruction::Branch { .. } | Instruction::Return | Instruction::LocalTee(_)
            | Instruction::I32EqualZero | Instruction::I64EqualZero => 0,
            Instruction::BranchIf { .. } | Instruction::Drop | Instruction::LocalSet(_) | Instruction::GlobalSet(_) => -1,
            Instruction::Select => -2,
            Instruction::LocalGet(_) | Instruction::GlobalGet(_) | Instruction::I32Const(_) | Instruction::I64Const(_)
            | Instruction::F32Const(_) | Instruction::F64Const(_) => 1,
            Instruction::Call { function } => match param_count(m, function) {
                Some(n) => -n,
                None => 0,
            },
            Instruction::MemorySize => 1,
            Instruction::MemoryGrow => 0,
            _ => if unop(i, Dynamic(0)) is Some || load_shape(i) is Some {
                0
            } else if store_shape(i) is Some {
                -2
            } else {
                -1
            },
        },
    }
}

/// The change to the operand stack of the step from `st`.
pub open spec fn step_delta(m: ModuleView, st: StateView) -> int {
    let fr = st.frames.last();
    match instr_at(body_of(m, fr.func), fr.path) {
        None => 0,
        Some(iv) => stack_delta(m, iv),
    }
}

/// A step that neither traps nor calls the host, and does not finish the
/// process, changes the size of the operand stack by the net number of
/// values that its instruction pushes.
pub proof fn lemma_step_stack_delta(m: ModuleView, st: StateView)
    requires
        st.frames.len() >= 1,
        spec_step(m, st) matches Ok((ActionView::Continue, _)),
    ensures
        spec_step(m, st)->Ok_0.1.stack.len() == st.stack.len() + step_delta(m, st),
{
    let last = st.frames.len() - 1;
    let fr = st.frames[last];
    let body = body_of(m, fr.func);
    match instr_at(body, fr.path) {
        None => {},
        Some(iv) => {
            match iv {
                InstrView::Leaf(i) => {
                    match i {
                        Instruction::Call { function } => {},
                        _ => {
                            let sb = spec_binop(body, fr, st.stack, i);
                            assert(sb is Ok ==> sb->Ok_0.2.len() == st.stack.len() - 1);
                        },
                    }
                },
                _ => {},
            }
        },
    }
}

/// The sum of the stack changes of the first `n` steps of a run.
pub open spec fn run_delta(m: ModuleView, states: Seq<StateView>, n: nat) -> int
    decreases n,
{
    if n == 0 || n > states.len() {
        0
    } else {
        run_delta(m, states, (n - 1) as nat) + step_delta(m, states[n - 1])
    }
}

/// Along a run of steps that neither trap, call the host nor finish, the
/// size of the operand stack is its size at the start plus the net pushes
/// of the instructions executed so far.
pub proof fn lemma_run_stack_size(m: ModuleView, states: Seq<StateView>, n: nat)
    requires
        n < states.len(),
        forall|i: int| 0 <= i < states.len() ==> (#[trigger] states[i]).frames.len() >= 1,
        forall|i: int| 0 <= i < states.len() - 1 ==> #[trigger] spec_step(m, states[i]) == Ok::<(ActionView, StateView), ExecErrorKind>(
            (ActionView::Continue, states[i + 1]),
        ),
    ensures
        states[n as int].stack.len() == states[0].stack.len() + run_delta(m, states, n),
    decreases n,
{
    if n > 0 {
        lemma_run_stack_size(m, states, (n - 1) as nat);
        assert(spec_step(m, states[n - 1]) == Ok::<(ActionView, StateView), ExecErrorKind>((ActionView::Continue, states[n as int])));
        lemma_step_stack_delta(m, states[n - 1]);
    }
}

/// Extending a path that points at a container by the index 0 points at the
/// first instruction of that container's body.
pub proof fn lemma_locate_enter(body: Seq<InstrView>, p: Seq<usize>, start: int, bt: crate::types::BlockType, inner: Seq<InstrView>)
    requires
        0 <= start < p.len(),
        locate(body, p, start) is Some,
        p.last() < locate(body, p, start)->Some_0.0.len(),
        locate(body, p, start)->Some_0.0[p.last() as int] == InstrView::Loop(bt, inner)
            || locate(body, p, start)->Some_0.0[p.last() as int] == InstrView::Block(bt, inner)
            || locate(body, p, start)->Some_0.0[p.last() as int] == InstrView::If(bt, inner),
    ensures
        locate(body, p.push(0), start) == Some((inner, 1nat)),
    decreases p.len() - start,
{
    let q = p.push(0);
    assert(q[start] == p[start]);
    if p.len() - start == 1 {
        assert(q.len() - (start + 1) == 1);
    } else {
        match body[p[start] as int] {
            InstrView::Block(_, sub) => {
                lemma_locate_enter(sub, p, start + 1, bt, inner);
            },
            InstrView::Loop(_, sub) => {
                lemma_locate_enter(sub, p, start + 1, bt, inner);
            },
            InstrView::If(_, sub) => {
                lemma_locate_enter(sub, p, start + 1, bt, inner);
            },
            InstrView::IfElse(_, a, b) => {
                assert(q[start + 1] == p[start + 1]);
                lemma_locate_enter(if p[start + 1] == 0 { a } else { b }, p, start + 2, bt, inner);
            },
            _ => {},
        }
    }
}

/// `br 0` inside a loop goes back to the first instruction of the loop's body.
pub proof fn lemma_branch_zero_reenters_loop(m: ModuleView, fr: FrameView, stack: Seq<Dynamic>, p: Seq<usize>, bt: crate::types::BlockType, inner: Seq<InstrView>)
    requires
        instr_at(body_of(m, fr.func), fr.path) == Some(InstrView::Leaf(Instruction::Branch { index: LabelIdx(0) })),
        pop_level(body_of(m, fr.func), fr.path) == Some(p),
        instr_at(body_of(m, fr.func), p) == Some(InstrView::Loop(bt, inner)),
        inner.len() > 0,
    ensures
        spec_top(m, fr, stack) == done(with_path(fr, p.push(0)), stack),
        instr_at(body_of(m, fr.func), p.push(0)) == Some(inner[0]),
{
    let body = body_of(m, fr.func);
    assert(pop_levels(body, fr.path, 1) == Some(p)) by {
        reveal_with_fuel(pop_levels, 2);
    }
    assert(p.len() >= 1);
    lemma_locate_enter(body, p, 0, bt, inner);
    assert(p.push(0).last() == 0);
    assert(settle(body, p.push(0)) == p.push(0));
}

} // verus!
