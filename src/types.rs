use vstd::prelude::*;

use crate::error::{agrees, err_matches, spec_u8, ErrorKind, IntType, ParseError, ParseResult, SpecResult};
use crate::leb128::spec_leb;
use crate::reader::Reader;

verus! {

/// A number type.
#[derive(Clone, Copy, Debug, PartialEq, Eq, Structural)]
pub enum NumType {
    I32,
    I64,
    F32,
    F64,
}

/// A reference type.
#[derive(Clone, Copy, Debug, PartialEq, Eq, Structural)]
pub enum RefType {
    FuncRef,
    ExternRef,
}

/// A value type: a number or a reference.
#[derive(Clone, Copy, Debug, PartialEq, Eq, Structural)]
pub enum ValType {
    Num(NumType),
    Ref(RefType),
}

/// Whether a sign-extending or a zero-extending variant is meant.
#[derive(Clone, Copy, Debug, PartialEq, Eq, Structural)]
pub enum Signedness {
    Unsigned,
    Signed,
}

/// The kinds of section of a module, by their one-byte id.
#[derive(Clone, Copy, Debug, PartialEq, Eq, Structural)]
pub enum SectionType {
    Custom,
    Type,
    Import,
    Function,
    Table,
    Memory,
    Global,
    Export,
    Start,
    Element,
    Code,
    Data,
    DataCount,
}

/// The value type that byte `b` encodes.
pub open spec fn spec_val_type(b: u8) -> Option<ValType> {
    if b == 0x7F {
        Some(ValType::Num(NumType::I32))
    } else if b == 0x7E {
        Some(ValType::Num(NumType::I64))
    } else if b == 0x7D {
        Some(ValType::Num(NumType::F32))
    } else if b == 0x7C {
        Some(ValType::Num(NumType::F64))
    } else if b == 0x70 {
        Some(ValType::Ref(RefType::FuncRef))
    } else if b == 0x6F {
        Some(ValType::Ref(RefType::ExternRef))
    } else {
        None
    }
}

/// The reference type that byte `b` encodes.
pub open spec fn spec_ref_type(b: u8) -> Option<RefType> {
    if b == 0x70 {
        Some(RefType::FuncRef)
    } else if b == 0x6F {
        Some(RefType::ExternRef)
    } else {
        None
    }
}

/// The section kind that byte `b` encodes.
pub open spec fn spec_section_type(b: u8) -> Option<SectionType> {
    if b == 0 {
        Some(SectionType::Custom)
    } else if b == 1 {
        Some(SectionType::Type)
    } else if b == 2 {
        Some(SectionType::Import)
    } else if b == 3 {
        Some(SectionType::Function)
    } else if b == 4 {
        Some(SectionType::Table)
    } else if b == 5 {
        Some(SectionType::Memory)
    } else if b == 6 {
        Some(SectionType::Global)
    } else if b == 7 {
        Some(SectionType::Export)
    } else if b == 8 {
        Some(SectionType::Start)
    } else if b == 9 {
        Some(SectionType::Element)
    } else if b == 10 {
        Some(SectionType::Code)
    } else if b == 11 {
        Some(SectionType::Data)
    } else if b == 12 {
        Some(SectionType::DataCount)
    } else {
        None
    }
}

/// Reads one byte and maps it with `f`, failing with `kind` at that byte
/// where `f` gives nothing.
pub open spec fn spec_mapped_byte<T>(
    s: Seq<u8>,
    p: int,
    e: int,
    f: spec_fn(u8) -> Option<T>,
    kind: ErrorKind,
) -> SpecResult<T> {
    match spec_u8(s, p, e) {
        Ok((b, q)) => match f(b) {
            Some(v) => Ok((v, q)),
            None => Err((kind, p)),
        },
        Err(er) => Err(er),
    }
}

/// The value type at `p`.
pub open spec fn spec_read_val_type(s: Seq<u8>, p: int, e: int) -> SpecResult<ValType> {
    spec_mapped_byte(s, p, e, |b: u8| spec_val_type(b), ErrorKind::UnknownValType)
}

/// The reference type at `p`.
pub open spec fn spec_read_ref_type(s: Seq<u8>, p: int, e: int) -> SpecResult<RefType> {
    spec_mapped_byte(s, p, e, |b: u8| spec_ref_type(b), ErrorKind::UnknownRefType)
}

/// The section kind at `p`.
pub open spec fn spec_read_section_type(s: Seq<u8>, p: int, e: int) -> SpecResult<SectionType> {
    spec_mapped_byte(s, p, e, |b: u8| spec_section_type(b), ErrorKind::InvalidSection)
}

impl ValType {
    /// The value type that `val` encodes.
    pub fn from_u8(val: u8) -> (r: Result<ValType, ErrorKind>)
        ensures
            match spec_val_type(val) {
                Some(v) => r == Ok::<ValType, ErrorKind>(v),
                None => r == Err::<ValType, ErrorKind>(ErrorKind::UnknownValType),
            },
    {
        match val {
            0x7F => Ok(ValType::Num(NumType::I32)),
            0x7E => Ok(ValType::Num(NumType::I64)),
            0x7D => Ok(ValType::Num(NumType::F32)),
            0x7C => Ok(ValType::Num(NumType::F64)),
            0x70 => Ok(ValType::Ref(RefType::FuncRef)),
            0x6F => Ok(ValType::Ref(RefType::ExternRef)),
            _ => Err(ErrorKind::UnknownValType),
        }
    }

    /// Reads one value type.
    pub fn parse<'a>(reader: &mut Reader<'a>) -> (r: ParseResult<'a, ValType>)
        requires
            old(reader).wf(),
        ensures
            final(reader).follows(old(reader)),
            agrees(
                r,
                *final(reader),
                spec_read_val_type(old(reader).data(), old(reader).pos(), old(reader).limit()),
            ),
    {
        let mark = reader.mark();
        let b = match reader.read_u8() {
            Ok(b) => b,
            Err(e) => return Err(e),
        };
        match ValType::from_u8(b) {
            Ok(v) => Ok(v),
            Err(kind) => Err(mark.into_error(kind)),
        }
    }
}

impl RefType {
    /// The reference type that `val` encodes.
    pub fn from_u8(val: u8) -> (r: Result<RefType, ErrorKind>)
        ensures
            match spec_ref_type(val) {
                Some(v) => r == Ok::<RefType, ErrorKind>(v),
                None => r == Err::<RefType, ErrorKind>(ErrorKind::UnknownRefType),
            },
    {
        match val {
            0x70 => Ok(RefType::FuncRef),
            0x6F => Ok(RefType::ExternRef),
            _ => Err(ErrorKind::UnknownRefType),
        }
    }

    /// Reads one reference type.
    pub fn parse<'a>(reader: &mut Reader<'a>) -> (r: ParseResult<'a, RefType>)
        requires
            old(reader).wf(),
        ensures
            final(reader).follows(old(reader)),
            agrees(
                r,
                *final(reader),
                spec_read_ref_type(old(reader).data(), old(reader).pos(), old(reader).limit()),
            ),
    {
        let mark = reader.mark();
        let b = match reader.read_u8() {
            Ok(b) => b,
            Err(e) => return Err(e),
        };
        match RefType::from_u8(b) {
            Ok(v) => Ok(v),
            Err(kind) => Err(mark.into_error(kind)),
        }
    }
}

impl SectionType {
    /// The section kind that `val` encodes.
    pub fn from_u8(val: u8) -> (r: Result<SectionType, ErrorKind>)
        ensures
            match spec_section_type(val) {
                Some(v) => r == Ok::<SectionType, ErrorKind>(v),
                None => r == Err::<SectionType, ErrorKind>(ErrorKind::InvalidSection),
            },
    {
        match val {
            0 => Ok(SectionType::Custom),
            1 => Ok(SectionType::Type),
            2 => Ok(SectionType::Import),
            3 => Ok(SectionType::Function),
            4 => Ok(SectionType::Table),
            5 => Ok(SectionType::Memory),
            6 => Ok(SectionType::Global),
            7 => Ok(SectionType::Export),
            8 => Ok(SectionType::Start),
            9 => Ok(SectionType::Element),
            10 => Ok(SectionType::Code),
            11 => Ok(SectionType::Data),
            12 => Ok(SectionType::DataCount),
            _ => Err(ErrorKind::InvalidSection),
        }
    }

    /// Reads one section kind.
    pub fn parse<'a>(reader: &mut Reader<'a>) -> (r: ParseResult<'a, SectionType>)
        requires
            old(reader).wf(),
        ensures
            final(reader).follows(old(reader)),
            agrees(
                r,
                *final(reader),
                spec_read_section_type(old(reader).data(), old(reader).pos(), old(reader).limit()),
            ),
    {
        let mark = reader.mark();
        let b = match reader.read_u8() {
            Ok(b) => b,
            Err(e) => return Err(e),
        };
        match SectionType::from_u8(b) {
            Ok(v) => Ok(v),
            Err(kind) => Err(mark.into_error(kind)),
        }
    }
}

impl<'a> Reader<'a> {
    /// Reads one value type.
    pub fn read_val_type(&mut self) -> (r: ParseResult<'a, ValType>)
        requires
            old(self).wf(),
        ensures
            final(self).follows(old(self)),
            agrees(
                r,
                *final(self),
                spec_read_val_type(old(self).data(), old(self).pos(), old(self).limit()),
            ),
    {
        ValType::parse(self)
    }

    /// Reads one section kind.
    pub fn read_section_type(&mut self) -> (r: ParseResult<'a, SectionType>)
        requires
            old(self).wf(),
        ensures
            final(self).follows(old(self)),
            agrees(
                r,
                *final(self),
                spec_read_section_type(old(self).data(), old(self).pos(), old(self).limit()),
            ),
    {
        SectionType::parse(self)
    }
}

/// Index types: typed wrappers of a `u32` read from the input.
pub trait IndexAlias: Sized {
    /// The index as an integer.
    spec fn index_value(&self) -> int;

    /// Wraps `val`.
    fn new(val: u32) -> (r: Self)
        ensures
            r.index_value() == val,
    ;
}

/// The index of a function type.
#[derive(Clone, Copy, Debug, PartialEq, Eq, Structural)]
pub struct TypeIdx(pub usize);

impl IndexAlias for TypeIdx {
    open spec fn index_value(&self) -> int {
        self.0 as int
    }

    fn new(val: u32) -> (r: TypeIdx) {
        TypeIdx(val as usize)
    }
}

/// The index of an enclosing structured instruction, counted outwards.
#[derive(Clone, Copy, Debug, PartialEq, Eq, Structural)]
pub struct LabelIdx(pub usize);

impl IndexAlias for LabelIdx {
    open spec fn index_value(&self) -> int {
        self.0 as int
    }

    fn new(val: u32) -> (r: LabelIdx) {
        LabelIdx(val as usize)
    }
}

/// The index of a function, imports first.
#[derive(Clone, Copy, Debug, PartialEq, Eq, Structural)]
pub struct FuncIdx(pub usize);

impl IndexAlias for FuncIdx {
    open spec fn index_value(&self) -> int {
        self.0 as int
    }

    fn new(val: u32) -> (r: FuncIdx) {
        FuncIdx(val as usize)
    }
}

/// The index of a table.
#[derive(Clone, Copy, Debug, PartialEq, Eq, Structural)]
pub struct TableIdx(pub usize);

impl IndexAlias for TableIdx {
    open spec fn index_value(&self) -> int {
        self.0 as int
    }

    fn new(val: u32) -> (r: TableIdx) {
        TableIdx(val as usize)
    }
}

/// The index of a memory.
#[derive(Clone, Copy, Debug, PartialEq, Eq, Structural)]
pub struct MemIdx(pub usize);

impl IndexAlias for MemIdx {
    open spec fn index_value(&self) -> int {
        self.0 as int
    }

    fn new(val: u32) -> (r: MemIdx) {
        MemIdx(val as usize)
    }
}

/// The index of a global.
#[derive(Clone, Copy, Debug, PartialEq, Eq, Structural)]
pub struct GlobalIdx(pub usize);

impl IndexAlias for GlobalIdx {
    open spec fn index_value(&self) -> int {
        self.0 as int
    }

    fn new(val: u32) -> (r: GlobalIdx) {
        GlobalIdx(val as usize)
    }
}

/// The index of a local of the current function.
#[derive(Clone, Copy, Debug, PartialEq, Eq, Structural)]
pub struct LocalIdx(pub usize);

impl IndexAlias for LocalIdx {
    open spec fn index_value(&self) -> int {
        self.0 as int
    }

    fn new(val: u32) -> (r: LocalIdx) {
        LocalIdx(val as usize)
    }
}

/// The index of an element segment.
#[derive(Clone, Copy, Debug, PartialEq, Eq, Structural)]
pub struct ElemIdx(pub usize);

impl IndexAlias for ElemIdx {
    open spec fn index_value(&self) -> int {
        self.0 as int
    }

    fn new(val: u32) -> (r: ElemIdx) {
        ElemIdx(val as usize)
    }
}

/// The index of a data segment.
#[derive(Clone, Copy, Debug, PartialEq, Eq, Structural)]
pub struct DataIdx(pub usize);

impl IndexAlias for DataIdx {
    open spec fn index_value(&self) -> int {
        self.0 as int
    }

    fn new(val: u32) -> (r: DataIdx) {
        DataIdx(val as usize)
    }
}

/// The LEB128 `u32` at `p`.
pub open spec fn spec_u32(s: Seq<u8>, p: int, e: int) -> SpecResult<u32> {
    match spec_leb(s, p, e, IntType::U32) {
        Ok((v, q)) => Ok((v as u32, q)),
        Err(er) => Err(er),
    }
}

/// The index at `p`, as an integer.
pub open spec fn spec_index(s: Seq<u8>, p: int, e: int) -> SpecResult<usize> {
    match spec_leb(s, p, e, IntType::U32) {
        Ok((v, q)) => Ok((v as usize, q)),
        Err(er) => Err(er),
    }
}

impl<'a> Reader<'a> {
    /// Reads a LEB128 `u32` and wraps it as an index.
    pub fn read_index<T: IndexAlias>(&mut self) -> (r: ParseResult<'a, T>)
        requires
            old(self).wf(),
        ensures
            final(self).follows(old(self)),
            match spec_index(old(self).data(), old(self).pos(), old(self).limit()) {
                Ok((v, q)) => r is Ok && r->Ok_0.index_value() == v && final(self).pos() == q,
                Err(e) => err_matches(r, e),
            },
    {
        match self.read_int::<u32>() {
            Ok(v) => Ok(T::new(v)),
            Err(e) => Err(e),
        }
    }

    /// Reads a LEB128 `u32`.
    pub fn read_u32(&mut self) -> (r: ParseResult<'a, u32>)
        requires
            old(self).wf(),
        ensures
            final(self).follows(old(self)),
            agrees(r, *final(self), spec_u32(old(self).data(), old(self).pos(), old(self).limit())),
    {
        self.read_int::<u32>()
    }
}

/// `out` is a result that `cb` gives for some reader.
pub open spec fn read_by<'a, T, F: Fn(&mut Reader<'a>) -> ParseResult<'a, T>>(cb: F, out: ParseResult<'a, T>) -> bool {
    exists|rd: &mut Reader<'a>| #[trigger] cb.ensures((rd,), out)
}

impl<'a> Reader<'a> {
    /// Reads a vector: a LEB128 `u32` count, then that many items, each read
    /// by `cb` from where the previous one ended. A failing item ends the read
    /// with its error.
    pub fn read_vec<T, F: Fn(&mut Reader<'a>) -> ParseResult<'a, T>>(&mut self, cb: F) -> (r: ParseResult<'a, Vec<T>>)
        requires
            old(self).wf(),
            forall|rd: &mut Reader<'a>| (*rd).wf() ==> #[trigger] cb.requires((rd,)),
            forall|rd: &mut Reader<'a>, out: ParseResult<'a, T>| #[trigger] cb.ensures((rd,), out) ==> (*final(rd)).follows(&*rd),
        ensures
            final(self).follows(old(self)),
            match spec_u32(old(self).data(), old(self).pos(), old(self).limit()) {
                Err(e) => err_matches(r, e),
                Ok((n, _)) => {
                    &&& r is Ok ==> r->Ok_0@.len() == n && forall|k: int| 0 <= k < n ==> read_by(
                        cb,
                        Ok::<T, ParseError<'a>>(#[trigger] r->Ok_0@[k]),
                    )
                    &&& r is Err ==> read_by(cb, Err::<T, ParseError<'a>>(r->Err_0))
                },
            },
    {
        let n = match self.read_u32() {
            Ok(n) => n,
            Err(er) => return Err(er),
        };
        let mut items: Vec<T> = Vec::new();
        let mut k: u32 = 0;
        while k < n
            invariant
                self.follows(old(self)),
                spec_u32(old(self).data(), old(self).pos(), old(self).limit()) is Ok,
                spec_u32(old(self).data(), old(self).pos(), old(self).limit())->Ok_0.0 == n,
                k <= n,
                items@.len() == k,
                forall|j: int| 0 <= j < k ==> read_by(cb, Ok::<T, ParseError<'a>>(#[trigger] items@[j])),
                forall|rd: &mut Reader<'a>| (*rd).wf() ==> #[trigger] cb.requires((rd,)),
                forall|rd: &mut Reader<'a>, out: ParseResult<'a, T>| #[trigger] cb.ensures((rd,), out) ==> (*final(rd)).follows(&*rd),
            decreases n - k,
        {
            let out = cb(self);
            proof {
                assert(read_by(cb, out));
            }
            match out {
                Ok(x) => {
                    items.push(x);
                },
                Err(er) => return Err(er),
            }
            k = k + 1;
        }
        Ok(items)
    }
}

/// The type of the values that a structured instruction leaves.
#[derive(Clone, Copy, Debug, PartialEq, Eq, Structural)]
pub enum BlockType {
    Empty,
    ValType(ValType),
    Type(TypeIdx),
}

/// The block type at `p`: only the empty type, `0x40`, is read.
pub open spec fn spec_block_type(s: Seq<u8>, p: int, e: int) -> SpecResult<BlockType> {
    match spec_u8(s, p, e) {
        Ok((b, q)) => if b == 0x40 {
            Ok((BlockType::Empty, q))
        } else {
            Err((ErrorKind::UnknownInstruction, p))
        },
        Err(er) => Err(er),
    }
}

impl BlockType {
    /// Reads a block type; only the empty type, `0x40`, is accepted.
    pub fn parse<'a>(reader: &mut Reader<'a>) -> (r: ParseResult<'a, BlockType>)
        requires
            old(reader).wf(),
        ensures
            final(reader).follows(old(reader)),
            agrees(
                r,
                *final(reader),
                spec_block_type(old(reader).data(), old(reader).pos(), old(reader).limit()),
            ),
    {
        let mark = reader.mark();
        let b = match reader.read_u8() {
            Ok(b) => b,
            Err(e) => return Err(e),
        };
        if b == 0x40 {
            Ok(BlockType::Empty)
        } else {
            Err(mark.into_error(ErrorKind::UnknownInstruction))
        }
    }
}

/// The alignment and offset of a memory access.
#[derive(Clone, Copy, Debug, PartialEq, Eq, Structural)]
pub struct MemArg {
    pub align: u32,
    pub offset: u32,
}

/// The memory argument at `p`: two LEB128 `u32`.
pub open spec fn spec_mem_arg(s: Seq<u8>, p: int, e: int) -> SpecResult<MemArg> {
    match spec_u32(s, p, e) {
        Ok((align, q)) => match spec_u32(s, q, e) {
            Ok((offset, q2)) => Ok((MemArg { align, offset }, q2)),
            Err(er) => Err(er),
        },
        Err(er) => Err(er),
    }
}

impl MemArg {
    /// Reads the alignment, then the offset.
    pub fn parse<'a>(reader: &mut Reader<'a>) -> (r: ParseResult<'a, MemArg>)
        requires
            old(reader).wf(),
        ensures
            final(reader).follows(old(reader)),
            agrees(
                r,
                *final(reader),
                spec_mem_arg(old(reader).data(), old(reader).pos(), old(reader).limit()),
            ),
    {
        let align = match reader.read_u32() {
            Ok(v) => v,
            Err(e) => return Err(e),
        };
        let offset = match reader.read_u32() {
            Ok(v) => v,
            Err(e) => return Err(e),
        };
        Ok(MemArg { align, offset })
    }
}

/// The index of a lane of a vector value.
#[derive(Clone, Copy, Debug, PartialEq, Eq, Structural)]
pub struct LaneIdx(pub u8);

/// The lane index at `p`, which must be below `max`.
pub open spec fn spec_lane(s: Seq<u8>, p: int, e: int, max: u8) -> SpecResult<LaneIdx> {
    match spec_u8(s, p, e) {
        Ok((b, q)) => if b < max {
            Ok((LaneIdx(b), q))
        } else {
            Err((ErrorKind::InvalidLaneIndex { max }, p))
        },
        Err(er) => Err(er),
    }
}

impl LaneIdx {
    fn parse_max<'a>(reader: &mut Reader<'a>, max: u8) -> (r: ParseResult<'a, LaneIdx>)
        requires
            old(reader).wf(),
        ensures
            final(reader).follows(old(reader)),
            agrees(
                r,
                *final(reader),
                spec_lane(old(reader).data(), old(reader).pos(), old(reader).limit(), max),
            ),
    {
        let mark = reader.mark();
        let b = match reader.read_u8() {
            Ok(b) => b,
            Err(e) => return Err(e),
        };
        if b >= max {
            Err(mark.into_error(ErrorKind::InvalidLaneIndex { max }))
        } else {
            Ok(LaneIdx(b))
        }
    }

    /// Reads a lane index below 16.
    pub fn parse_max_16<'a>(reader: &mut Reader<'a>) -> (r: ParseResult<'a, LaneIdx>)
        requires
            old(reader).wf(),
        ensures
            final(reader).follows(old(reader)),
            agrees(
                r,
                *final(reader),
                spec_lane(old(reader).data(), old(reader).pos(), old(reader).limit(), 16),
            ),
    {
        LaneIdx::parse_max(reader, 16)
    }

    /// Reads a lane index below 8.
    pub fn parse_max_8<'a>(reader: &mut Reader<'a>) -> (r: ParseResult<'a, LaneIdx>)
        requires
            old(reader).wf(),
        ensures
            final(reader).follows(old(reader)),
            agrees(
                r,
                *final(reader),
                spec_lane(old(reader).data(), old(reader).pos(), old(reader).limit(), 8),
            ),
    {
        LaneIdx::parse_max(reader, 8)
    }

    /// Reads a lane index below 4.
    pub fn parse_max_4<'a>(reader: &mut Reader<'a>) -> (r: ParseResult<'a, LaneIdx>)
        requires
            old(reader).wf(),
        ensures
            final(reader).follows(old(reader)),
            agrees(
                r,
                *final(reader),
                spec_lane(old(reader).data(), old(reader).pos(), old(reader).limit(), 4),
            ),
    {
        LaneIdx::parse_max(reader, 4)
    }

    /// Reads a lane index below 2.
    pub fn parse_max_2<'a>(reader: &mut Reader<'a>) -> (r: ParseResult<'a, LaneIdx>)
        requires
            old(reader).wf(),
        ensures
            final(reader).follows(old(reader)),
            agrees(
                r,
                *final(reader),
                spec_lane(old(reader).data(), old(reader).pos(), old(reader).limit(), 2),
            ),
    {
        LaneIdx::parse_max(reader, 2)
    }
}

/// A number of pages of 64 KiB.
#[derive(Clone, Copy, Debug, PartialEq, Eq, Structural)]
pub struct PageSize(pub u32);

impl PageSize {
    /// The number of pages.
    pub fn count(&self) -> (r: u32)
        ensures
            r == self.0,
    {
        self.0
    }

    /// The number of bytes in these pages.
    pub fn bytes(&self) -> (r: u64)
        ensures
            r == self.0 * 65536,
    {
        self.0 as u64 * 65536
    }
}

/// The size limits of a memory or a table.
#[derive(Clone, Copy, Debug, PartialEq, Eq, Structural)]
pub struct Limit {
    pub min: PageSize,
    pub max: Option<PageSize>,
}

/// The limits at `p`: a flag byte, the minimum, and the maximum where the flag is `1`.
pub open spec fn spec_limit(s: Seq<u8>, p: int, e: int) -> SpecResult<Limit> {
    match spec_u8(s, p, e) {
        Ok((flag, q)) => match spec_u32(s, q, e) {
            Ok((min, q2)) => if flag == 1 {
                match spec_u32(s, q2, e) {
                    Ok((max, q3)) => Ok((Limit { min: PageSize(min), max: Some(PageSize(max)) }, q3)),
                    Err(er) => Err(er),
                }
            } else {
                Ok((Limit { min: PageSize(min), max: None }, q2))
            },
            Err(er) => Err(er),
        },
        Err(er) => Err(er),
    }
}

impl Limit {
    /// Reads a limit.
    pub fn parse<'a>(reader: &mut Reader<'a>) -> (r: ParseResult<'a, Limit>)
        requires
            old(reader).wf(),
        ensures
            final(reader).follows(old(reader)),
            agrees(
                r,
                *final(reader),
                spec_limit(old(reader).data(), old(reader).pos(), old(reader).limit()),
            ),
    {
        let flag = match reader.read_u8() {
            Ok(b) => b,
            Err(e) => return Err(e),
        };
        let min = match reader.read_u32() {
            Ok(v) => v,
            Err(e) => return Err(e),
        };
        let max = if flag == 1 {
            match reader.read_u32() {
                Ok(v) => Some(PageSize(v)),
                Err(e) => return Err(e),
            }
        } else {
            None
        };
        Ok(Limit { min: PageSize(min), max })
    }
}

} // verus!
