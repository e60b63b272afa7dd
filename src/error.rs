use vstd::prelude::*;

use crate::reader::{Mark, Reader};

verus! {

/// The integer types that the LEB128 decoder reads; names the type of an overflow.
#[derive(Clone, Copy, Debug, PartialEq, Eq, Structural)]
pub enum IntType {
    U8,
    U16,
    U32,
    U64,
    I8,
    I16,
    I32,
    I64,
    U128,
    I128,
    Usize,
    Isize,
}

impl IntType {
    /// The Rust name of the type.
    pub fn name(&self) -> (r: &'static str) {
        match self {
            IntType::U8 => "u8",
            IntType::U16 => "u16",
            IntType::U32 => "u32",
            IntType::U64 => "u64",
            IntType::I8 => "i8",
            IntType::I16 => "i16",
            IntType::I32 => "i32",
            IntType::I64 => "i64",
            IntType::U128 => "u128",
            IntType::I128 => "i128",
            IntType::Usize => "usize",
            IntType::Isize => "isize",
        }
    }
}

/// Errors that can occur while parsing.
#[derive(Clone, Copy, Debug, PartialEq, Eq, Structural)]
pub enum ErrorKind {
    /// The end of the input was reached.
    EndOfFile,
    /// A function type did not start with `0x60`.
    InvalidTypeHeader,
    /// The magic number or the version of the module was wrong.
    InvalidHeader,
    /// An unknown or repeated section was found.
    InvalidSection,
    /// An unknown value type was found.
    UnknownValType,
    /// An unknown export description was found.
    UnknownExportDescription,
    /// An unknown import description was found.
    UnknownImportDescription,
    /// A code entry did not end in `0x0B`.
    InvalidCode,
    /// An unknown reference type was found.
    UnknownRefType,
    /// A second `else` marker was found in the same `if` block.
    DuplicateElse,
    /// An unknown instruction was found.
    UnknownInstruction,
    /// An unknown instruction behind the `0xFC` prefix was found.
    UnknownExtendedInstruction,
    /// An unknown instruction behind the `0xFD` prefix was found.
    UnknownVectorInstruction,
    /// A lane index was not below `max`.
    InvalidLaneIndex { max: u8 },
    /// A string was not valid UTF-8.
    InvalidUtf8,
    /// A LEB128 integer does not fit in the given type.
    IntegerOverflow(IntType),
}

/// A parse error, anchored at a byte of the input.
#[derive(Debug)]
pub struct ParseError<'a> {
    /// The position where the error occurred.
    pub mark: Mark<'a>,
    /// What went wrong.
    pub kind: ErrorKind,
}

impl<'a> ParseError<'a> {
    /// The offset into the input at which the error occurred.
    pub fn offset(&self) -> (r: usize)
        ensures
            r == self.mark.pos(),
    {
        self.mark.offset()
    }
}

/// The result of a parse step.
pub type ParseResult<'a, T> = Result<T, ParseError<'a>>;

/// The failure that a spec-level decoder reports: a kind and an offset.
pub type SpecErr = (ErrorKind, int);

/// What a spec-level decoder produces: a value and the position after it.
pub type SpecResult<T> = Result<(T, int), SpecErr>;

/// `r` is an error of kind `k` at offset `o`.
pub open spec fn is_err_at<T>(r: ParseResult<T>, k: ErrorKind, o: int) -> bool {
    &&& r is Err
    &&& r->Err_0.kind == k
    &&& r->Err_0.mark.pos() == o
}

/// `r` failed exactly as the spec-level error `e` says.
pub open spec fn err_matches<T>(r: ParseResult<T>, e: SpecErr) -> bool {
    is_err_at(r, e.0, e.1)
}

/// `r`, with `rd` the reader after it, is what the spec-level decoder said.
pub open spec fn agrees<T>(r: ParseResult<T>, rd: Reader, spec: SpecResult<T>) -> bool {
    match spec {
        Ok((v, q)) => r is Ok && r->Ok_0 == v && rd.pos() == q,
        Err(e) => err_matches(r, e),
    }
}

/// The byte at `p` in `s[..e]`.
pub open spec fn spec_u8(s: Seq<u8>, p: int, e: int) -> SpecResult<u8> {
    if p < e {
        Ok((s[p], p + 1))
    } else {
        Err((ErrorKind::EndOfFile, p))
    }
}

} // verus!
