//! An embedded-grade WebAssembly loader and single-step interpreter.
//!
//! `Wasm::parse` decodes a binary module into an instruction tree,
//! `Wasm::spawn` starts a `Process` at an exported function, and
//! `Process::step` executes one instruction at a time, pausing whenever the
//! guest calls a function that the host provides.

pub mod cursor;
pub mod error;
pub mod ffi;
pub mod instruction;
pub mod leb128;
pub mod locality;
pub mod process;
pub mod reader;
pub mod section;
pub mod types;
pub mod wasm;
pub mod within;

pub use error::{ErrorKind, IntType, ParseError};
pub use ffi::FfiHandler;
pub use instruction::{Instruction, VectorInstruction};
pub use leb128::Leb128;
pub use process::{Dynamic, ExecError, ExecErrorKind, Process, ProcessAction, ProgramCounter};
pub use reader::{Mark, Reader};
pub use section::{
    Code, Data, Export, ExportDesc, Function, Global, Import, ImportDescription, Memory,
    NamespaceName, Table, Type,
};
pub use types::{
    BlockType, DataIdx, ElemIdx, FuncIdx, GlobalIdx, IndexAlias, LabelIdx, LaneIdx, Limit, LocalIdx,
    MemArg, MemIdx, NumType, PageSize, RefType, SectionType, Signedness, TableIdx, TypeIdx, ValType,
};
pub use wasm::Wasm;
