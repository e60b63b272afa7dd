use vstd::prelude::*;
use vstd::string::StringSliceAdditionalSpecFns;

use crate::error::{agrees, err_matches, spec_u8, ErrorKind, IntType, ParseResult, SpecResult};
use crate::instruction::{
    instrs_view, spec_body, spec_instrs_to_end, spec_val_type_vec, InstrView, Instruction,
};
use crate::leb128::spec_leb;
use crate::reader::{find_byte, spec_str, Reader};
use crate::types::{
    spec_index, spec_limit, spec_read_ref_type, spec_read_val_type, spec_u32, FuncIdx, GlobalIdx,
    Limit, MemIdx, RefType, TableIdx, TypeIdx, ValType,
};

verus! {

/// `r` is a value whose view `spec` describes.
pub open spec fn view_agrees<T: View>(r: ParseResult<T>, rd: Reader, spec: SpecResult<T::V>) -> bool {
    match spec {
        Ok((v, q)) => r is Ok && r->Ok_0@ == v && rd.pos() == q,
        Err(er) => err_matches(r, er),
    }
}

/// `r` is a vector whose elements' views `spec` describes.
pub open spec fn vec_agrees<T: View>(r: ParseResult<Vec<T>>, rd: Reader, spec: SpecResult<Seq<T::V>>) -> bool {
    match spec {
        Ok((v, q)) => r is Ok && views(r->Ok_0@) == v && rd.pos() == q,
        Err(er) => err_matches(r, er),
    }
}

/// The views of the elements of `v`.
pub open spec fn views<T: View>(v: Seq<T>) -> Seq<T::V> {
    v.map_values(|x: T| x@)
}

proof fn lemma_views_push<T: View>(v: Seq<T>, x: T)
    ensures
        views(v.push(x)) == views(v).push(x@),
{
    assert(views(v.push(x)) =~= views(v).push(x@));
}

proof fn lemma_views_empty<T: View>(v: Seq<T>)
    requires
        v.len() == 0,
    ensures
        views(v) == Seq::<T::V>::empty(),
{
    assert(views(v) =~= Seq::<T::V>::empty());
}

/// `n` items decoded by `item`, from `p` on; `acc` holds those already read.
pub open spec fn spec_items<T>(
    s: Seq<u8>,
    p: int,
    e: int,
    n: nat,
    item: spec_fn(Seq<u8>, int, int) -> SpecResult<T>,
    acc: Seq<T>,
) -> SpecResult<Seq<T>>
    decreases n,
{
    if n == 0 {
        Ok((acc, p))
    } else {
        match item(s, p, e) {
            Ok((x, q)) => spec_items(s, q, e, (n - 1) as nat, item, acc.push(x)),
            Err(er) => Err(er),
        }
    }
}

/// A vector: a LEB128 `u32` count, then that many items decoded by `item`.
pub open spec fn spec_vec<T>(
    s: Seq<u8>,
    p: int,
    e: int,
    item: spec_fn(Seq<u8>, int, int) -> SpecResult<T>,
) -> SpecResult<Seq<T>> {
    match spec_u32(s, p, e) {
        Ok((n, q)) => spec_items(s, q, e, n as nat, item, Seq::empty()),
        Err(er) => Err(er),
    }
}

/// A function type: parameter and result types.
#[derive(Debug)]
pub struct Type {
    pub lhs: Vec<ValType>,
    pub rhs: Vec<ValType>,
}

/// The view of a function type.
pub struct TypeView {
    pub lhs: Seq<ValType>,
    pub rhs: Seq<ValType>,
}

impl View for Type {
    type V = TypeView;

    open spec fn view(&self) -> TypeView {
        TypeView { lhs: self.lhs@, rhs: self.rhs@ }
    }
}

/// A function type at `p`: `0x60`, then the parameter and the result types.
pub open spec fn spec_type(s: Seq<u8>, p: int, e: int) -> SpecResult<TypeView> {
    match spec_u8(s, p, e) {
        Ok((b, q)) => if b != 0x60 {
            Err((ErrorKind::InvalidTypeHeader, p))
        } else {
            match spec_val_type_vec(s, q, e) {
                Ok((lhs, q2)) => match spec_val_type_vec(s, q2, e) {
                    Ok((rhs, q3)) => Ok((TypeView { lhs, rhs }, q3)),
                    Err(er) => Err(er),
                },
                Err(er) => Err(er),
            }
        },
        Err(er) => Err(er),
    }
}

impl Type {
    /// Reads a function type.
    pub fn parse<'a>(reader: &mut Reader<'a>) -> (r: ParseResult<'a, Type>)
        requires
            old(reader).wf(),
        ensures
            final(reader).follows(old(reader)),
            view_agrees(r, *final(reader), spec_type(old(reader).data(), old(reader).pos(), old(reader).limit())),
    {
        let mark = reader.mark();
        let b = match reader.read_u8() {
            Ok(b) => b,
            Err(er) => return Err(er),
        };
        if b != 0x60 {
            return Err(mark.into_error(ErrorKind::InvalidTypeHeader));
        }
        let lhs = match crate::instruction::read_val_type_vec(reader) {
            Ok(v) => v,
            Err(er) => return Err(er),
        };
        let rhs = match crate::instruction::read_val_type_vec(reader) {
            Ok(v) => v,
            Err(er) => return Err(er),
        };
        Ok(Type { lhs, rhs })
    }
}

/// What an import brings in, by the index of its type.
#[derive(Clone, Copy, Debug, PartialEq, Eq, Structural)]
pub enum ImportDescription {
    Type(TypeIdx),
    Table(TableIdx),
    Memory(MemIdx),
    Global(GlobalIdx),
}

/// The two-level name of an import.
#[derive(Clone, Copy, Debug)]
pub struct NamespaceName<'a> {
    pub namespace: &'a str,
    pub name: &'a str,
}

/// An import.
#[derive(Clone, Copy, Debug)]
pub struct Import<'a> {
    pub name: NamespaceName<'a>,
    pub desc: ImportDescription,
}

/// The view of an import: its names as bytes.
pub struct ImportView {
    pub namespace: Seq<u8>,
    pub name: Seq<u8>,
    pub desc: ImportDescription,
}

impl<'a> View for Import<'a> {
    type V = ImportView;

    open spec fn view(&self) -> ImportView {
        ImportView {
            namespace: self.name.namespace.spec_bytes(),
            name: self.name.name.spec_bytes(),
            desc: self.desc,
        }
    }
}

/// An import description at `p`: a kind byte from 0 to 3, then an index.
pub open spec fn spec_import_desc(s: Seq<u8>, p: int, e: int) -> SpecResult<ImportDescription> {
    match spec_u8(s, p, e) {
        Ok((k, q)) => if k > 3 {
            Err((ErrorKind::UnknownImportDescription, p))
        } else {
            match spec_index(s, q, e) {
                Ok((v, q2)) => Ok(
                    (
                        if k == 0 {
                            ImportDescription::Type(TypeIdx(v))
                        } else if k == 1 {
                            ImportDescription::Table(TableIdx(v))
                        } else if k == 2 {
                            ImportDescription::Memory(MemIdx(v))
                        } else {
                            ImportDescription::Global(GlobalIdx(v))
                        },
                        q2,
                    ),
                ),
                Err(er) => Err(er),
            }
        },
        Err(er) => Err(er),
    }
}

/// An import at `p`: namespace, name, description.
pub open spec fn spec_import(s: Seq<u8>, p: int, e: int) -> SpecResult<ImportView> {
    match spec_str(s, p, e) {
        Ok((namespace, q)) => match spec_str(s, q, e) {
            Ok((name, q2)) => match spec_import_desc(s, q2, e) {
                Ok((desc, q3)) => Ok((ImportView { namespace, name, desc }, q3)),
                Err(er) => Err(er),
            },
            Err(er) => Err(er),
        },
        Err(er) => Err(er),
    }
}

impl<'a> Import<'a> {
    /// Reads an import.
    pub fn parse(reader: &mut Reader<'a>) -> (r: ParseResult<'a, Import<'a>>)
        requires
            old(reader).wf(),
        ensures
            final(reader).follows(old(reader)),
            view_agrees(r, *final(reader), spec_import(old(reader).data(), old(reader).pos(), old(reader).limit())),
    {
        let namespace = match reader.read_str() {
            Ok(v) => v,
            Err(er) => return Err(er),
        };
        let name = match reader.read_str() {
            Ok(v) => v,
            Err(er) => return Err(er),
        };
        let mark = reader.mark();
        let k = match reader.read_u8() {
            Ok(b) => b,
            Err(er) => return Err(er),
        };
        let desc = if k == 0 {
            match reader.read_index::<TypeIdx>() {
                Ok(v) => ImportDescription::Type(v),
                Err(er) => return Err(er),
            }
        } else if k == 1 {
            match reader.read_index::<TableIdx>() {
                Ok(v) => ImportDescription::Table(v),
                Err(er) => return Err(er),
            }
        } else if k == 2 {
            match reader.read_index::<MemIdx>() {
                Ok(v) => ImportDescription::Memory(v),
                Err(er) => return Err(er),
            }
        } else if k == 3 {
            match reader.read_index::<GlobalIdx>() {
                Ok(v) => ImportDescription::Global(v),
                Err(er) => return Err(er),
            }
        } else {
            return Err(mark.into_error(ErrorKind::UnknownImportDescription));
        };
        Ok(Import { name: NamespaceName { namespace, name }, desc })
    }
}

/// What an export makes visible.
#[derive(Clone, Copy, Debug, PartialEq, Eq, Structural)]
pub enum ExportDesc {
    Function(FuncIdx),
    Table(TableIdx),
    Memory(MemIdx),
    Global(GlobalIdx),
}

/// An export.
#[derive(Clone, Copy, Debug)]
pub struct Export<'a> {
    pub name: &'a str,
    pub desc: ExportDesc,
}

/// The view of an export: its name as bytes.
pub struct ExportView {
    pub name: Seq<u8>,
    pub desc: ExportDesc,
}

impl<'a> View for Export<'a> {
    type V = ExportView;

    open spec fn view(&self) -> ExportView {
        ExportView { name: self.name.spec_bytes(), desc: self.desc }
    }
}

/// An export at `p`: its name, a kind byte from 0 to 3, then an index.
pub open spec fn spec_export(s: Seq<u8>, p: int, e: int) -> SpecResult<ExportView> {
    match spec_str(s, p, e) {
        Ok((name, q)) => match spec_u8(s, q, e) {
            Ok((k, q2)) => if k > 3 {
                Err((ErrorKind::UnknownExportDescription, q))
            } else {
                match spec_index(s, q2, e) {
                    Ok((v, q3)) => Ok(
                        (
                            ExportView {
                                name,
                                desc: if k == 0 {
                                    ExportDesc::Function(FuncIdx(v))
                                } else if k == 1 {
                                    ExportDesc::Table(TableIdx(v))
                                } else if k == 2 {
                                    ExportDesc::Memory(MemIdx(v))
                                } else {
                                    ExportDesc::Global(GlobalIdx(v))
                                },
                            },
                            q3,
                        ),
                    ),
                    Err(er) => Err(er),
                }
            },
            Err(er) => Err(er),
        },
        Err(er) => Err(er),
    }
}

impl<'a> Export<'a> {
    /// Reads an export.
    pub fn parse(reader: &mut Reader<'a>) -> (r: ParseResult<'a, Export<'a>>)
        requires
            old(reader).wf(),
        ensures
            final(reader).follows(old(reader)),
            view_agrees(r, *final(reader), spec_export(old(reader).data(), old(reader).pos(), old(reader).limit())),
    {
        let name = match reader.read_str() {
            Ok(v) => v,
            Err(er) => return Err(er),
        };
        let mark = reader.mark();
        let k = match reader.read_u8() {
            Ok(b) => b,
            Err(er) => return Err(er),
        };
        let desc = if k == 0 {
            match reader.read_index::<FuncIdx>() {
                Ok(v) => ExportDesc::Function(v),
                Err(er) => return Err(er),
            }
        } else if k == 1 {
            match reader.read_index::<TableIdx>() {
                Ok(v) => ExportDesc::Table(v),
                Err(er) => return Err(er),
            }
        } else if k == 2 {
            match reader.read_index::<MemIdx>() {
                Ok(v) => ExportDesc::Memory(v),
                Err(er) => return Err(er),
            }
        } else if k == 3 {
            match reader.read_index::<GlobalIdx>() {
                Ok(v) => ExportDesc::Global(v),
                Err(er) => return Err(er),
            }
        } else {
            return Err(mark.into_error(ErrorKind::UnknownExportDescription));
        };
        Ok(Export { name, desc })
    }
}

/// A function: the index of its type.
#[derive(Clone, Copy, Debug, PartialEq, Eq, Structural)]
pub struct Function(pub TypeIdx);

impl View for Function {
    type V = Function;

    open spec fn view(&self) -> Function {
        *self
    }
}

/// A function at `p`: a type index.
pub open spec fn spec_function(s: Seq<u8>, p: int, e: int) -> SpecResult<Function> {
    match spec_index(s, p, e) {
        Ok((v, q)) => Ok((Function(TypeIdx(v)), q)),
        Err(er) => Err(er),
    }
}

impl Function {
    /// Reads a function.
    pub fn parse<'a>(reader: &mut Reader<'a>) -> (r: ParseResult<'a, Function>)
        requires
            old(reader).wf(),
        ensures
            final(reader).follows(old(reader)),
            agrees(r, *final(reader), spec_function(old(reader).data(), old(reader).pos(), old(reader).limit())),
    {
        match reader.read_index::<TypeIdx>() {
            Ok(v) => Ok(Function(v)),
            Err(er) => Err(er),
        }
    }
}

/// A table: the type of its elements and its size limits.
#[derive(Clone, Copy, Debug, PartialEq, Eq, Structural)]
pub struct Table {
    pub reftype: RefType,
    pub limits: Limit,
}

impl View for Table {
    type V = Table;

    open spec fn view(&self) -> Table {
        *self
    }
}

/// A table at `p`.
pub open spec fn spec_table(s: Seq<u8>, p: int, e: int) -> SpecResult<Table> {
    match spec_read_ref_type(s, p, e) {
        Ok((reftype, q)) => match spec_limit(s, q, e) {
            Ok((limits, q2)) => Ok((Table { reftype, limits }, q2)),
            Err(er) => Err(er),
        },
        Err(er) => Err(er),
    }
}

impl Table {
    /// Reads a table.
    pub fn parse<'a>(reader: &mut Reader<'a>) -> (r: ParseResult<'a, Table>)
        requires
            old(reader).wf(),
        ensures
            final(reader).follows(old(reader)),
            agrees(r, *final(reader), spec_table(old(reader).data(), old(reader).pos(), old(reader).limit())),
    {
        let reftype = match RefType::parse(reader) {
            Ok(v) => v,
            Err(er) => return Err(er),
        };
        let limits = match Limit::parse(reader) {
            Ok(v) => v,
            Err(er) => return Err(er),
        };
        Ok(Table { reftype, limits })
    }
}

/// A memory: its size limits in pages.
#[derive(Clone, Copy, Debug, PartialEq, Eq, Structural)]
pub struct Memory(pub Limit);

impl View for Memory {
    type V = Memory;

    open spec fn view(&self) -> Memory {
        *self
    }
}

/// A memory at `p`.
pub open spec fn spec_memory(s: Seq<u8>, p: int, e: int) -> SpecResult<Memory> {
    match spec_limit(s, p, e) {
        Ok((l, q)) => Ok((Memory(l), q)),
        Err(er) => Err(er),
    }
}

impl Memory {
    /// Reads a memory.
    pub fn parse<'a>(reader: &mut Reader<'a>) -> (r: ParseResult<'a, Memory>)
        requires
            old(reader).wf(),
        ensures
            final(reader).follows(old(reader)),
            agrees(r, *final(reader), spec_memory(old(reader).data(), old(reader).pos(), old(reader).limit())),
    {
        match Limit::parse(reader) {
            Ok(l) => Ok(Memory(l)),
            Err(er) => Err(er),
        }
    }
}

/// A global: its type, whether it may change, and its initializer.
#[derive(Debug)]
pub struct Global {
    pub ty: ValType,
    pub mutable: bool,
    pub init: Vec<Instruction>,
}

/// The view of a global.
pub struct GlobalView {
    pub ty: ValType,
    pub mutable: bool,
    pub init: Seq<InstrView>,
}

impl View for Global {
    type V = GlobalView;

    open spec fn view(&self) -> GlobalView {
        GlobalView { ty: self.ty, mutable: self.mutable, init: instrs_view(self.init@) }
    }
}

/// A global at `p`: value type, a byte that is `1` for a mutable global, and
/// an initializer ended by `0x0B`.
pub open spec fn spec_global(s: Seq<u8>, p: int, e: int) -> SpecResult<GlobalView> {
    match spec_read_val_type(s, p, e) {
        Ok((ty, q)) => match spec_u8(s, q, e) {
            Ok((m, q2)) => match spec_body(s, q2, e, Seq::empty()) {
                Ok((init, q3)) => Ok((GlobalView { ty, mutable: m == 1, init }, q3)),
                Err(er) => Err(er),
            },
            Err(er) => Err(er),
        },
        Err(er) => Err(er),
    }
}

impl Global {
    /// Reads a global.
    pub fn parse<'a>(reader: &mut Reader<'a>) -> (r: ParseResult<'a, Global>)
        requires
            old(reader).wf(),
        ensures
            final(reader).follows(old(reader)),
            view_agrees(r, *final(reader), spec_global(old(reader).data(), old(reader).pos(), old(reader).limit())),
    {
        let ty = match ValType::parse(reader) {
            Ok(v) => v,
            Err(er) => return Err(er),
        };
        let m = match reader.read_u8() {
            Ok(b) => b,
            Err(er) => return Err(er),
        };
        let init = match Instruction::parse_until_0x0B(reader) {
            Ok(v) => v,
            Err(er) => return Err(er),
        };
        Ok(Global { ty, mutable: m == 1, init })
    }
}

/// The code of a function: its groups of locals and its body.
#[derive(Debug)]
pub struct Code {
    pub locals: Vec<(u32, ValType)>,
    pub expr: Vec<Instruction>,
}

/// The view of the code of a function.
pub struct CodeView {
    pub locals: Seq<(u32, ValType)>,
    pub expr: Seq<InstrView>,
}

impl View for Code {
    type V = CodeView;

    open spec fn view(&self) -> CodeView {
        CodeView { locals: self.locals@, expr: instrs_view(self.expr@) }
    }
}

/// A group of locals at `p`: a count, then a value type.
pub open spec fn spec_local(s: Seq<u8>, p: int, e: int) -> SpecResult<(u32, ValType)> {
    match spec_u32(s, p, e) {
        Ok((n, q)) => match spec_read_val_type(s, q, e) {
            Ok((t, q2)) => Ok(((n, t), q2)),
            Err(er) => Err(er),
        },
        Err(er) => Err(er),
    }
}

/// The code of a function at `p`: a length-prefixed entry whose last byte is
/// `0x0B`; before it come the locals and the body.
pub open spec fn spec_code(s: Seq<u8>, p: int, e: int) -> SpecResult<CodeView> {
    match spec_leb(s, p, e, IntType::U32) {
        Ok((n, q)) => if q + n > e {
            Err((ErrorKind::EndOfFile, q))
        } else if n == 0 {
            Err((ErrorKind::InvalidCode, q))
        } else if s[q + n - 1] != 0x0B {
            Err((ErrorKind::InvalidCode, q + n - 1))
        } else {
            match spec_vec(s, q, q + n - 1, spec_local_item()) {
                Ok((locals, q2)) => match spec_instrs_to_end(s, q2, q + n - 1, Seq::empty()) {
                    Ok((expr, _)) => Ok((CodeView { locals, expr }, q + n)),
                    Err(er) => Err(er),
                },
                Err(er) => Err(er),
            }
        },
        Err(er) => Err(er),
    }
}

fn read_local<'a>(reader: &mut Reader<'a>) -> (r: ParseResult<'a, (u32, ValType)>)
    requires
        old(reader).wf(),
    ensures
        final(reader).follows(old(reader)),
        agrees(r, *final(reader), spec_local(old(reader).data(), old(reader).pos(), old(reader).limit())),
{
    let n = match reader.read_u32() {
        Ok(v) => v,
        Err(er) => return Err(er),
    };
    let t = match ValType::parse(reader) {
        Ok(v) => v,
        Err(er) => return Err(er),
    };
    Ok((n, t))
}

impl Code {
    /// Reads the code of a function.
    pub fn parse<'a>(reader: &mut Reader<'a>) -> (r: ParseResult<'a, Code>)
        requires
            old(reader).wf(),
        ensures
            final(reader).follows(old(reader)),
            view_agrees(r, *final(reader), spec_code(old(reader).data(), old(reader).pos(), old(reader).limit())),
    {
        let len = match reader.read_len() {
            Ok(n) => n,
            Err(er) => return Err(er),
        };
        if reader.len() < len {
            return Err(reader.mark().into_error(ErrorKind::EndOfFile));
        }
        if len == 0 {
            return Err(reader.mark().into_error(ErrorKind::InvalidCode));
        }
        if reader.byte_at(len - 1) != 0x0B {
            return Err(reader.mark_ahead(len - 1).into_error(ErrorKind::InvalidCode));
        }
        let mut body = reader.narrowed(len - 1);
        let locals = match read_locals(&mut body) {
            Ok(v) => v,
            Err(er) => return Err(er),
        };
        let expr = match Instruction::parse_vec(&mut body) {
            Ok(v) => v,
            Err(er) => return Err(er),
        };
        reader.skip(len);
        Ok(Code { locals, expr })
    }
}

/// A data segment: where it goes, and its bytes.
#[derive(Debug)]
pub struct Data<'a> {
    pub memidx: Option<MemIdx>,
    pub expression: Option<Vec<Instruction>>,
    pub bytes: &'a [u8],
}

/// The view of a data segment.
pub struct DataView {
    pub memidx: Option<MemIdx>,
    pub expression: Option<Seq<InstrView>>,
    pub bytes: Seq<u8>,
}

impl<'a> View for Data<'a> {
    type V = DataView;

    open spec fn view(&self) -> DataView {
        DataView {
            memidx: self.memidx,
            expression: match self.expression {
                Some(v) => Some(instrs_view(v@)),
                None => None,
            },
            bytes: self.bytes@,
        }
    }
}

/// The offset expression of a data segment at `p`: the bytes up to the next
/// `0x0B`, decoded as instructions.
pub open spec fn spec_offset_expr(s: Seq<u8>, p: int, e: int) -> SpecResult<Seq<InstrView>> {
    match find_byte(s, p, e, 0x0B) {
        Some(k) => match spec_instrs_to_end(s, p, k, Seq::empty()) {
            Ok((v, _)) => Ok((v, k + 1)),
            Err(er) => Err(er),
        },
        None => Err((ErrorKind::EndOfFile, e)),
    }
}

/// A data segment at `p`: a mode byte; with mode 2 a memory index; with modes
/// 0 and 2 an offset expression; then the length-prefixed bytes.
pub open spec fn spec_data(s: Seq<u8>, p: int, e: int) -> SpecResult<DataView> {
    match spec_u8(s, p, e) {
        Ok((mode, q)) => {
            let mem: SpecResult<Option<MemIdx>> = if mode == 2 {
                match spec_index(s, q, e) {
                    Ok((v, q2)) => Ok((Some(MemIdx(v)), q2)),
                    Err(er) => Err(er),
                }
            } else {
                Ok((None, q))
            };
            match mem {
                Ok((memidx, q2)) => {
                    let expr: SpecResult<Option<Seq<InstrView>>> = if mode == 0 || mode == 2 {
                        match spec_offset_expr(s, q2, e) {
                            Ok((v, q3)) => Ok((Some(v), q3)),
                            Err(er) => Err(er),
                        }
                    } else {
                        Ok((None, q2))
                    };
                    match expr {
                        Ok((expression, q3)) => match crate::reader::spec_slice(s, q3, e) {
                            Ok((bytes, q4)) => Ok((DataView { memidx, expression, bytes }, q4)),
                            Err(er) => Err(er),
                        },
                        Err(er) => Err(er),
                    }
                },
                Err(er) => Err(er),
            }
        },
        Err(er) => Err(er),
    }
}

fn read_offset_expr<'a>(reader: &mut Reader<'a>) -> (r: ParseResult<'a, Vec<Instruction>>)
    requires
        old(reader).wf(),
    ensures
        final(reader).follows(old(reader)),
        crate::instruction::body_agrees(
            r,
            *final(reader),
            spec_offset_expr(old(reader).data(), old(reader).pos(), old(reader).limit()),
        ),
{
    let start = reader.position();
    proof {
        crate::reader::lemma_find_byte_range(reader.data(), reader.pos(), reader.limit(), 0x0B);
    }
    let _bytes = match reader.read_until(0x0B) {
        Ok(b) => b,
        Err(er) => return Err(er),
    };
    let end = reader.position() - 1;
    let mut sub = reader.window(start, end);
    Instruction::parse_vec(&mut sub)
}

impl<'a> Data<'a> {
    /// Reads a data segment.
    pub fn parse(reader: &mut Reader<'a>) -> (r: ParseResult<'a, Data<'a>>)
        requires
            old(reader).wf(),
        ensures
            final(reader).follows(old(reader)),
            view_agrees(r, *final(reader), spec_data(old(reader).data(), old(reader).pos(), old(reader).limit())),
    {
        let mode = match reader.read_u8() {
            Ok(b) => b,
            Err(er) => return Err(er),
        };
        let memidx = if mode == 2 {
            match reader.read_index::<MemIdx>() {
                Ok(v) => Some(v),
                Err(er) => return Err(er),
            }
        } else {
            None
        };
        let expression = if mode == 0 || mode == 2 {
            match read_offset_expr(reader) {
                Ok(v) => Some(v),
                Err(er) => return Err(er),
            }
        } else {
            None
        };
        let bytes = match reader.read_slice() {
            Ok(b) => b,
            Err(er) => return Err(er),
        };
        Ok(Data { memidx, expression, bytes })
    }
}

/// The types section at `p`: a vector of entries.
pub open spec fn spec_types_section(s: Seq<u8>, p: int, e: int) -> SpecResult<Seq<TypeView>> {
    spec_vec(s, p, e, spec_type_item())
}

/// Reads the entries of a types section.
pub fn read_types<'a>(reader: &mut Reader<'a>) -> (r: ParseResult<'a, Vec<Type>>)
    requires
        old(reader).wf(),
    ensures
        final(reader).follows(old(reader)),
        vec_agrees(r, *final(reader), spec_types_section(old(reader).data(), old(reader).pos(), old(reader).limit())),
{
    let n = match reader.read_u32() {
        Ok(n) => n,
        Err(er) => return Err(er),
    };
    let mut result: Vec<Type> = Vec::new();
    let mut k: u32 = 0;
    proof {
        lemma_views_empty(result@);
    }
    while k < n
        invariant
            reader.follows(old(reader)),
            k <= n,
            spec_types_section(old(reader).data(), old(reader).pos(), old(reader).limit()) == spec_items(
                reader.data(),
                reader.pos(),
                reader.limit(),
                (n - k) as nat,
                spec_type_item(),
                views(result@),
            ),
        decreases n - k,
    {
        let x = match Type::parse(reader) {
            Ok(x) => x,
            Err(er) => return Err(er),
        };
        proof {
            lemma_views_push(result@, x);
        }
        result.push(x);
        k = k + 1;
    }
    Ok(result)
}

/// The imports section at `p`: a vector of entries.
pub open spec fn spec_imports_section(s: Seq<u8>, p: int, e: int) -> SpecResult<Seq<ImportView>> {
    spec_vec(s, p, e, spec_import_item())
}

/// Reads the entries of a imports section.
pub fn read_imports<'a>(reader: &mut Reader<'a>) -> (r: ParseResult<'a, Vec<Import<'a>>>)
    requires
        old(reader).wf(),
    ensures
        final(reader).follows(old(reader)),
        vec_agrees(r, *final(reader), spec_imports_section(old(reader).data(), old(reader).pos(), old(reader).limit())),
{
    let n = match reader.read_u32() {
        Ok(n) => n,
        Err(er) => return Err(er),
    };
    let mut result: Vec<Import<'a>> = Vec::new();
    let mut k: u32 = 0;
    proof {
        lemma_views_empty(result@);
    }
    while k < n
        invariant
            reader.follows(old(reader)),
            k <= n,
            spec_imports_section(old(reader).data(), old(reader).pos(), old(reader).limit()) == spec_items(
                reader.data(),
                reader.pos(),
                reader.limit(),
                (n - k) as nat,
                spec_import_item(),
                views(result@),
            ),
        decreases n - k,
    {
        let x = match Import::parse(reader) {
            Ok(x) => x,
            Err(er) => return Err(er),
        };
        proof {
            lemma_views_push(result@, x);
        }
        result.push(x);
        k = k + 1;
    }
    Ok(result)
}

/// The functions section at `p`: a vector of entries.
pub open spec fn spec_functions_section(s: Seq<u8>, p: int, e: int) -> SpecResult<Seq<Function>> {
    spec_vec(s, p, e, spec_function_item())
}

/// Reads the entries of a functions section.
pub fn read_functions<'a>(reader: &mut Reader<'a>) -> (r: ParseResult<'a, Vec<Function>>)
    requires
        old(reader).wf(),
    ensures
        final(reader).follows(old(reader)),
        vec_agrees(r, *final(reader), spec_functions_section(old(reader).data(), old(reader).pos(), old(reader).limit())),
{
    let n = match reader.read_u32() {
        Ok(n) => n,
        Err(er) => return Err(er),
    };
    let mut result: Vec<Function> = Vec::new();
    let mut k: u32 = 0;
    proof {
        lemma_views_empty(result@);
    }
    while k < n
        invariant
            reader.follows(old(reader)),
            k <= n,
            spec_functions_section(old(reader).data(), old(reader).pos(), old(reader).limit()) == spec_items(
                reader.data(),
                reader.pos(),
                reader.limit(),
                (n - k) as nat,
                spec_function_item(),
                views(result@),
            ),
        decreases n - k,
    {
        let x = match Function::parse(reader) {
            Ok(x) => x,
            Err(er) => return Err(er),
        };
        proof {
            lemma_views_push(result@, x);
        }
        result.push(x);
        k = k + 1;
    }
    Ok(result)
}

/// The tables section at `p`: a vector of entries.
pub open spec fn spec_tables_section(s: Seq<u8>, p: int, e: int) -> SpecResult<Seq<Table>> {
    spec_vec(s, p, e, spec_table_item())
}

/// Reads the entries of a tables section.
pub fn read_tables<'a>(reader: &mut Reader<'a>) -> (r: ParseResult<'a, Vec<Table>>)
    requires
        old(reader).wf(),
    ensures
        final(reader).follows(old(reader)),
        vec_agrees(r, *final(reader), spec_tables_section(old(reader).data(), old(reader).pos(), old(reader).limit())),
{
    let n = match reader.read_u32() {
        Ok(n) => n,
        Err(er) => return Err(er),
    };
    let mut result: Vec<Table> = Vec::new();
    let mut k: u32 = 0;
    proof {
        lemma_views_empty(result@);
    }
    while k < n
        invariant
            reader.follows(old(reader)),
            k <= n,
            spec_tables_section(old(reader).data(), old(reader).pos(), old(reader).limit()) == spec_items(
                reader.data(),
                reader.pos(),
                reader.limit(),
                (n - k) as nat,
                spec_table_item(),
                views(result@),
            ),
        decreases n - k,
    {
        let x = match Table::parse(reader) {
            Ok(x) => x,
            Err(er) => return Err(er),
        };
        proof {
            lemma_views_push(result@, x);
        }
        result.push(x);
        k = k + 1;
    }
    Ok(result)
}

/// The memories section at `p`: a vector of entries.
pub open spec fn spec_memories_section(s: Seq<u8>, p: int, e: int) -> SpecResult<Seq<Memory>> {
    spec_vec(s, p, e, spec_memory_item())
}

/// Reads the entries of a memories section.
pub fn read_memories<'a>(reader: &mut Reader<'a>) -> (r: ParseResult<'a, Vec<Memory>>)
    requires
        old(reader).wf(),
    ensures
        final(reader).follows(old(reader)),
        vec_agrees(r, *final(reader), spec_memories_section(old(reader).data(), old(reader).pos(), old(reader).limit())),
{
    let n = match reader.read_u32() {
        Ok(n) => n,
        Err(er) => return Err(er),
    };
    let mut result: Vec<Memory> = Vec::new();
    let mut k: u32 = 0;
    proof {
        lemma_views_empty(result@);
    }
    while k < n
        invariant
            reader.follows(old(reader)),
            k <= n,
            spec_memories_section(old(reader).data(), old(reader).pos(), old(reader).limit()) == spec_items(
                reader.data(),
                reader.pos(),
                reader.limit(),
                (n - k) as nat,
                spec_memory_item(),
                views(result@),
            ),
        decreases n - k,
    {
        let x = match Memory::parse(reader) {
            Ok(x) => x,
            Err(er) => return Err(er),
        };
        proof {
            lemma_views_push(result@, x);
        }
        result.push(x);
        k = k + 1;
    }
    Ok(result)
}

/// The globals section at `p`: a vector of entries.
pub open spec fn spec_globals_section(s: Seq<u8>, p: int, e: int) -> SpecResult<Seq<GlobalView>> {
    spec_vec(s, p, e, spec_global_item())
}

/// Reads the entries of a globals section.
pub fn read_globals<'a>(reader: &mut Reader<'a>) -> (r: ParseResult<'a, Vec<Global>>)
    requires
        old(reader).wf(),
    ensures
        final(reader).follows(old(reader)),
        vec_agrees(r, *final(reader), spec_globals_section(old(reader).data(), old(reader).pos(), old(reader).limit())),
{
    let n = match reader.read_u32() {
        Ok(n) => n,
        Err(er) => return Err(er),
    };
    let mut result: Vec<Global> = Vec::new();
    let mut k: u32 = 0;
    proof {
        lemma_views_empty(result@);
    }
    while k < n
        invariant
            reader.follows(old(reader)),
            k <= n,
            spec_globals_section(old(reader).data(), old(reader).pos(), old(reader).limit()) == spec_items(
                reader.data(),
                reader.pos(),
                reader.limit(),
                (n - k) as nat,
                spec_global_item(),
                views(result@),
            ),
        decreases n - k,
    {
        let x = match Global::parse(reader) {
            Ok(x) => x,
            Err(er) => return Err(er),
        };
        proof {
            lemma_views_push(result@, x);
        }
        result.push(x);
        k = k + 1;
    }
    Ok(result)
}

/// The exports section at `p`: a vector of entries.
pub open spec fn spec_exports_section(s: Seq<u8>, p: int, e: int) -> SpecResult<Seq<ExportView>> {
    spec_vec(s, p, e, spec_export_item())
}

/// Reads the entries of a exports section.
pub fn read_exports<'a>(reader: &mut Reader<'a>) -> (r: ParseResult<'a, Vec<Export<'a>>>)
    requires
        old(reader).wf(),
    ensures
        final(reader).follows(old(reader)),
        vec_agrees(r, *final(reader), spec_exports_section(old(reader).data(), old(reader).pos(), old(reader).limit())),
{
    let n = match reader.read_u32() {
        Ok(n) => n,
        Err(er) => return Err(er),
    };
    let mut result: Vec<Export<'a>> = Vec::new();
    let mut k: u32 = 0;
    proof {
        lemma_views_empty(result@);
    }
    while k < n
        invariant
            reader.follows(old(reader)),
            k <= n,
            spec_exports_section(old(reader).data(), old(reader).pos(), old(reader).limit()) == spec_items(
                reader.data(),
                reader.pos(),
                reader.limit(),
                (n - k) as nat,
                spec_export_item(),
                views(result@),
            ),
        decreases n - k,
    {
        let x = match Export::parse(reader) {
            Ok(x) => x,
            Err(er) => return Err(er),
        };
        proof {
            lemma_views_push(result@, x);
        }
        result.push(x);
        k = k + 1;
    }
    Ok(result)
}

/// The code section at `p`: a vector of entries.
pub open spec fn spec_code_section(s: Seq<u8>, p: int, e: int) -> SpecResult<Seq<CodeView>> {
    spec_vec(s, p, e, spec_code_item())
}

/// Reads the entries of a code section.
pub fn read_code<'a>(reader: &mut Reader<'a>) -> (r: ParseResult<'a, Vec<Code>>)
    requires
        old(reader).wf(),
    ensures
        final(reader).follows(old(reader)),
        vec_agrees(r, *final(reader), spec_code_section(old(reader).data(), old(reader).pos(), old(reader).limit())),
{
    let n = match reader.read_u32() {
        Ok(n) => n,
        Err(er) => return Err(er),
    };
    let mut result: Vec<Code> = Vec::new();
    let mut k: u32 = 0;
    proof {
        lemma_views_empty(result@);
    }
    while k < n
        invariant
            reader.follows(old(reader)),
            k <= n,
            spec_code_section(old(reader).data(), old(reader).pos(), old(reader).limit()) == spec_items(
                reader.data(),
                reader.pos(),
                reader.limit(),
                (n - k) as nat,
                spec_code_item(),
                views(result@),
            ),
        decreases n - k,
    {
        let x = match Code::parse(reader) {
            Ok(x) => x,
            Err(er) => return Err(er),
        };
        proof {
            lemma_views_push(result@, x);
        }
        result.push(x);
        k = k + 1;
    }
    Ok(result)
}

/// The data section at `p`: a vector of entries.
pub open spec fn spec_data_section(s: Seq<u8>, p: int, e: int) -> SpecResult<Seq<DataView>> {
    spec_vec(s, p, e, spec_data_item())
}

/// Reads the entries of a data section.
pub fn read_data<'a>(reader: &mut Reader<'a>) -> (r: ParseResult<'a, Vec<Data<'a>>>)
    requires
        old(reader).wf(),
    ensures
        final(reader).follows(old(reader)),
        vec_agrees(r, *final(reader), spec_data_section(old(reader).data(), old(reader).pos(), old(reader).limit())),
{
    let n = match reader.read_u32() {
        Ok(n) => n,
        Err(er) => return Err(er),
    };
    let mut result: Vec<Data<'a>> = Vec::new();
    let mut k: u32 = 0;
    proof {
        lemma_views_empty(result@);
    }
    while k < n
        invariant
            reader.follows(old(reader)),
            k <= n,
            spec_data_section(old(reader).data(), old(reader).pos(), old(reader).limit()) == spec_items(
                reader.data(),
                reader.pos(),
                reader.limit(),
                (n - k) as nat,
                spec_data_item(),
                views(result@),
            ),
        decreases n - k,
    {
        let x = match Data::parse(reader) {
            Ok(x) => x,
            Err(er) => return Err(er),
        };
        proof {
            lemma_views_push(result@, x);
        }
        result.push(x);
        k = k + 1;
    }
    Ok(result)
}

fn read_locals<'a>(reader: &mut Reader<'a>) -> (r: ParseResult<'a, Vec<(u32, ValType)>>)
    requires
        old(reader).wf(),
    ensures
        final(reader).follows(old(reader)),
        match spec_vec(old(reader).data(), old(reader).pos(), old(reader).limit(), spec_local_item()) {
            Ok((v, q)) => r is Ok && r->Ok_0@ == v && final(reader).pos() == q,
            Err(er) => err_matches(r, er),
        },
{
    let n = match reader.read_u32() {
        Ok(n) => n,
        Err(er) => return Err(er),
    };
    let mut result: Vec<(u32, ValType)> = Vec::new();
    let mut k: u32 = 0;
    while k < n
        invariant
            reader.follows(old(reader)),
            k <= n,
            spec_vec(old(reader).data(), old(reader).pos(), old(reader).limit(), spec_local_item()) == spec_items(
                reader.data(),
                reader.pos(),
                reader.limit(),
                (n - k) as nat,
                spec_local_item(),
                result@,
            ),
        decreases n - k,
    {
        let x = match read_local(reader) {
            Ok(x) => x,
            Err(er) => return Err(er),
        };
        result.push(x);
        k = k + 1;
    }
    Ok(result)
}

/// `spec_type` as a decoder of vector items.
pub open spec fn spec_type_item() -> spec_fn(Seq<u8>, int, int) -> SpecResult<TypeView> {
    |s: Seq<u8>, p: int, e: int| spec_type(s, p, e)
}

/// `spec_import` as a decoder of vector items.
pub open spec fn spec_import_item() -> spec_fn(Seq<u8>, int, int) -> SpecResult<ImportView> {
    |s: Seq<u8>, p: int, e: int| spec_import(s, p, e)
}

/// `spec_function` as a decoder of vector items.
pub open spec fn spec_function_item() -> spec_fn(Seq<u8>, int, int) -> SpecResult<Function> {
    |s: Seq<u8>, p: int, e: int| spec_function(s, p, e)
}

/// `spec_table` as a decoder of vector items.
pub open spec fn spec_table_item() -> spec_fn(Seq<u8>, int, int) -> SpecResult<Table> {
    |s: Seq<u8>, p: int, e: int| spec_table(s, p, e)
}

/// `spec_memory` as a decoder of vector items.
pub open spec fn spec_memory_item() -> spec_fn(Seq<u8>, int, int) -> SpecResult<Memory> {
    |s: Seq<u8>, p: int, e: int| spec_memory(s, p, e)
}

/// `spec_global` as a decoder of vector items.
pub open spec fn spec_global_item() -> spec_fn(Seq<u8>, int, int) -> SpecResult<GlobalView> {
    |s: Seq<u8>, p: int, e: int| spec_global(s, p, e)
}

/// `spec_export` as a decoder of vector items.
pub open spec fn spec_export_item() -> spec_fn(Seq<u8>, int, int) -> SpecResult<ExportView> {
    |s: Seq<u8>, p: int, e: int| spec_export(s, p, e)
}

/// `spec_code` as a decoder of vector items.
pub open spec fn spec_code_item() -> spec_fn(Seq<u8>, int, int) -> SpecResult<CodeView> {
    |s: Seq<u8>, p: int, e: int| spec_code(s, p, e)
}

/// `spec_data` as a decoder of vector items.
pub open spec fn spec_data_item() -> spec_fn(Seq<u8>, int, int) -> SpecResult<DataView> {
    |s: Seq<u8>, p: int, e: int| spec_data(s, p, e)
}

/// `spec_local` as a decoder of vector items.
pub open spec fn spec_local_item() -> spec_fn(Seq<u8>, int, int) -> SpecResult<(u32, ValType)> {
    |s: Seq<u8>, p: int, e: int| spec_local(s, p, e)
}

} // verus!
