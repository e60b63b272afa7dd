use vstd::prelude::*;

use crate::error::{err_matches, ErrorKind, IntType, ParseError, SpecErr};
use crate::leb128::spec_leb;
use crate::reader::Reader;
use crate::section::{
    read_code, read_data, read_exports, read_functions, read_globals, read_imports, read_memories,
    read_tables, read_types, spec_code_section, spec_data_section, spec_exports_section,
    spec_functions_section, spec_globals_section, spec_imports_section, spec_memories_section,
    spec_tables_section, spec_types_section, views, Code, CodeView, Data, DataView, Export,
    ExportDesc, ExportView, Function, Global, GlobalView, Import, ImportView, Memory, Table, Type,
    TypeView,
};
use crate::types::{spec_index, spec_read_section_type, spec_u32, FuncIdx, SectionType};

verus! {

/// A decoded module. The strings and data payloads borrow the input.
#[derive(Debug)]
pub struct Wasm<'a> {
    pub types: Vec<Type>,
    pub imports: Vec<Import<'a>>,
    pub functions: Vec<Function>,
    pub tables: Vec<Table>,
    pub memories: Vec<Memory>,
    pub globals: Vec<Global>,
    pub exports: Vec<Export<'a>>,
    pub start: Option<FuncIdx>,
    pub code: Vec<Code>,
    pub data: Vec<Data<'a>>,
    pub data_count: Option<u32>,
}

/// The view of a module.
pub struct ModuleView {
    pub types: Seq<TypeView>,
    pub imports: Seq<ImportView>,
    pub functions: Seq<Function>,
    pub tables: Seq<Table>,
    pub memories: Seq<Memory>,
    pub globals: Seq<GlobalView>,
    pub exports: Seq<ExportView>,
    pub start: Option<FuncIdx>,
    pub code: Seq<CodeView>,
    pub data: Seq<DataView>,
    pub data_count: Option<u32>,
}

impl<'a> View for Wasm<'a> {
    type V = ModuleView;

    open spec fn view(&self) -> ModuleView {
        ModuleView {
            types: views(self.types@),
            imports: views(self.imports@),
            functions: views(self.functions@),
            tables: views(self.tables@),
            memories: views(self.memories@),
            globals: views(self.globals@),
            exports: views(self.exports@),
            start: self.start,
            code: views(self.code@),
            data: views(self.data@),
            data_count: self.data_count,
        }
    }
}

/// The module with no sections.
pub open spec fn empty_module() -> ModuleView {
    ModuleView {
        types: Seq::empty(),
        imports: Seq::empty(),
        functions: Seq::empty(),
        tables: Seq::empty(),
        memories: Seq::empty(),
        globals: Seq::empty(),
        exports: Seq::empty(),
        start: None,
        code: Seq::empty(),
        data: Seq::empty(),
        data_count: None,
    }
}

/// The payload of one section, `s[p..e]`, of kind `kind`, added to `m`;
/// `at` is where the section starts. A kind whose entries are already there
/// is refused.
pub open spec fn spec_section(s: Seq<u8>, p: int, e: int, kind: SectionType, m: ModuleView, at: int) -> Result<ModuleView, SpecErr> {
    let dup = Err((ErrorKind::InvalidSection, at));
    match kind {
        SectionType::Type => if m.types.len() > 0 { dup } else {
            match spec_types_section(s, p, e) { Ok((v, _)) => Ok(ModuleView { types: v, ..m }), Err(er) => Err(er) }
        },
        SectionType::Import => if m.imports.len() > 0 { dup } else {
            match spec_imports_section(s, p, e) { Ok((v, _)) => Ok(ModuleView { imports: v, ..m }), Err(er) => Err(er) }
        },
        SectionType::Function => if m.functions.len() > 0 { dup } else {
            match spec_functions_section(s, p, e) { Ok((v, _)) => Ok(ModuleView { functions: v, ..m }), Err(er) => Err(er) }
        },
        SectionType::Table => if m.tables.len() > 0 { dup } else {
            match spec_tables_section(s, p, e) { Ok((v, _)) => Ok(ModuleView { tables: v, ..m }), Err(er) => Err(er) }
        },
        SectionType::Memory => if m.memories.len() > 0 { dup } else {
            match spec_memories_section(s, p, e) { Ok((v, _)) => Ok(ModuleView { memories: v, ..m }), Err(er) => Err(er) }
        },
        SectionType::Global => if m.globals.len() > 0 { dup } else {
            match spec_globals_section(s, p, e) { Ok((v, _)) => Ok(ModuleView { globals: v, ..m }), Err(er) => Err(er) }
        },
        SectionType::Export => if m.exports.len() > 0 { dup } else {
            match spec_exports_section(s, p, e) { Ok((v, _)) => Ok(ModuleView { exports: v, ..m }), Err(er) => Err(er) }
        },
        SectionType::Start => if m.start is Some { dup } else {
            match spec_index(s, p, e) { Ok((v, _)) => Ok(ModuleView { start: Some(FuncIdx(v)), ..m }), Err(er) => Err(er) }
        },
        SectionType::Code => if m.code.len() > 0 { dup } else {
            match spec_code_section(s, p, e) { Ok((v, _)) => Ok(ModuleView { code: v, ..m }), Err(er) => Err(er) }
        },
        SectionType::Data => if m.data.len() > 0 { dup } else {
            match spec_data_section(s, p, e) { Ok((v, _)) => Ok(ModuleView { data: v, ..m }), Err(er) => Err(er) }
        },
        SectionType::DataCount => if m.data_count is Some { dup } else {
            match spec_u32(s, p, e) { Ok((v, _)) => Ok(ModuleView { data_count: Some(v), ..m }), Err(er) => Err(er) }
        },
        SectionType::Custom | SectionType::Element => Ok(m),
    }
}

/// The sections from `p` to the end of `s`, added to `m`: each is a kind
/// byte, a LEB128 `u32` length, and a payload of that length.
pub open spec fn spec_sections(s: Seq<u8>, p: int, m: ModuleView) -> Result<ModuleView, SpecErr>
    decreases s.len() - p,
    via sections_decrease
{
    if p >= s.len() || p < 0 {
        Ok(m)
    } else {
        match spec_read_section_type(s, p, s.len() as int) {
            Ok((kind, q)) => match spec_leb(s, q, s.len() as int, IntType::U32) {
                Ok((n, q2)) => if q2 + n > s.len() {
                    Err((ErrorKind::EndOfFile, q2))
                } else {
                    match spec_section(s, q2, q2 + n, kind, m, p) {
                        Ok(m2) => spec_sections(s, q2 + n, m2),
                        Err(er) => Err(er),
                    }
                },
                Err(er) => Err(er),
            },
            Err(er) => Err(er),
        }
    }
}

#[via_fn]
proof fn sections_decrease(s: Seq<u8>, p: int, m: ModuleView) {
    if 0 <= p < s.len() {
        match spec_read_section_type(s, p, s.len() as int) {
            Ok((kind, q)) => {
                crate::leb128::lemma_leb_advances(s, q, s.len() as int, IntType::U32);
            },
            Err(_) => {},
        }
    }
}

/// The module that `s` encodes: the magic `\0asm`, the version 1 as four
/// little-endian bytes, then the sections.
pub open spec fn spec_module(s: Seq<u8>) -> Result<ModuleView, SpecErr> {
    if s.len() < 4 {
        Err((ErrorKind::EndOfFile, 0))
    } else if !(s[0] == 0x00 && s[1] == 0x61 && s[2] == 0x73 && s[3] == 0x6D) {
        Err((ErrorKind::InvalidHeader, 0))
    } else if s.len() < 8 {
        Err((ErrorKind::EndOfFile, 4))
    } else if !(s[4] == 1 && s[5] == 0 && s[6] == 0 && s[7] == 0) {
        Err((ErrorKind::InvalidHeader, 4))
    } else {
        spec_sections(s, 8, empty_module())
    }
}

/// The first export that names a function and is called `name`.
pub open spec fn spec_find_export(exports: Seq<ExportView>, name: Seq<u8>) -> Option<FuncIdx>
    decreases exports.len(),
{
    if exports.len() == 0 {
        None
    } else {
        match exports[0].desc {
            ExportDesc::Function(f) => if exports[0].name == name {
                Some(f)
            } else {
                spec_find_export(exports.drop_first(), name)
            },
            _ => spec_find_export(exports.drop_first(), name),
        }
    }
}

/// The function `f` has code in `m`: it is not imported, and its code entry exists.
pub open spec fn has_code(m: ModuleView, f: FuncIdx) -> bool {
    m.imports.len() <= f.0 < m.imports.len() + m.code.len()
}

/// The code of function `f`.
pub open spec fn code_of(m: ModuleView, f: FuncIdx) -> CodeView {
    m.code[f.0 - m.imports.len()]
}

pub(crate) fn bytes_eq(a: &[u8], b: &[u8]) -> (r: bool)
    ensures
        r == (a@ == b@),
{
    if a.len() != b.len() {
        return false;
    }
    let mut i: usize = 0;
    while i < a.len()
        invariant
            a@.len() == b@.len(),
            i <= a@.len(),
            forall|k: int| 0 <= k < i ==> a@[k] == b@[k],
        decreases a@.len() - i,
    {
        if a[i] != b[i] {
            return false;
        }
        i = i + 1;
    }
    assert(a@ =~= b@);
    true
}

impl<'a> Wasm<'a> {
    fn empty() -> (r: Wasm<'a>)
        ensures
            r@ == empty_module(),
    {
        let r = Wasm {
            types: Vec::new(),
            imports: Vec::new(),
            functions: Vec::new(),
            tables: Vec::new(),
            memories: Vec::new(),
            globals: Vec::new(),
            exports: Vec::new(),
            start: None,
            code: Vec::new(),
            data: Vec::new(),
            data_count: None,
        };
        assert(r@ =~= empty_module()) by {
            assert(views(r.types@) =~= Seq::<TypeView>::empty());
            assert(views(r.imports@) =~= Seq::<ImportView>::empty());
            assert(views(r.functions@) =~= Seq::<Function>::empty());
            assert(views(r.tables@) =~= Seq::<Table>::empty());
            assert(views(r.memories@) =~= Seq::<Memory>::empty());
            assert(views(r.globals@) =~= Seq::<GlobalView>::empty());
            assert(views(r.exports@) =~= Seq::<ExportView>::empty());
            assert(views(r.code@) =~= Seq::<CodeView>::empty());
            assert(views(r.data@) =~= Seq::<DataView>::empty());
        }
        r
    }

    /// Adds the section of kind `kind` whose payload `sub` reads; `at` marks
    /// where the section starts.
    fn add_section(&mut self, sub: &mut Reader<'a>, kind: SectionType, at: crate::reader::Mark<'a>) -> (r: Result<(), ParseError<'a>>)
        requires
            old(sub).wf(),
        ensures
            match spec_section(old(sub).data(), old(sub).pos(), old(sub).limit(), kind, old(self)@, at.pos()) {
                Ok(m) => r is Ok && final(self)@ == m,
                Err(er) => err_matches(r, er),
            },
    {
        let dup = at.into_error(ErrorKind::InvalidSection);
        match kind {
            SectionType::Type => {
                if self.types.len() > 0 { return Err(dup); }
                match read_types(sub) { Ok(v) => { self.types = v; Ok(()) }, Err(er) => Err(er) }
            },
            SectionType::Import => {
                if self.imports.len() > 0 { return Err(dup); }
                match read_imports(sub) { Ok(v) => { self.imports = v; Ok(()) }, Err(er) => Err(er) }
            },
            SectionType::Function => {
                if self.functions.len() > 0 { return Err(dup); }
                match read_functions(sub) { Ok(v) => { self.functions = v; Ok(()) }, Err(er) => Err(er) }
            },
            SectionType::Table => {
                if self.tables.len() > 0 { return Err(dup); }
                match read_tables(sub) { Ok(v) => { self.tables = v; Ok(()) }, Err(er) => Err(er) }
            },
            SectionType::Memory => {
                if self.memories.len() > 0 { return Err(dup); }
                match read_memories(sub) { Ok(v) => { self.memories = v; Ok(()) }, Err(er) => Err(er) }
            },
            SectionType::Global => {
                if self.globals.len() > 0 { return Err(dup); }
                match read_globals(sub) { Ok(v) => { self.globals = v; Ok(()) }, Err(er) => Err(er) }
            },
            SectionType::Export => {
                if self.exports.len() > 0 { return Err(dup); }
                match read_exports(sub) { Ok(v) => { self.exports = v; Ok(()) }, Err(er) => Err(er) }
            },
            SectionType::Start => {
                if self.start.is_some() { return Err(dup); }
                match sub.read_index::<FuncIdx>() { Ok(v) => { self.start = Some(v); Ok(()) }, Err(er) => Err(er) }
            },
            SectionType::Code => {
                if self.code.len() > 0 { return Err(dup); }
                match read_code(sub) { Ok(v) => { self.code = v; Ok(()) }, Err(er) => Err(er) }
            },
            SectionType::Data => {
                if self.data.len() > 0 { return Err(dup); }
                match read_data(sub) { Ok(v) => { self.data = v; Ok(()) }, Err(er) => Err(er) }
            },
            SectionType::DataCount => {
                if self.data_count.is_some() { return Err(dup); }
                match sub.read_u32() { Ok(v) => { self.data_count = Some(v); Ok(()) }, Err(er) => Err(er) }
            },
            SectionType::Custom | SectionType::Element => Ok(()),
        }
    }

    /// Decodes a module. An error lies within the input.
    pub fn parse(slice: &'a [u8]) -> (r: Result<Wasm<'a>, ParseError<'a>>)
        ensures
            match spec_module(slice@) {
                Ok(m) => r is Ok && r->Ok_0@ == m,
                Err(er) => err_matches(r, er),
            },
            r is Err ==> r->Err_0.mark.pos() <= slice@.len(),
    {
        proof {
            crate::within::lemma_module_error_within(slice@);
        }
        Wasm::decode(slice)
    }

    fn decode(slice: &'a [u8]) -> (r: Result<Wasm<'a>, ParseError<'a>>)
        ensures
            match spec_module(slice@) {
                Ok(m) => r is Ok && r->Ok_0@ == m,
                Err(er) => err_matches(r, er),
            },
    {
        let mut reader = Reader::new(slice);
        let mark = reader.mark();
        let magic = match reader.read_exact(4) {
            Ok(b) => b,
            Err(er) => return Err(er),
        };
        if !(magic[0] == 0x00 && magic[1] == 0x61 && magic[2] == 0x73 && magic[3] == 0x6D) {
            return Err(mark.into_error(ErrorKind::InvalidHeader));
        }
        let mark = reader.mark();
        let version = match reader.read_exact(4) {
            Ok(b) => b,
            Err(er) => return Err(er),
        };
        if !(version[0] == 1 && version[1] == 0 && version[2] == 0 && version[3] == 0) {
            return Err(mark.into_error(ErrorKind::InvalidHeader));
        }
        let mut wasm = Wasm::empty();
        while !reader.is_empty()
            invariant
                reader.wf(),
                reader.data() == slice@,
                reader.limit() == slice@.len(),
                reader.pos() >= 0,
                spec_module(slice@) == spec_sections(slice@, reader.pos(), wasm@),
            decreases reader.limit() - reader.pos(),
        {
            let at = reader.mark();
            let kind = match SectionType::parse(&mut reader) {
                Ok(k) => k,
                Err(er) => return Err(er),
            };
            let len = match reader.read_len() {
                Ok(n) => n,
                Err(er) => return Err(er),
            };
            if reader.len() < len {
                return Err(reader.mark().into_error(ErrorKind::EndOfFile));
            }
            let mut sub = reader.narrowed(len);
            reader.skip(len);
            match wasm.add_section(&mut sub, kind, at) {
                Ok(()) => {},
                Err(er) => return Err(er),
            }
        }
        Ok(wasm)
    }
}

} // verus!
