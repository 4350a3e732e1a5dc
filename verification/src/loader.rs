//! The object loader: parse the input bytes as an ELF object through
//! goblin and reduce the object to plain tables, then locate the code
//! section and the relocation records that patch it.
//!
//! goblin stands behind two trusted wrappers that both project one named
//! parse result, `parsed_elf`: the parse reads nothing but the input
//! buffer, so its tables are a fixed function of the bytes, and the
//! loader's own contract is exact over that name.

use vstd::prelude::*;

use crate::model::{ExtractError, ObjectInput, ObjectInputModel, RelModel, RelocRec, SymModel,
    SymbolRec};
use crate::strutil::str_eq;

verus! {

/// One section header, reduced to what the loader reads: the resolved
/// section name, if the lookup hits, and the section's file offset.
pub struct SectionRec {
    pub name: Option<String>,
    pub offset: u64,
}

/// The mathematical value of a [`SectionRec`].
#[verifier::ext_equal]
pub struct SectionModel {
    pub name: Option<Seq<char>>,
    pub offset: u64,
}

impl View for SectionRec {
    type V = SectionModel;

    open spec fn view(&self) -> SectionModel {
        SectionModel {
            name: match self.name {
                Some(n) => Some(n@),
                None => None,
            },
            offset: self.offset,
        }
    }
}

impl DeepView for SectionRec {
    type V = SectionModel;

    open spec fn deep_view(&self) -> SectionModel {
        self.view()
    }
}

/// One parsed relocation section: its own section header index, and its
/// records in section order.
pub struct RelocSectionRec {
    pub index: usize,
    pub relocs: Vec<RelocRec>,
}

/// The mathematical value of a [`RelocSectionRec`].
#[verifier::ext_equal]
pub struct RelocSectionModel {
    pub index: usize,
    pub relocs: Seq<RelModel>,
}

impl View for RelocSectionRec {
    type V = RelocSectionModel;

    open spec fn view(&self) -> RelocSectionModel {
        RelocSectionModel { index: self.index, relocs: self.relocs.deep_view() }
    }
}

impl DeepView for RelocSectionRec {
    type V = RelocSectionModel;

    open spec fn deep_view(&self) -> RelocSectionModel {
        self.view()
    }
}

/// The plain tables of a parsed ELF object: its section headers with
/// resolved names, its symbol table with resolved names, and its parsed
/// relocation sections.
#[verifier::ext_equal]
pub struct ElfTablesModel {
    pub sections: Seq<SectionModel>,
    pub symbols: Seq<SymModel>,
    pub reloc_sections: Seq<RelocSectionModel>,
}

/// What the input bytes parse to, if they parse as an object of the ELF
/// variant: `goblin::Object::parse` reads nothing but the buffer, so the
/// tables are a fixed function of the bytes alone.
pub uninterp spec fn parsed_elf(data: Seq<u8>) -> Option<ElfTablesModel>;

/// The descriptive tag that `goblin::elf::reloc::r_to_str` yields for an
/// x86-64 relocation type: a fixed function of the type alone.
pub uninterp spec fn reloc_type_name(rtype: u32) -> Seq<char>;

/// Relies on `goblin::Object::parse` and the parsed object's header and
/// symbol tables (`section_headers` with `shdr_strtab`, `syms` with
/// `strtab`): yielded as plain values exactly when the bytes parse as an
/// object of the ELF variant.
#[verifier::external_body]
fn parse_sections_symbols(data: &Vec<u8>) -> (r: Option<(Vec<SectionRec>, Vec<SymbolRec>)>)
    ensures
        match r {
            Some(t) => parsed_elf(data@) is Some && t.0.deep_view() == parsed_elf(
                data@,
            ).unwrap().sections && t.1.deep_view() == parsed_elf(data@).unwrap().symbols,
            None => parsed_elf(data@) is None,
        },
{
    let elf = match goblin::Object::parse(data.as_slice()) {
        Ok(goblin::Object::Elf(elf)) => elf,
        _ => return None,
    };
    let sections = elf.section_headers.iter().map(|sh| SectionRec {
        name: elf.shdr_strtab.get_at(sh.sh_name).map(str::to_string), offset: sh.sh_offset }).collect();
    let symbols = elf.syms.iter().map(|s| SymbolRec {
        name: elf.strtab.get_at(s.st_name).map(str::to_string),
        info: s.st_info, value: s.st_value, size: s.st_size }).collect();
    Some((sections, symbols))
}

/// Relies on `goblin::Object::parse` and the parsed object's
/// `shdr_relocs`, which holds one entry per relocation section with that
/// section's own header index: the same deterministic parse as above,
/// projected to the relocation sections.
#[verifier::external_body]
fn parse_reloc_sections(data: &Vec<u8>) -> (r: Option<Vec<RelocSectionRec>>)
    ensures
        match r {
            Some(t) => parsed_elf(data@) is Some && t.deep_view() == parsed_elf(
                data@,
            ).unwrap().reloc_sections,
            None => parsed_elf(data@) is None,
        },
{
    let elf = match goblin::Object::parse(data.as_slice()) {
        Ok(goblin::Object::Elf(elf)) => elf,
        _ => return None,
    };
    Some(elf.shdr_relocs.iter().map(|(index, sec)| RelocSectionRec { index: *index,
        relocs: sec.iter().map(|r| RelocRec { offset: r.r_offset, addend: r.r_addend,
            sym: r.r_sym, rtype: r.r_type }).collect() }).collect())
}

/// Relies on `goblin::elf::reloc::r_to_str` for the x86-64 machine: the
/// descriptive tag depends on the relocation type alone.
#[verifier::external_body]
pub(crate) fn reloc_kind_name(rtype: u32) -> (r: String)
    ensures
        r@ == reloc_type_name(rtype),
{
    goblin::elf::reloc::r_to_str(rtype, goblin::elf::header::EM_X86_64).to_string()
}

/// The name of the executable code section.
pub open spec fn text_section_name() -> Seq<char> {
    ".text"@
}

/// The first section at or after position `i` named `.text`.
pub open spec fn spec_find_text_from(sections: Seq<SectionModel>, i: int) -> Option<int>
    decreases sections.len() - i,
{
    if i < 0 || i >= sections.len() {
        None
    } else if sections[i].name == Some(text_section_name()) {
        Some(i)
    } else {
        spec_find_text_from(sections, i + 1)
    }
}

/// The first section named `.text`.
pub open spec fn spec_find_text(sections: Seq<SectionModel>) -> Option<int> {
    spec_find_text_from(sections, 0)
}

/// The first relocation section at or after position `i` whose own
/// header index is `idx`.
pub open spec fn spec_find_reloc_section_from(
    secs: Seq<RelocSectionModel>,
    idx: int,
    i: int,
) -> Option<int>
    decreases secs.len() - i,
{
    if i < 0 || i >= secs.len() {
        None
    } else if secs[i].index == idx {
        Some(i)
    } else {
        spec_find_reloc_section_from(secs, idx, i + 1)
    }
}

/// The first relocation section whose own header index is `idx`.
pub open spec fn spec_find_reloc_section(secs: Seq<RelocSectionModel>, idx: int) -> Option<int> {
    spec_find_reloc_section_from(secs, idx, 0)
}

/// What loading yields on the object's bytes: the parse failing is a
/// format error; a parsed object without a `.text` section, or without a
/// relocation section at the header index immediately after it (the
/// producing toolchain's layout convention), misses a section; otherwise
/// the code section's file offset, the symbol table, and that relocation
/// section's records.
pub open spec fn spec_load(data: Seq<u8>) -> Result<ObjectInputModel, ExtractError> {
    match parsed_elf(data) {
        None => Err(ExtractError::Format),
        Some(t) => match spec_find_text(t.sections) {
            None => Err(ExtractError::MissingSection),
            Some(ti) => match spec_find_reloc_section(t.reloc_sections, ti + 1) {
                None => Err(ExtractError::MissingSection),
                Some(ri) => Ok(
                    ObjectInputModel {
                        text_offset: t.sections[ti].offset,
                        symbols: t.symbols,
                        relocs: t.reloc_sections[ri].relocs,
                    },
                ),
            },
        },
    }
}

/// The loader, as a model of the executable result.
pub open spec fn load_result_model(r: Result<ObjectInput, ExtractError>) -> Result<
    ObjectInputModel,
    ExtractError,
> {
    match r {
        Ok(input) => Ok(input@),
        Err(e) => Err(e),
    }
}

/// Parse the object and reduce it to the plain input model of the
/// pipeline, or report exactly why that fails.
pub fn load_object(data: &Vec<u8>) -> (r: Result<ObjectInput, ExtractError>)
    ensures
        load_result_model(r) == spec_load(data@),
{
    let (sections, symbols) = match parse_sections_symbols(data) {
        Some(pair) => pair,
        None => {
            return Err(ExtractError::Format);
        },
    };
    let ghost tm = parsed_elf(data@).unwrap();
    let nsec = sections.len();
    let mut text_index: usize = 0;
    let mut text_offset: u64 = 0;
    let mut found = false;
    let mut i: usize = 0;
    while !found && i < nsec
        invariant
            i <= nsec,
            nsec == sections.len(),
            parsed_elf(data@) == Some(tm),
            tm.sections == sections.deep_view(),
            !found ==> spec_find_text(tm.sections) == spec_find_text_from(tm.sections, i as int),
            found ==> spec_find_text(tm.sections) == Some(text_index as int) && text_index < nsec
                && text_offset == tm.sections[text_index as int].offset,
        decreases nsec - i,
    {
        let sec = &sections[i];
        if let Some(name) = &sec.name {
            if str_eq(name.as_str(), ".text") {
                text_index = i;
                text_offset = sec.offset;
                found = true;
            }
        }
        i = i + 1;
    }
    if !found {
        return Err(ExtractError::MissingSection);
    }
    let target = text_index + 1;
    let mut reloc_sections = match parse_reloc_sections(data) {
        Some(rs) => rs,
        None => {
            return Err(ExtractError::Format);
        },
    };
    let nrel = reloc_sections.len();
    let mut rfound = false;
    let mut rindex: usize = 0;
    let mut j: usize = 0;
    while !rfound && j < nrel
        invariant
            j <= nrel,
            nrel == reloc_sections.len(),
            parsed_elf(data@) == Some(tm),
            tm.reloc_sections == reloc_sections.deep_view(),
            !rfound ==> spec_find_reloc_section(tm.reloc_sections, target as int)
                == spec_find_reloc_section_from(tm.reloc_sections, target as int, j as int),
            rfound ==> spec_find_reloc_section(tm.reloc_sections, target as int) == Some(
                rindex as int,
            ) && rindex < nrel,
        decreases nrel - j,
    {
        if reloc_sections[j].index == target {
            rindex = j;
            rfound = true;
        }
        j = j + 1;
    }
    if !rfound {
        return Err(ExtractError::MissingSection);
    }
    let entry = reloc_sections.remove(rindex);
    let out = ObjectInput { text_offset, symbols, relocs: entry.relocs };
    proof {
        match spec_load(data@) {
            Ok(m) => {
                assert(out@ =~~= m);
            },
            Err(_) => {
                assert(false);
            },
        }
    }
    Ok(out)
}

} // verus!
