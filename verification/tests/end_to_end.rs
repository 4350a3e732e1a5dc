use stencil_extract::model::{ExtractError, HoleType, ObjectInput, RelocRec, SymbolRec};
use stencil_extract::pipeline::{extract, extract_from_object};

const GLOBAL_FUNC: u8 = 0x12;
const GLOBAL_NOTYPE: u8 = 0x10;

fn sym(name: &str, info: u8, value: u64, size: u64) -> SymbolRec {
    SymbolRec { name: Some(name.to_string()), info, value, size }
}

/// An object with one function symbol `foo` at value 0x10 of size 0x20
/// in a code section at file offset 0x1000, one relocation at target
/// 0x15 referencing symbol index 7 (`bar`, a non-function global).
#[test]
fn full_scenario() {
    let mut data = vec![0u8; 0x1100];
    for i in 0x1000..0x1100 {
        data[i] = (i - 0x1000) as u8;
    }
    let mut symbols = vec![sym("foo", GLOBAL_FUNC, 0x10, 0x20)];
    for name in ["f1", "f2", "f3", "f4", "f5", "f6"] {
        symbols.push(sym(name, GLOBAL_FUNC, 0, 0));
    }
    symbols.push(sym("bar", GLOBAL_NOTYPE, 0, 0));
    let relocs = vec![RelocRec { offset: 0x15, addend: Some(-4), sym: 7, rtype: 2 }];
    let input = ObjectInput { text_offset: 0x1000, symbols, relocs };
    let out = extract_from_object(input, &data).unwrap();

    assert_eq!(out.holes.len(), 1);
    let bar = &out.holes[0];
    assert_eq!(bar.name, "bar");
    assert_eq!(bar.index, 7);
    assert_eq!(bar.datatype, HoleType::Pointer);
    assert!(!bar.internal);

    let foo = &out.stencils[0];
    assert_eq!(foo.name, "foo");
    assert_eq!(foo.address, 0x10);
    assert_eq!(foo.size, 0x20);
    assert_eq!(foo.code, data[0x1010..0x1030].to_vec());
    assert_eq!(foo.relocs.len(), 1);
    assert_eq!(foo.relocs[0].offset, 0x5);
    assert_eq!(foo.relocs[0].addend, -4);
    assert_eq!(foo.relocs[0].hole, 0);
    assert_eq!(foo.relocs[0].relocation, "X86_64_PC32");
    assert_eq!(foo.holes, vec![0]);
}

#[test]
fn trailing_jump_is_elided_end_to_end() {
    let mut data = vec![0u8; 0x100];
    data[0x40] = 0x90;
    data[0x41] = 0x90;
    data[0x42] = 0x90;
    data[0x43] = 0xe9;
    let symbols = vec![
        sym("f", GLOBAL_FUNC, 0, 0x8),
        sym("cnp_stencil_output", GLOBAL_NOTYPE, 0, 0),
    ];
    let relocs = vec![RelocRec { offset: 0x4, addend: Some(0), sym: 1, rtype: 2 }];
    let input = ObjectInput { text_offset: 0x40, symbols, relocs };
    let out = extract_from_object(input, &data).unwrap();
    assert_eq!(out.stencils[0].code, vec![0x90, 0x90, 0x90]);
    assert_eq!(out.stencils[0].relocs.len(), 0);
    assert_eq!(out.stencils[0].holes.len(), 0);
}

#[test]
fn garbage_bytes_are_a_format_error() {
    let data = vec![1u8, 2, 3, 4];
    assert_eq!(extract(&data), Err(ExtractError::Format));
}

/// A well-formed ELF64 header with no section headers at all: it parses,
/// but holds no code section.
#[test]
fn elf_without_text_section_is_missing_section() {
    let mut data = vec![0u8; 64];
    data[0] = 0x7f;
    data[1] = b'E';
    data[2] = b'L';
    data[3] = b'F';
    data[4] = 2;
    data[5] = 1;
    data[6] = 1;
    data[16] = 1;
    data[18] = 62;
    data[20] = 1;
    data[52] = 64;
    data[58] = 64;
    assert_eq!(extract(&data), Err(ExtractError::MissingSection));
}
