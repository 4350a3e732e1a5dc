use stencil_extract::model::HoleType;
use stencil_extract::pipeline::extract;

fn push_u16(v: &mut Vec<u8>, x: u16) {
    v.extend_from_slice(&x.to_le_bytes());
}

fn push_u32(v: &mut Vec<u8>, x: u32) {
    v.extend_from_slice(&x.to_le_bytes());
}

fn push_u64(v: &mut Vec<u8>, x: u64) {
    v.extend_from_slice(&x.to_le_bytes());
}

fn pad_to(v: &mut Vec<u8>, align: usize) {
    while v.len() % align != 0 {
        v.push(0);
    }
}

fn push_shdr(
    v: &mut Vec<u8>,
    name: u32,
    shtype: u32,
    flags: u64,
    offset: u64,
    size: u64,
    link: u32,
    info: u32,
    align: u64,
    entsize: u64,
) {
    push_u32(v, name);
    push_u32(v, shtype);
    push_u64(v, flags);
    push_u64(v, 0);
    push_u64(v, offset);
    push_u64(v, size);
    push_u32(v, link);
    push_u32(v, info);
    push_u64(v, align);
    push_u64(v, entsize);
}

fn push_sym(v: &mut Vec<u8>, name: u32, info: u8, shndx: u16, value: u64, size: u64) {
    push_u32(v, name);
    v.push(info);
    v.push(0);
    push_u16(v, shndx);
    push_u64(v, value);
    push_u64(v, size);
}

/// A relocatable ELF64 object with one global function `foo` of eight
/// bytes ending in a zeroed near jump, and one relocation on its last
/// four bytes referencing the global non-function symbol `hole_name`.
fn build_object(hole_name: &str) -> Vec<u8> {
    let text: Vec<u8> = vec![0x90, 0x90, 0x90, 0xe9, 0, 0, 0, 0];

    let mut strtab: Vec<u8> = vec![0];
    let foo_name = strtab.len() as u32;
    strtab.extend_from_slice(b"foo");
    strtab.push(0);
    let hole_name_off = strtab.len() as u32;
    strtab.extend_from_slice(hole_name.as_bytes());
    strtab.push(0);

    let mut shstrtab: Vec<u8> = vec![0];
    let mut name_of = |v: &mut Vec<u8>, s: &[u8]| -> u32 {
        let off = v.len() as u32;
        v.extend_from_slice(s);
        v.push(0);
        off
    };
    let n_text = name_of(&mut shstrtab, b".text");
    let n_rela = name_of(&mut shstrtab, b".rela.text");
    let n_symtab = name_of(&mut shstrtab, b".symtab");
    let n_strtab = name_of(&mut shstrtab, b".strtab");
    let n_shstrtab = name_of(&mut shstrtab, b".shstrtab");

    let mut symtab: Vec<u8> = Vec::new();
    push_sym(&mut symtab, 0, 0, 0, 0, 0);
    push_sym(&mut symtab, foo_name, 0x12, 1, 0, text.len() as u64);
    push_sym(&mut symtab, hole_name_off, 0x10, 0, 0, 0);

    let mut rela: Vec<u8> = Vec::new();
    push_u64(&mut rela, 4);
    push_u64(&mut rela, (2u64 << 32) | 2);
    push_u64(&mut rela, (-4i64) as u64);

    let mut file = vec![0u8; 64];

    pad_to(&mut file, 16);
    let text_off = file.len() as u64;
    file.extend_from_slice(&text);

    pad_to(&mut file, 8);
    let rela_off = file.len() as u64;
    file.extend_from_slice(&rela);

    pad_to(&mut file, 8);
    let symtab_off = file.len() as u64;
    file.extend_from_slice(&symtab);

    let strtab_off = file.len() as u64;
    file.extend_from_slice(&strtab);

    let shstrtab_off = file.len() as u64;
    file.extend_from_slice(&shstrtab);

    pad_to(&mut file, 8);
    let shoff = file.len() as u64;
    push_shdr(&mut file, 0, 0, 0, 0, 0, 0, 0, 0, 0);
    push_shdr(&mut file, n_text, 1, 6, text_off, text.len() as u64, 0, 0, 16, 0);
    push_shdr(&mut file, n_rela, 4, 0, rela_off, rela.len() as u64, 3, 1, 8, 24);
    push_shdr(&mut file, n_symtab, 2, 0, symtab_off, symtab.len() as u64, 4, 1, 8, 24);
    push_shdr(&mut file, n_strtab, 3, 0, strtab_off, strtab.len() as u64, 0, 0, 1, 0);
    push_shdr(&mut file, n_shstrtab, 3, 0, shstrtab_off, shstrtab.len() as u64, 0, 0, 1, 0);

    file[0] = 0x7f;
    file[1] = b'E';
    file[2] = b'L';
    file[3] = b'F';
    file[4] = 2;
    file[5] = 1;
    file[6] = 1;
    file[16] = 1;
    file[18] = 62;
    file[20] = 1;
    file[40..48].copy_from_slice(&shoff.to_le_bytes());
    file[52] = 64;
    file[58] = 64;
    file[60] = 6;
    file[62] = 5;

    file
}

#[test]
fn parses_object_and_keeps_external_relocation() {
    let data = build_object("bar");
    let out = extract(&data).unwrap();

    assert_eq!(out.holes.len(), 2);
    assert_eq!(out.holes[0].name, "");
    assert_eq!(out.holes[0].index, 0);
    assert_eq!(out.holes[1].name, "bar");
    assert_eq!(out.holes[1].index, 2);
    assert_eq!(out.holes[1].datatype, HoleType::Pointer);
    assert!(!out.holes[1].internal);

    assert_eq!(out.stencils.len(), 1);
    let foo = &out.stencils[0];
    assert_eq!(foo.name, "foo");
    assert_eq!(foo.address, 0);
    assert_eq!(foo.size, 8);
    assert_eq!(foo.code, vec![0x90, 0x90, 0x90, 0xe9, 0, 0, 0, 0]);
    assert_eq!(foo.relocs.len(), 1);
    assert_eq!(foo.relocs[0].offset, 4);
    assert_eq!(foo.relocs[0].addend, -4);
    assert_eq!(foo.relocs[0].hole, 1);
    assert_eq!(foo.relocs[0].relocation, "X86_64_PC32");
    assert_eq!(foo.holes, vec![1]);
}

/// The same object with its relocation section header retyped to null:
/// goblin then records no relocation section at the code section's
/// following index, which the loader must report, not guess around.
#[test]
fn missing_relocation_section_is_reported() {
    let mut data = build_object("bar");
    let shoff = u64::from_le_bytes(data[40..48].try_into().unwrap()) as usize;
    let rela_shdr = shoff + 2 * 64;
    data[rela_shdr + 4..rela_shdr + 8].copy_from_slice(&0u32.to_le_bytes());
    assert_eq!(extract(&data), Err(stencil_extract::model::ExtractError::MissingSection));
}

#[test]
fn parses_object_and_elides_trailing_jump() {
    let data = build_object("cnp_stencil_output");
    let out = extract(&data).unwrap();

    assert_eq!(out.holes.len(), 2);
    assert_eq!(out.holes[1].name, "cnp_stencil_output");
    assert_eq!(out.holes[1].datatype, HoleType::Int32);
    assert!(out.holes[1].internal);

    let foo = &out.stencils[0];
    assert_eq!(foo.code, vec![0x90, 0x90, 0x90]);
    assert_eq!(foo.size, 8);
    assert_eq!(foo.relocs.len(), 0);
    assert_eq!(foo.holes.len(), 0);
}
