use stencil_extract::model::{ExtractError, Hole, HoleType, Reloc, RelocRec, Stencil};
use stencil_extract::relocate::map_relocations;
use stencil_extract::transform::{populate_stencil_holes, trim_trailing_jmp};

fn hole(name: &str, index: usize) -> Hole {
    Hole { name: name.to_string(), index, datatype: HoleType::Pointer, internal: false }
}

fn stencil(name: &str, address: u64, code: Vec<u8>) -> Stencil {
    Stencil {
        name: name.to_string(),
        address,
        size: code.len() as u64,
        code,
        relocs: Vec::new(),
        holes: Vec::new(),
    }
}

fn reloc(offset: u64, hole: usize) -> Reloc {
    Reloc { offset, addend: 0, hole, relocation: "X86_64_PC32".to_string() }
}

#[test]
fn relocation_is_attached_stencil_relative() {
    let stencils = vec![stencil("a", 0x10, vec![0u8; 0x20])];
    let holes = vec![hole("bar", 7)];
    let rels = vec![RelocRec { offset: 0x15, addend: Some(-4), sym: 7, rtype: 2 }];
    let out = map_relocations(stencils, &holes, &rels).unwrap();
    assert_eq!(out[0].relocs.len(), 1);
    let r = &out[0].relocs[0];
    assert_eq!(r.offset, 0x5);
    assert_eq!(r.addend, -4);
    assert_eq!(r.hole, 0);
    assert_eq!(r.relocation, "X86_64_PC32");
}

#[test]
fn missing_addend_defaults_to_zero() {
    let stencils = vec![stencil("a", 0, vec![0u8; 8])];
    let holes = vec![hole("x", 1)];
    let rels = vec![RelocRec { offset: 2, addend: None, sym: 1, rtype: 1 }];
    let out = map_relocations(stencils, &holes, &rels).unwrap();
    assert_eq!(out[0].relocs[0].addend, 0);
    assert_eq!(out[0].relocs[0].relocation, "X86_64_64");
}

#[test]
fn unmapped_relocation_is_reported() {
    let stencils = vec![stencil("a", 0x10, vec![0u8; 0x20])];
    let holes = vec![hole("bar", 7)];
    let rels = vec![RelocRec { offset: 0x40, addend: Some(0), sym: 7, rtype: 2 }];
    assert_eq!(map_relocations(stencils, &holes, &rels), Err(ExtractError::UnmappedRelocation));
}

#[test]
fn unresolved_hole_reference_is_reported() {
    let stencils = vec![stencil("a", 0x10, vec![0u8; 0x20])];
    let holes = vec![hole("bar", 7)];
    let rels = vec![RelocRec { offset: 0x15, addend: Some(0), sym: 3, rtype: 2 }];
    assert_eq!(
        map_relocations(stencils, &holes, &rels),
        Err(ExtractError::UnresolvedHoleReference)
    );
}

fn jump_ending_stencil(tail: [u8; 5]) -> (Vec<Stencil>, Vec<Hole>) {
    let mut code = vec![0x90u8; 3];
    code.extend_from_slice(&tail);
    let mut s = stencil("s", 0, code);
    s.relocs.push(reloc(4, 0));
    (vec![s], vec![hole("cnp_stencil_output", 9)])
}

#[test]
fn trailing_jump_is_elided() {
    let (mut stencils, holes) = jump_ending_stencil([0xe9, 0, 0, 0, 0]);
    trim_trailing_jmp(&mut stencils, &holes);
    assert_eq!(stencils[0].code, vec![0x90u8; 3]);
    assert_eq!(stencils[0].relocs.len(), 0);
    assert_eq!(stencils[0].size, 8);
}

#[test]
fn elision_is_idempotent() {
    let (mut stencils, holes) = jump_ending_stencil([0xe9, 0, 0, 0, 0]);
    trim_trailing_jmp(&mut stencils, &holes);
    let once = stencils.clone();
    trim_trailing_jmp(&mut stencils, &holes);
    assert_eq!(stencils, once);
}

#[test]
fn nonzero_displacement_byte_disables_elision() {
    let (mut stencils, holes) = jump_ending_stencil([0xe9, 1, 0, 0, 0]);
    let before = stencils.clone();
    trim_trailing_jmp(&mut stencils, &holes);
    assert_eq!(stencils, before);
}

#[test]
fn wrong_opcode_disables_elision() {
    let (mut stencils, holes) = jump_ending_stencil([0xe8, 0, 0, 0, 0]);
    let before = stencils.clone();
    trim_trailing_jmp(&mut stencils, &holes);
    assert_eq!(stencils, before);
}

#[test]
fn relocation_off_last_position_disables_elision() {
    let (mut stencils, holes) = jump_ending_stencil([0xe9, 0, 0, 0, 0]);
    stencils[0].relocs[0].offset = 3;
    let before = stencils.clone();
    trim_trailing_jmp(&mut stencils, &holes);
    assert_eq!(stencils, before);
}

#[test]
fn other_hole_disables_elision() {
    let (mut stencils, _) = jump_ending_stencil([0xe9, 0, 0, 0, 0]);
    let holes = vec![hole("bar", 9)];
    let before = stencils.clone();
    trim_trailing_jmp(&mut stencils, &holes);
    assert_eq!(stencils, before);
}

#[test]
fn hole_list_is_deduplicated_in_first_reference_order() {
    let mut s = stencil("s", 0, vec![0u8; 0x20]);
    for h in [3usize, 5, 3, 7, 5, 3] {
        s.relocs.push(reloc(0, h));
    }
    let mut stencils = vec![s];
    populate_stencil_holes(&mut stencils);
    assert_eq!(stencils[0].holes, vec![3, 5, 7]);
}

#[test]
fn empty_relocs_leave_hole_list_empty() {
    let mut stencils = vec![stencil("s", 0, vec![0u8; 4])];
    populate_stencil_holes(&mut stencils);
    assert!(stencils[0].holes.is_empty());
}
