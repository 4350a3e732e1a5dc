use stencil_extract::classify::classify_symbols;
use stencil_extract::classify::classify_hole_name;
use stencil_extract::model::{ExtractError, HoleType, SymbolRec};

fn sym(name: &str, info: u8, value: u64, size: u64) -> SymbolRec {
    SymbolRec { name: Some(name.to_string()), info, value, size }
}

const GLOBAL_FUNC: u8 = 0x12;

#[test]
fn large_value_prefix_is_internal_int64() {
    assert_eq!(classify_hole_name("cnp_large_value_hole"), (HoleType::Int64, true));
    assert_eq!(classify_hole_name("cnp_large_value_hole_7"), (HoleType::Int64, true));
}

#[test]
fn small_value_prefix_is_internal_int32() {
    assert_eq!(classify_hole_name("cnp_small_value_hole_a"), (HoleType::Int32, true));
}

#[test]
fn near_func_prefix_is_internal_int32() {
    assert_eq!(classify_hole_name("cnp_near_func_hole_x"), (HoleType::Int32, true));
}

#[test]
fn far_fun_prefix_is_internal_pointer() {
    assert_eq!(classify_hole_name("cnp_far_fun_hole_y"), (HoleType::Pointer, true));
}

#[test]
fn stencil_output_sentinel_is_internal_int32() {
    assert_eq!(classify_hole_name("cnp_stencil_output"), (HoleType::Int32, true));
}

#[test]
fn sentinel_must_match_exactly() {
    assert_eq!(classify_hole_name("cnp_stencil_output_x"), (HoleType::Pointer, false));
    assert_eq!(classify_hole_name("cnp_stencil_outpu"), (HoleType::Pointer, false));
}

#[test]
fn other_names_are_external_pointers() {
    assert_eq!(classify_hole_name("bar"), (HoleType::Pointer, false));
    assert_eq!(classify_hole_name(""), (HoleType::Pointer, false));
    assert_eq!(classify_hole_name("cnp_other"), (HoleType::Pointer, false));
}

#[test]
fn extracts_exact_code_bytes() {
    let mut data = vec![0u8; 0x40];
    for (i, b) in data.iter_mut().enumerate() {
        *b = i as u8;
    }
    let symbols = vec![sym("f", GLOBAL_FUNC, 0x4, 0x8)];
    let (stencils, holes) = classify_symbols(&symbols, &data, 0x10).unwrap();
    assert_eq!(holes.len(), 0);
    assert_eq!(stencils.len(), 1);
    assert_eq!(stencils[0].name, "f");
    assert_eq!(stencils[0].address, 0x4);
    assert_eq!(stencils[0].size, 0x8);
    assert_eq!(stencils[0].code, data[0x14..0x1c].to_vec());
    assert!(stencils[0].relocs.is_empty());
    assert!(stencils[0].holes.is_empty());
}

#[test]
fn holes_keep_table_order_and_index() {
    let data = vec![0u8; 0x10];
    let symbols = vec![
        sym("cnp_large_value_hole_1", 0x10, 0, 0),
        sym("f", GLOBAL_FUNC, 0, 0x4),
        sym("bar", 0x10, 0, 0),
    ];
    let (stencils, holes) = classify_symbols(&symbols, &data, 0).unwrap();
    assert_eq!(stencils.len(), 1);
    assert_eq!(holes.len(), 2);
    assert_eq!(holes[0].name, "cnp_large_value_hole_1");
    assert_eq!(holes[0].index, 0);
    assert_eq!(holes[0].datatype, HoleType::Int64);
    assert!(holes[0].internal);
    assert_eq!(holes[1].name, "bar");
    assert_eq!(holes[1].index, 2);
    assert_eq!(holes[1].datatype, HoleType::Pointer);
    assert!(!holes[1].internal);
}

#[test]
fn missing_symbol_name_is_reported() {
    let data = vec![0u8; 0x10];
    let symbols = vec![SymbolRec { name: None, info: 0x10, value: 0, size: 0 }];
    assert_eq!(classify_symbols(&symbols, &data, 0), Err(ExtractError::MissingSymbolName));
}

#[test]
fn out_of_range_code_is_reported() {
    let data = vec![0u8; 0x10];
    let symbols = vec![sym("f", GLOBAL_FUNC, 0x8, 0x10)];
    assert_eq!(classify_symbols(&symbols, &data, 0), Err(ExtractError::OutOfRangeCode));
}
