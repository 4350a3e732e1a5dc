//! Symbol classification: partition the symbol table into stencils
//! (globally bound function symbols) and holes (everything else), and
//! extract each stencil's code bytes from the input buffer.

use vstd::prelude::*;

use crate::model::{ExtractError, Hole, HoleModel, HoleType, Stencil, StencilModel, SymModel,
    SymbolRec};
use crate::strutil::{str_eq, str_starts_with};

verus! {

/// ELF symbol binding for globally bound symbols.
pub const STB_GLOBAL: u8 = 1;

/// ELF symbol type for function symbols.
pub const STT_FUNC: u8 = 2;

/// The naming convention of large-value holes: 8-byte integers.
pub open spec fn large_value_prefix() -> Seq<char> {
    "cnp_large_value_hole"@
}

/// The naming convention of small-value holes: 4-byte integers.
pub open spec fn small_value_prefix() -> Seq<char> {
    "cnp_small_value_hole"@
}

/// The naming convention of near-function holes: 4-byte displacements.
pub open spec fn near_func_prefix() -> Seq<char> {
    "cnp_near_func_hole"@
}

/// The naming convention of far-function holes: pointer-sized targets.
pub open spec fn far_fun_prefix() -> Seq<char> {
    "cnp_far_fun_hole"@
}

/// The fixed sentinel name of the stencil-output slot.
pub open spec fn stencil_output_name() -> Seq<char> {
    "cnp_stencil_output"@
}

/// The five-way name classification, checked in priority order with the
/// first match winning: the inferred patch type, and whether the name
/// follows one of the recognized internal conventions.
pub open spec fn spec_classify(name: Seq<char>) -> (HoleType, bool) {
    if large_value_prefix().is_prefix_of(name) {
        (HoleType::Int64, true)
    } else if small_value_prefix().is_prefix_of(name) {
        (HoleType::Int32, true)
    } else if near_func_prefix().is_prefix_of(name) {
        (HoleType::Int32, true)
    } else if far_fun_prefix().is_prefix_of(name) {
        (HoleType::Pointer, true)
    } else if name == stencil_output_name() {
        (HoleType::Int32, true)
    } else {
        (HoleType::Pointer, false)
    }
}

/// Whether a symbol defines a stencil: it is globally bound (high nibble
/// of `st_info`) and of function type (low nibble).
pub open spec fn sym_is_stencil(s: SymModel) -> bool {
    s.info >> 4 == STB_GLOBAL && s.info & 0x0f == STT_FUNC
}

/// The hole produced by the non-stencil symbol `s` at table index `index`.
pub open spec fn spec_hole_of(s: SymModel, index: usize) -> HoleModel
    recommends
        s.name is Some,
{
    HoleModel {
        name: s.name.unwrap(),
        index,
        datatype: spec_classify(s.name.unwrap()).0,
        internal: spec_classify(s.name.unwrap()).1,
    }
}

/// The stencil produced by the global function symbol `s`, its code the
/// bytes `[text_off + value, text_off + value + size)` of the input.
pub open spec fn spec_stencil_of(s: SymModel, data: Seq<u8>, text_off: u64) -> StencilModel
    recommends
        s.name is Some,
        text_off + s.value + s.size <= data.len(),
{
    StencilModel {
        name: s.name.unwrap(),
        address: s.value,
        size: s.size,
        code: data.subrange(text_off + s.value, text_off + s.value + s.size),
        relocs: Seq::empty(),
        holes: Seq::empty(),
    }
}

/// The classification pass over the symbol table in table order: stencils
/// and holes accumulate in their own lists, and the first failure (an
/// unresolvable name, or a code range beyond the buffer) aborts the pass.
pub open spec fn spec_classify_symbols(syms: Seq<SymModel>, data: Seq<u8>, text_off: u64) -> Result<
    (Seq<StencilModel>, Seq<HoleModel>),
    ExtractError,
>
    decreases syms.len(),
{
    if syms.len() == 0 {
        Ok((Seq::empty(), Seq::empty()))
    } else {
        match spec_classify_symbols(syms.drop_last(), data, text_off) {
            Err(e) => Err(e),
            Ok((stencils, holes)) => {
                let s = syms.last();
                let index = (syms.len() - 1) as usize;
                if s.name is None {
                    Err(ExtractError::MissingSymbolName)
                } else if !sym_is_stencil(s) {
                    Ok((stencils, holes.push(spec_hole_of(s, index))))
                } else if text_off + s.value + s.size > data.len() {
                    Err(ExtractError::OutOfRangeCode)
                } else {
                    Ok((stencils.push(spec_stencil_of(s, data, text_off)), holes))
                }
            },
        }
    }
}

/// The classification pass, as a model of the executable result.
pub open spec fn classify_result_model(r: Result<(Vec<Stencil>, Vec<Hole>), ExtractError>) -> Result<
    (Seq<StencilModel>, Seq<HoleModel>),
    ExtractError,
> {
    match r {
        Ok((stencils, holes)) => Ok((stencils.deep_view(), holes.deep_view())),
        Err(e) => Err(e),
    }
}

/// Classify one symbol name by the ordered prefix and equality rules.
pub fn classify_hole_name(name: &str) -> (r: (HoleType, bool))
    ensures
        r == spec_classify(name@),
{
    if str_starts_with(name, "cnp_large_value_hole") {
        (HoleType::Int64, true)
    } else if str_starts_with(name, "cnp_small_value_hole") {
        (HoleType::Int32, true)
    } else if str_starts_with(name, "cnp_near_func_hole") {
        (HoleType::Int32, true)
    } else if str_starts_with(name, "cnp_far_fun_hole") {
        (HoleType::Pointer, true)
    } else if str_eq(name, "cnp_stencil_output") {
        (HoleType::Int32, true)
    } else {
        (HoleType::Pointer, false)
    }
}

/// Once a prefix of the symbol table fails to classify, every longer
/// prefix fails with the same error.
proof fn lemma_classify_err_persists(
    syms: Seq<SymModel>,
    data: Seq<u8>,
    text_off: u64,
    i: int,
    j: int,
)
    requires
        0 <= i <= j <= syms.len(),
        spec_classify_symbols(syms.take(i), data, text_off) is Err,
    ensures
        spec_classify_symbols(syms.take(j), data, text_off) == spec_classify_symbols(
            syms.take(i),
            data,
            text_off,
        ),
    decreases j - i,
{
    if i < j {
        lemma_classify_err_persists(syms, data, text_off, i, j - 1);
        assert(syms.take(j).drop_last() =~= syms.take(j - 1));
    }
}

/// Classification correctness, rule one: a name with the large-value
/// prefix classifies as an internal 8-byte integer hole.
pub proof fn lemma_classify_large_value(name: Seq<char>)
    requires
        large_value_prefix().is_prefix_of(name),
    ensures
        spec_classify(name) == (HoleType::Int64, true),
{
}

/// Classification correctness, rule two: a name with the small-value
/// prefix classifies as an internal 4-byte integer hole.
pub proof fn lemma_classify_small_value(name: Seq<char>)
    requires
        small_value_prefix().is_prefix_of(name),
    ensures
        spec_classify(name) == (HoleType::Int32, true),
{
    reveal_strlit("cnp_large_value_hole");
    reveal_strlit("cnp_small_value_hole");
    if large_value_prefix().is_prefix_of(name) {
        assert(large_value_prefix() =~= name.subrange(0, 20));
        assert(small_value_prefix() =~= name.subrange(0, 20));
        assert(large_value_prefix()[4] == name.subrange(0, 20)[4]);
        assert(small_value_prefix()[4] == name.subrange(0, 20)[4]);
        assert(large_value_prefix()[4] == 'l');
        assert(small_value_prefix()[4] == 's');
        assert(false);
    }
}

/// Classification correctness, rule three: a name with the
/// near-function prefix classifies as an internal 4-byte integer hole.
pub proof fn lemma_classify_near_func(name: Seq<char>)
    requires
        near_func_prefix().is_prefix_of(name),
    ensures
        spec_classify(name) == (HoleType::Int32, true),
{
    reveal_strlit("cnp_large_value_hole");
    reveal_strlit("cnp_small_value_hole");
    reveal_strlit("cnp_near_func_hole");
    assert(near_func_prefix() =~= name.subrange(0, 18));
    assert(near_func_prefix()[4] == name.subrange(0, 18)[4]);
    assert(name.subrange(0, 18)[4] == name[4]);
    assert(near_func_prefix()[4] == 'n');
    if large_value_prefix().is_prefix_of(name) {
        assert(large_value_prefix() =~= name.subrange(0, 20));
        assert(large_value_prefix()[4] == name.subrange(0, 20)[4]);
        assert(name.subrange(0, 20)[4] == name[4]);
        assert(large_value_prefix()[4] == 'l');
        assert(false);
    }
    if small_value_prefix().is_prefix_of(name) {
        assert(small_value_prefix() =~= name.subrange(0, 20));
        assert(small_value_prefix()[4] == name.subrange(0, 20)[4]);
        assert(name.subrange(0, 20)[4] == name[4]);
        assert(small_value_prefix()[4] == 's');
        assert(false);
    }
}

/// Classification correctness, rule four: a name with the far-function
/// prefix classifies as an internal pointer-sized hole.
pub proof fn lemma_classify_far_fun(name: Seq<char>)
    requires
        far_fun_prefix().is_prefix_of(name),
    ensures
        spec_classify(name) == (HoleType::Pointer, true),
{
    reveal_strlit("cnp_large_value_hole");
    reveal_strlit("cnp_small_value_hole");
    reveal_strlit("cnp_near_func_hole");
    reveal_strlit("cnp_far_fun_hole");
    assert(far_fun_prefix() =~= name.subrange(0, 16));
    assert(far_fun_prefix()[4] == name.subrange(0, 16)[4]);
    assert(name.subrange(0, 16)[4] == name[4]);
    assert(far_fun_prefix()[4] == 'f');
    if large_value_prefix().is_prefix_of(name) {
        assert(large_value_prefix() =~= name.subrange(0, 20));
        assert(large_value_prefix()[4] == name.subrange(0, 20)[4]);
        assert(name.subrange(0, 20)[4] == name[4]);
        assert(large_value_prefix()[4] == 'l');
        assert(false);
    }
    if small_value_prefix().is_prefix_of(name) {
        assert(small_value_prefix() =~= name.subrange(0, 20));
        assert(small_value_prefix()[4] == name.subrange(0, 20)[4]);
        assert(name.subrange(0, 20)[4] == name[4]);
        assert(small_value_prefix()[4] == 's');
        assert(false);
    }
    if near_func_prefix().is_prefix_of(name) {
        assert(near_func_prefix() =~= name.subrange(0, 18));
        assert(near_func_prefix()[4] == name.subrange(0, 18)[4]);
        assert(name.subrange(0, 18)[4] == name[4]);
        assert(near_func_prefix()[4] == 'n');
        assert(false);
    }
}

/// Classification correctness, rule five: the stencil-output sentinel
/// name classifies as an internal 4-byte integer hole.
pub proof fn lemma_classify_stencil_output(name: Seq<char>)
    requires
        name == stencil_output_name(),
    ensures
        spec_classify(name) == (HoleType::Int32, true),
{
    reveal_strlit("cnp_large_value_hole");
    reveal_strlit("cnp_small_value_hole");
    reveal_strlit("cnp_near_func_hole");
    reveal_strlit("cnp_far_fun_hole");
    reveal_strlit("cnp_stencil_output");
    assert(name[4] == 's');
    if near_func_prefix().is_prefix_of(name) {
        assert(near_func_prefix() =~= name.subrange(0, 18));
        assert(near_func_prefix()[4] == name.subrange(0, 18)[4]);
        assert(name.subrange(0, 18)[4] == name[4]);
        assert(near_func_prefix()[4] == 'n');
        assert(false);
    }
    if far_fun_prefix().is_prefix_of(name) {
        assert(far_fun_prefix() =~= name.subrange(0, 16));
        assert(far_fun_prefix()[4] == name.subrange(0, 16)[4]);
        assert(name.subrange(0, 16)[4] == name[4]);
        assert(far_fun_prefix()[4] == 'f');
        assert(false);
    }
}

/// Classification correctness, the default rule: any other name
/// classifies as an external pointer-sized hole.
pub proof fn lemma_classify_external(name: Seq<char>)
    requires
        !large_value_prefix().is_prefix_of(name),
        !small_value_prefix().is_prefix_of(name),
        !near_func_prefix().is_prefix_of(name),
        !far_fun_prefix().is_prefix_of(name),
        name != stencil_output_name(),
    ensures
        spec_classify(name) == (HoleType::Pointer, false),
{
}

/// A freshly classified stencil carries exactly `size` code bytes and no
/// relocations or hole references yet.
pub proof fn lemma_classify_fresh(
    syms: Seq<SymModel>,
    data: Seq<u8>,
    text_off: u64,
    sts: Seq<StencilModel>,
    hos: Seq<HoleModel>,
)
    requires
        spec_classify_symbols(syms, data, text_off) == Ok::<_, ExtractError>((sts, hos)),
    ensures
        forall|j: int| 0 <= j < sts.len() ==> (#[trigger] sts[j]).code.len() == sts[j].size
            && sts[j].relocs.len() == 0 && sts[j].holes.len() == 0,
    decreases syms.len(),
{
    if syms.len() > 0 {
        match spec_classify_symbols(syms.drop_last(), data, text_off) {
            Ok((psts, phos)) => {
                lemma_classify_fresh(syms.drop_last(), data, text_off, psts, phos);
            },
            Err(_) => {
                assert(false);
            },
        }
    }
}

/// Whether `st` is the stencil extracted for some global function symbol
/// of the table: its code is exactly the bytes
/// `[text_off + value, text_off + value + size)` of the input.
pub open spec fn stencil_from_symbol(
    syms: Seq<SymModel>,
    data: Seq<u8>,
    text_off: u64,
    st: StencilModel,
) -> bool {
    exists|i: int|
        0 <= i < syms.len() && #[trigger] sym_is_stencil(syms[i]) && syms[i].name is Some
            && text_off + syms[i].value + syms[i].size <= data.len() && st == spec_stencil_of(
            syms[i],
            data,
            text_off,
        )
}

/// Stencil extraction correctness: every extracted stencil comes from a
/// global function symbol of the table, and its code is exactly the
/// bytes `[text_off + value, text_off + value + size)` of the input.
pub proof fn lemma_stencil_extraction(
    syms: Seq<SymModel>,
    data: Seq<u8>,
    text_off: u64,
    sts: Seq<StencilModel>,
    hos: Seq<HoleModel>,
)
    requires
        spec_classify_symbols(syms, data, text_off) == Ok::<_, ExtractError>((sts, hos)),
    ensures
        forall|j: int|
            0 <= j < sts.len() ==> #[trigger] stencil_from_symbol(syms, data, text_off, sts[j]),
    decreases syms.len(),
{
    if syms.len() > 0 {
        match spec_classify_symbols(syms.drop_last(), data, text_off) {
            Ok((psts, phos)) => {
                lemma_stencil_extraction(syms.drop_last(), data, text_off, psts, phos);
                let s = syms.last();
                assert forall|j: int| 0 <= j < sts.len() implies #[trigger] stencil_from_symbol(
                    syms,
                    data,
                    text_off,
                    sts[j],
                ) by {
                    if j < psts.len() {
                        assert(sts[j] == psts[j]);
                        assert(stencil_from_symbol(syms.drop_last(), data, text_off, psts[j]));
                        let i = choose|i: int|
                            0 <= i < syms.drop_last().len() && #[trigger] sym_is_stencil(
                                syms.drop_last()[i],
                            ) && syms.drop_last()[i].name is Some && text_off
                                + syms.drop_last()[i].value + syms.drop_last()[i].size
                                <= data.len() && psts[j] == spec_stencil_of(
                                syms.drop_last()[i],
                                data,
                                text_off,
                            );
                        assert(syms.drop_last()[i] == syms[i]);
                        assert(sym_is_stencil(syms[i]));
                    } else {
                        let i = syms.len() - 1;
                        assert(sym_is_stencil(syms[i]));
                        assert(sts[j] == spec_stencil_of(syms[i], data, text_off));
                    }
                }
            },
            Err(_) => {
                assert(false);
            },
        }
    }
}

/// Whether the stencil list `sts` holds the stencil `st`.
pub open spec fn stencil_registered(sts: Seq<StencilModel>, st: StencilModel) -> bool {
    exists|j: int| 0 <= j < sts.len() && #[trigger] sts[j] == st
}

/// Stencil extraction completeness: every global function symbol of a
/// table that classifies successfully has a resolvable name and a code
/// range inside the buffer, and its stencil stands in the list.
pub proof fn lemma_stencil_registry(
    syms: Seq<SymModel>,
    data: Seq<u8>,
    text_off: u64,
    sts: Seq<StencilModel>,
    hos: Seq<HoleModel>,
)
    requires
        spec_classify_symbols(syms, data, text_off) == Ok::<_, ExtractError>((sts, hos)),
    ensures
        forall|i: int|
            0 <= i < syms.len() && #[trigger] sym_is_stencil(syms[i]) ==> syms[i].name is Some
                && text_off + syms[i].value + syms[i].size <= data.len() && stencil_registered(
                sts,
                spec_stencil_of(syms[i], data, text_off),
            ),
    decreases syms.len(),
{
    if syms.len() > 0 {
        match spec_classify_symbols(syms.drop_last(), data, text_off) {
            Ok((psts, phos)) => {
                lemma_stencil_registry(syms.drop_last(), data, text_off, psts, phos);
                let last = syms.len() - 1;
                assert forall|i: int|
                    0 <= i < syms.len() && #[trigger] sym_is_stencil(syms[i]) implies syms[i].name is Some
                    && text_off + syms[i].value + syms[i].size <= data.len() && stencil_registered(
                    sts,
                    spec_stencil_of(syms[i], data, text_off),
                ) by {
                    if i < last {
                        assert(syms.drop_last()[i] == syms[i]);
                        assert(sym_is_stencil(syms.drop_last()[i]));
                        assert(stencil_registered(
                            psts,
                            spec_stencil_of(syms.drop_last()[i], data, text_off),
                        ));
                        let j = choose|j: int|
                            0 <= j < psts.len() && #[trigger] psts[j] == spec_stencil_of(
                                syms.drop_last()[i],
                                data,
                                text_off,
                            );
                        assert(sts[j] == spec_stencil_of(syms[i], data, text_off));
                    } else {
                        assert(sts[sts.len() - 1] == spec_stencil_of(syms[last], data, text_off));
                    }
                }
            },
            Err(_) => {
                assert(false);
            },
        }
    }
}

/// Whether `h` is the hole produced for some symbol of the table that
/// is not a global function, carrying that symbol's table index and its
/// name's classification.
pub open spec fn hole_from_symbol(syms: Seq<SymModel>, h: HoleModel) -> bool {
    exists|i: int|
        0 <= i < syms.len() && !(#[trigger] sym_is_stencil(syms[i])) && syms[i].name is Some && h
            == spec_hole_of(syms[i], i as usize)
}

/// Whether the registry `hos` holds the hole `h`.
pub open spec fn hole_registered(hos: Seq<HoleModel>, h: HoleModel) -> bool {
    exists|j: int| 0 <= j < hos.len() && #[trigger] hos[j] == h
}

/// Classification correctness over the whole table: the holes registry
/// lists, in strictly increasing table order, exactly one hole for each
/// symbol that is not a global function, carrying that symbol's table
/// index and the datatype and internal flag its name classifies to.
pub proof fn lemma_hole_registry(
    syms: Seq<SymModel>,
    data: Seq<u8>,
    text_off: u64,
    sts: Seq<StencilModel>,
    hos: Seq<HoleModel>,
)
    requires
        syms.len() <= usize::MAX,
        spec_classify_symbols(syms, data, text_off) == Ok::<_, ExtractError>((sts, hos)),
    ensures
        forall|j: int| 0 <= j < hos.len() ==> hole_from_symbol(syms, #[trigger] hos[j]),
        forall|i: int|
            0 <= i < syms.len() && !(#[trigger] sym_is_stencil(syms[i])) ==> syms[i].name is Some
                && hole_registered(hos, spec_hole_of(syms[i], i as usize)),
        forall|j1: int, j2: int| 0 <= j1 < j2 < hos.len() ==> hos[j1].index < hos[j2].index,
        forall|j: int| 0 <= j < hos.len() ==> (#[trigger] hos[j]).index < syms.len(),
    decreases syms.len(),
{
    if syms.len() > 0 {
        match spec_classify_symbols(syms.drop_last(), data, text_off) {
            Ok((psts, phos)) => {
                lemma_hole_registry(syms.drop_last(), data, text_off, psts, phos);
                let s = syms.last();
                let last = syms.len() - 1;
                assert forall|j: int| 0 <= j < hos.len() implies hole_from_symbol(
                    syms,
                    #[trigger] hos[j],
                ) by {
                    if j < phos.len() {
                        assert(hole_from_symbol(syms.drop_last(), phos[j]));
                        let i = choose|i: int|
                            0 <= i < syms.drop_last().len() && !(#[trigger] sym_is_stencil(
                                syms.drop_last()[i],
                            )) && syms.drop_last()[i].name is Some && phos[j] == spec_hole_of(
                                syms.drop_last()[i],
                                i as usize,
                            );
                        assert(syms.drop_last()[i] == syms[i]);
                        assert(!sym_is_stencil(syms[i]));
                    } else {
                        assert(hos[j] == spec_hole_of(syms[last], last as usize));
                        assert(!sym_is_stencil(syms[last]));
                    }
                }
                assert forall|i: int|
                    0 <= i < syms.len() && !(#[trigger] sym_is_stencil(syms[i])) implies syms[i].name is Some
                    && hole_registered(hos, spec_hole_of(syms[i], i as usize)) by {
                    if i < last {
                        assert(syms.drop_last()[i] == syms[i]);
                        assert(!sym_is_stencil(syms.drop_last()[i]));
                        assert(hole_registered(phos, spec_hole_of(syms.drop_last()[i], i as usize)));
                        let j = choose|j: int|
                            0 <= j < phos.len() && #[trigger] phos[j] == spec_hole_of(
                                syms.drop_last()[i],
                                i as usize,
                            );
                        assert(hos[j] == spec_hole_of(syms[i], i as usize));
                    } else {
                        assert(hos[hos.len() - 1] == spec_hole_of(syms[last], last as usize));
                    }
                }
                assert forall|j: int| 0 <= j < hos.len() implies (#[trigger] hos[j]).index
                    < syms.len() by {
                    if !sym_is_stencil(s) && j < hos.len() - 1 {
                        assert(hos[j] == phos[j]);
                        assert(phos[j].index < syms.drop_last().len());
                    } else if sym_is_stencil(s) {
                        assert(hos[j] == phos[j]);
                        assert(phos[j].index < syms.drop_last().len());
                    } else {
                        assert(hos[j].index == last as usize);
                    }
                }
                assert forall|j1: int, j2: int| 0 <= j1 < j2 < hos.len() implies hos[j1].index
                    < hos[j2].index by {
                    if !sym_is_stencil(s) && j2 == hos.len() - 1 {
                        assert(hos[j1] == phos[j1]);
                        assert(phos[j1].index < syms.drop_last().len());
                        assert(hos[j2].index == last as usize);
                    } else {
                        assert(hos[j1] == phos[j1]);
                        assert(hos[j2] == phos[j2]);
                        assert(phos[j1].index < phos[j2].index);
                    }
                }
            },
            Err(_) => {
                assert(false);
            },
        }
    }
}

/// Classify every symbol of the table in order, producing the stencil
/// list and the holes registry, or the first error of the pass.
pub fn classify_symbols(symbols: &Vec<SymbolRec>, data: &Vec<u8>, text_offset: u64) -> (r: Result<
    (Vec<Stencil>, Vec<Hole>),
    ExtractError,
>)
    ensures
        classify_result_model(r) == spec_classify_symbols(symbols.deep_view(), data@, text_offset),
{
    let ghost syms = symbols.deep_view();
    let mut stencils: Vec<Stencil> = Vec::new();
    let mut holes: Vec<Hole> = Vec::new();
    let n = symbols.len();
    let mut i: usize = 0;
    proof {
        assert(syms.take(0) =~= Seq::<SymModel>::empty());
        assert(stencils.deep_view() =~= Seq::<StencilModel>::empty());
        assert(holes.deep_view() =~= Seq::<HoleModel>::empty());
    }
    while i < n
        invariant
            n == symbols.len(),
            i <= n,
            syms == symbols.deep_view(),
            spec_classify_symbols(syms.take(i as int), data@, text_offset) == Ok::<
                _,
                ExtractError,
            >((stencils.deep_view(), holes.deep_view())),
        decreases n - i,
    {
        let ghost prev = syms.take(i as int);
        let ghost cur = syms.take(i + 1);
        proof {
            assert(cur.drop_last() =~= prev);
            assert(cur.last() == syms[i as int]);
        }
        let sym = &symbols[i];
        let name = match &sym.name {
            Some(name) => name,
            None => {
                proof {
                    lemma_classify_err_persists(syms, data@, text_offset, i + 1, syms.len() as int);
                    assert(syms.take(syms.len() as int) =~= syms);
                }
                return Err(ExtractError::MissingSymbolName);
            },
        };
        if sym.info >> 4 != STB_GLOBAL || sym.info & 0x0f != STT_FUNC {
            let (datatype, internal) = classify_hole_name(name.as_str());
            let ghost old_holes = holes.deep_view();
            holes.push(Hole { name: name.clone(), index: i, datatype, internal });
            proof {
                assert(holes.deep_view() =~= old_holes.push(spec_hole_of(syms[i as int], i)));
            }
        } else {
            let dlen: u64 = data.len() as u64;
            if text_offset > dlen || sym.value > dlen - text_offset || sym.size > dlen
                - text_offset - sym.value {
                proof {
                    lemma_classify_err_persists(syms, data@, text_offset, i + 1, syms.len() as int);
                    assert(syms.take(syms.len() as int) =~= syms);
                }
                return Err(ExtractError::OutOfRangeCode);
            }
            let start: usize = (text_offset + sym.value) as usize;
            let count: usize = sym.size as usize;
            let mut code: Vec<u8> = Vec::new();
            let mut k: usize = 0;
            while k < count
        invariant
            k <= count,
            start + count <= data.len(),
            code@ =~= data@.subrange(start as int, start as int + k),
        decreases count - k,
            {
                code.push(data[start + k]);
                proof {
                    assert(code@ =~= data@.subrange(start as int, start as int + k + 1));
                }
                k = k + 1;
            }
            let ghost old_stencils = stencils.deep_view();
            let stencil = Stencil {
                name: name.clone(),
                address: sym.value,
                size: sym.size,
                code,
                relocs: Vec::new(),
                holes: Vec::new(),
            };
            proof {
                assert(stencil@ =~= spec_stencil_of(syms[i as int], data@, text_offset));
            }
            stencils.push(stencil);
            proof {
                assert(stencils.deep_view() =~= old_stencils.push(
                    spec_stencil_of(syms[i as int], data@, text_offset),
                ));
            }
        }
        i = i + 1;
    }
    proof {
        assert(syms.take(n as int) =~= syms);
    }
    Ok((stencils, holes))
}

} // verus!
