//! Relocation mapping: attach each relocation record of the code section
//! to the stencil whose address range contains its target, rewrite its
//! offset to be stencil-relative, and bind it to the hole it references.

use vstd::prelude::*;

use crate::loader::reloc_kind_name;
use crate::loader::reloc_type_name;
use crate::model::{ExtractError, Hole, HoleModel, RelModel, Reloc, RelocModel, RelocRec, Stencil,
    StencilModel};

verus! {

/// Whether the stencil's address range `[address, address + size)`
/// contains the target offset `off`.
pub open spec fn stencil_contains(s: StencilModel, off: u64) -> bool {
    s.address <= off < s.address + s.size
}

/// The first stencil at or after position `i` whose range contains `off`.
pub open spec fn spec_find_stencil_from(stencils: Seq<StencilModel>, off: u64, i: int) -> Option<
    int,
>
    recommends
        0 <= i <= stencils.len(),
    decreases stencils.len() - i,
{
    if i < 0 || i >= stencils.len() {
        None
    } else if stencil_contains(stencils[i], off) {
        Some(i)
    } else {
        spec_find_stencil_from(stencils, off, i + 1)
    }
}

/// The first stencil whose range contains the target offset `off`.
pub open spec fn spec_find_stencil(stencils: Seq<StencilModel>, off: u64) -> Option<int> {
    spec_find_stencil_from(stencils, off, 0)
}

/// The first hole at or after position `i` registered for symbol table
/// index `sym`.
pub open spec fn spec_find_hole_from(holes: Seq<HoleModel>, sym: usize, i: int) -> Option<int>
    recommends
        0 <= i <= holes.len(),
    decreases holes.len() - i,
{
    if i < 0 || i >= holes.len() {
        None
    } else if holes[i].index == sym {
        Some(i)
    } else {
        spec_find_hole_from(holes, sym, i + 1)
    }
}

/// The first hole registered for symbol table index `sym`.
pub open spec fn spec_find_hole(holes: Seq<HoleModel>, sym: usize) -> Option<int> {
    spec_find_hole_from(holes, sym, 0)
}

/// The stencil-relative relocation built from record `r` for the stencil
/// at position `i` of `stencils`, bound to the hole at position `h`.
pub open spec fn spec_reloc_of(r: RelModel, s: StencilModel, h: int) -> RelocModel {
    RelocModel {
        offset: (r.offset - s.address) as u64,
        addend: match r.addend {
            Some(a) => a,
            None => 0,
        },
        hole: h as usize,
        relocation: reloc_type_name(r.rtype),
    }
}

/// Attach one relocation record: find the containing stencil and the
/// referenced hole, and append the rewritten relocation to that stencil.
pub open spec fn spec_apply_reloc(
    stencils: Seq<StencilModel>,
    holes: Seq<HoleModel>,
    r: RelModel,
) -> Result<Seq<StencilModel>, ExtractError> {
    match spec_find_stencil(stencils, r.offset) {
        None => Err(ExtractError::UnmappedRelocation),
        Some(i) => match spec_find_hole(holes, r.sym) {
            None => Err(ExtractError::UnresolvedHoleReference),
            Some(h) => Ok(
                stencils.update(
                    i,
                    StencilModel {
                        relocs: stencils[i].relocs.push(spec_reloc_of(r, stencils[i], h)),
                        ..stencils[i]
                    },
                ),
            ),
        },
    }
}

/// The mapping pass over the relocation records in section order; the
/// first record that no stencil claims, or whose symbol index has no
/// registered hole, aborts the pass.
pub open spec fn spec_map_relocs(
    stencils: Seq<StencilModel>,
    holes: Seq<HoleModel>,
    rels: Seq<RelModel>,
) -> Result<Seq<StencilModel>, ExtractError>
    decreases rels.len(),
{
    if rels.len() == 0 {
        Ok(stencils)
    } else {
        match spec_map_relocs(stencils, holes, rels.drop_last()) {
            Err(e) => Err(e),
            Ok(st) => spec_apply_reloc(st, holes, rels.last()),
        }
    }
}

/// A successful search yields the first containing stencil.
pub proof fn lemma_find_stencil_some(stencils: Seq<StencilModel>, off: u64, i: int, j: int)
    requires
        0 <= i <= stencils.len(),
        spec_find_stencil_from(stencils, off, i) == Some(j),
    ensures
        i <= j < stencils.len(),
        stencil_contains(stencils[j], off),
        forall|k: int| i <= k < j ==> !stencil_contains(#[trigger] stencils[k], off),
    decreases stencils.len() - i,
{
    if i < stencils.len() && !stencil_contains(stencils[i], off) {
        lemma_find_stencil_some(stencils, off, i + 1, j);
    }
}

/// A successful search yields a hole registered for the symbol index.
pub proof fn lemma_find_hole_some(holes: Seq<HoleModel>, sym: usize, i: int, h: int)
    requires
        0 <= i <= holes.len(),
        spec_find_hole_from(holes, sym, i) == Some(h),
    ensures
        i <= h < holes.len(),
        holes[h].index == sym,
    decreases holes.len() - i,
{
    if i < holes.len() && holes[i].index != sym {
        lemma_find_hole_some(holes, sym, i + 1, h);
    }
}

/// Whether the stencils' address ranges are pairwise non-overlapping.
pub open spec fn ranges_disjoint(stencils: Seq<StencilModel>) -> bool {
    forall|a: int, b: int|
        0 <= a < b < stencils.len() ==> ((#[trigger] stencils[a]).address + stencils[a].size
            <= (#[trigger] stencils[b]).address || stencils[b].address + stencils[b].size
            <= stencils[a].address)
}

/// Relocation containment: when the stencils' ranges are pairwise
/// disjoint, an attached relocation lands in exactly one stencil, and
/// its rewritten offset is the original target minus that stencil's
/// address.
pub proof fn lemma_relocation_containment(
    stencils: Seq<StencilModel>,
    holes: Seq<HoleModel>,
    r: RelModel,
    out: Seq<StencilModel>,
)
    requires
        ranges_disjoint(stencils),
        spec_apply_reloc(stencils, holes, r) == Ok::<_, ExtractError>(out),
    ensures
        ({
            let i = spec_find_stencil(stencils, r.offset).unwrap();
            let h = spec_find_hole(holes, r.sym).unwrap();
            &&& 0 <= i < stencils.len()
            &&& stencil_contains(stencils[i], r.offset)
            &&& forall|k: int|
                0 <= k < stencils.len() && k != i ==> !stencil_contains(
                    #[trigger] stencils[k],
                    r.offset,
                )
            &&& 0 <= h < holes.len()
            &&& holes[h].index == r.sym
            &&& out == stencils.update(
                i,
                StencilModel {
                    relocs: stencils[i].relocs.push(spec_reloc_of(r, stencils[i], h)),
                    ..stencils[i]
                },
            )
            &&& spec_reloc_of(r, stencils[i], h).offset == r.offset - stencils[i].address
        }),
{
    let i = spec_find_stencil(stencils, r.offset).unwrap();
    let h = spec_find_hole(holes, r.sym).unwrap();
    lemma_find_stencil_some(stencils, r.offset, 0, i);
    lemma_find_hole_some(holes, r.sym, 0, h);
    assert forall|k: int| 0 <= k < stencils.len() && k != i implies !stencil_contains(
        #[trigger] stencils[k],
        r.offset,
    ) by {
        if k > i && stencil_contains(stencils[k], r.offset) {
            assert(stencil_contains(stencils[i], r.offset));
        }
    }
}

/// A successful mapping pass only appends relocations: every stencil
/// keeps its name, address, size, code and hole list, stays well formed,
/// and every appended relocation patches inside it and references a
/// registered hole.
pub proof fn lemma_map_preserves_wf(
    stencils: Seq<StencilModel>,
    holes: Seq<HoleModel>,
    rels: Seq<RelModel>,
    out: Seq<StencilModel>,
)
    requires
        spec_map_relocs(stencils, holes, rels) == Ok::<_, ExtractError>(out),
        forall|j: int|
            0 <= j < stencils.len() ==> crate::model::stencil_wf(
                #[trigger] stencils[j],
                holes.len(),
            ),
    ensures
        out.len() == stencils.len(),
        forall|j: int|
            0 <= j < out.len() ==> crate::model::stencil_wf(#[trigger] out[j], holes.len())
                && out[j].name == stencils[j].name && out[j].address == stencils[j].address
                && out[j].size == stencils[j].size && out[j].code == stencils[j].code
                && out[j].holes == stencils[j].holes,
    decreases rels.len(),
{
    if rels.len() > 0 {
        match spec_map_relocs(stencils, holes, rels.drop_last()) {
            Ok(mid) => {
                lemma_map_preserves_wf(stencils, holes, rels.drop_last(), mid);
                let r = rels.last();
                let i = spec_find_stencil(mid, r.offset).unwrap();
                let h = spec_find_hole(holes, r.sym).unwrap();
                lemma_find_stencil_some(mid, r.offset, 0, i);
                lemma_find_hole_some(holes, r.sym, 0, h);
            },
            Err(_) => {
                assert(false);
            },
        }
    }
}

/// The mapping pass, as a model of the executable result.
pub open spec fn map_result_model(r: Result<Vec<Stencil>, ExtractError>) -> Result<
    Seq<StencilModel>,
    ExtractError,
> {
    match r {
        Ok(stencils) => Ok(stencils.deep_view()),
        Err(e) => Err(e),
    }
}

/// Find the first stencil whose range contains the target offset.
fn find_stencil(stencils: &Vec<Stencil>, off: u64) -> (r: Option<usize>)
    ensures
        match r {
            Some(i) => spec_find_stencil(stencils.deep_view(), off) == Some(i as int) && i
                < stencils.len() && stencil_contains(stencils.deep_view()[i as int], off),
            None => spec_find_stencil(stencils.deep_view(), off) is None,
        },
{
    let ghost dv = stencils.deep_view();
    let mut i: usize = 0;
    while i < stencils.len()
        invariant
            i <= stencils.len(),
            dv == stencils.deep_view(),
            dv.len() == stencils.len(),
            spec_find_stencil(dv, off) == spec_find_stencil_from(dv, off, i as int),
        decreases stencils.len() - i,
    {
        let s = &stencils[i];
        if s.address <= off && off - s.address < s.size {
            return Some(i);
        }
        i = i + 1;
    }
    None
}

/// Find the first registered hole for the given symbol table index.
fn find_hole(holes: &Vec<Hole>, sym: usize) -> (r: Option<usize>)
    ensures
        match r {
            Some(h) => spec_find_hole(holes.deep_view(), sym) == Some(h as int) && h < holes.len()
                && holes.deep_view()[h as int].index == sym,
            None => spec_find_hole(holes.deep_view(), sym) is None,
        },
{
    let ghost dv = holes.deep_view();
    let mut i: usize = 0;
    while i < holes.len()
        invariant
            i <= holes.len(),
            dv == holes.deep_view(),
            dv.len() == holes.len(),
            spec_find_hole(dv, sym) == spec_find_hole_from(dv, sym, i as int),
        decreases holes.len() - i,
    {
        if holes[i].index == sym {
            return Some(i);
        }
        i = i + 1;
    }
    None
}

/// Errors of the mapping pass persist over longer record prefixes.
proof fn lemma_map_err_persists(
    stencils: Seq<StencilModel>,
    holes: Seq<HoleModel>,
    rels: Seq<RelModel>,
    i: int,
    j: int,
)
    requires
        0 <= i <= j <= rels.len(),
        spec_map_relocs(stencils, holes, rels.take(i)) is Err,
    ensures
        spec_map_relocs(stencils, holes, rels.take(j)) == spec_map_relocs(
            stencils,
            holes,
            rels.take(i),
        ),
    decreases j - i,
{
    if i < j {
        lemma_map_err_persists(stencils, holes, rels, i, j - 1);
        assert(rels.take(j).drop_last() =~= rels.take(j - 1));
    }
}

/// Attach every relocation record to the stencil that contains it, or
/// report the first record that cannot be mapped.  The stencil list is
/// taken and returned so that a failed pass yields no partial result.
pub fn map_relocations(stencils: Vec<Stencil>, holes: &Vec<Hole>, rels: &Vec<RelocRec>) -> (r:
    Result<Vec<Stencil>, ExtractError>)
    ensures
        map_result_model(r) == spec_map_relocs(
            stencils.deep_view(),
            holes.deep_view(),
            rels.deep_view(),
        ),
{
    let ghost sdv = stencils.deep_view();
    let ghost rdv = rels.deep_view();
    let mut out = stencils;
    let n = rels.len();
    let mut i: usize = 0;
    proof {
        assert(rdv.take(0) =~= Seq::<RelModel>::empty());
    }
    while i < n
        invariant
            n == rels.len(),
            i <= n,
            sdv == stencils.deep_view(),
            rdv == rels.deep_view(),
            spec_map_relocs(sdv, holes.deep_view(), rdv.take(i as int)) == Ok::<_, ExtractError>(
                out.deep_view(),
            ),
        decreases n - i,
    {
        let ghost cur = rdv.take(i + 1);
        proof {
            assert(cur.drop_last() =~= rdv.take(i as int));
            assert(cur.last() == rdv[i as int]);
        }
        let rec = &rels[i];
        let si = match find_stencil(&out, rec.offset) {
            Some(si) => si,
            None => {
                proof {
                    lemma_map_err_persists(sdv, holes.deep_view(), rdv, i + 1, rdv.len() as int);
                    assert(rdv.take(rdv.len() as int) =~= rdv);
                }
                return Err(ExtractError::UnmappedRelocation);
            },
        };
        let h = match find_hole(holes, rec.sym) {
            Some(h) => h,
            None => {
                proof {
                    lemma_map_err_persists(sdv, holes.deep_view(), rdv, i + 1, rdv.len() as int);
                    assert(rdv.take(rdv.len() as int) =~= rdv);
                }
                return Err(ExtractError::UnresolvedHoleReference);
            },
        };
        let ghost before = out.deep_view();
        let offset = rec.offset - out[si].address;
        let addend = match rec.addend {
            Some(a) => a,
            None => 0,
        };
        let reloc = Reloc { offset, addend, hole: h, relocation: reloc_kind_name(rec.rtype) };
        proof {
            assert(reloc@ =~= spec_reloc_of(rdv[i as int], before[si as int], h as int));
        }
        let mut stencil = out.remove(si);
        stencil.relocs.push(reloc);
        out.insert(si, stencil);
        proof {
            assert(out.deep_view() =~~= before.update(
                si as int,
                StencilModel {
                    relocs: before[si as int].relocs.push(
                        spec_reloc_of(rdv[i as int], before[si as int], h as int),
                    ),
                    ..before[si as int]
                },
            ));
        }
        i = i + 1;
    }
    proof {
        assert(rdv.take(n as int) =~= rdv);
    }
    Ok(out)
}

} // verus!
