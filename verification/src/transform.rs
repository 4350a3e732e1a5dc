//! The two stencil-shaping transforms: trailing-jump elision, which
//! removes a redundant unconditional jump to the stencil-output slot at a
//! stencil's end, and hole-list population, which lists the distinct
//! holes each stencil references in first-reference order.

use vstd::prelude::*;

use crate::classify::stencil_output_name;
use crate::model::{Hole, HoleModel, RelocModel, Stencil, StencilModel};
use crate::strutil::str_eq;

verus! {

/// The five-byte pattern of an elidable trailing jump: the `E9` near-jump
/// opcode followed by a zeroed placeholder displacement.
pub open spec fn jump_pattern() -> Seq<u8> {
    seq![0xe9u8, 0u8, 0u8, 0u8, 0u8]
}

/// Whether trailing-jump elision applies to `s` against the holes
/// registry: the last relocation patches the final four bytes of the
/// declared size, it references the stencil-output sentinel hole, the
/// code still covers the declared size, and the five bytes ending it are
/// exactly the jump pattern.
pub open spec fn spec_trim_applies(s: StencilModel, holes: Seq<HoleModel>) -> bool {
    &&& s.relocs.len() > 0
    &&& s.size >= 5
    &&& s.relocs.last().offset == s.size - 4
    &&& s.relocs.last().hole < holes.len()
    &&& holes[s.relocs.last().hole as int].name == stencil_output_name()
    &&& s.size <= s.code.len()
    &&& s.code.subrange(s.size - 5, s.size as int) == jump_pattern()
}

/// The stencil after trailing-jump elision: the five pattern bytes and
/// the final relocation removed when the check applies, the stencil
/// untouched otherwise.  The declared `size` stays, so a trimmed stencil
/// can never satisfy the check again.
pub open spec fn spec_trim(s: StencilModel, holes: Seq<HoleModel>) -> StencilModel {
    if spec_trim_applies(s, holes) {
        StencilModel { code: s.code.take(s.size - 5), relocs: s.relocs.drop_last(), ..s }
    } else {
        s
    }
}

/// Trailing-jump elision is idempotent: eliding twice is eliding once.
pub proof fn lemma_trim_idempotent(s: StencilModel, holes: Seq<HoleModel>)
    ensures
        spec_trim(spec_trim(s, holes), holes) == spec_trim(s, holes),
{
    if spec_trim_applies(s, holes) {
        let t = spec_trim(s, holes);
        assert(t.code.len() == s.size - 5);
        assert(!spec_trim_applies(t, holes));
    }
}

/// Whether trailing-jump elision applies to this stencil.
fn trim_applies(s: &Stencil, holes: &Vec<Hole>) -> (r: bool)
    ensures
        r == spec_trim_applies(s@, holes.deep_view()),
{
    if s.relocs.len() == 0 {
        return false;
    }
    if s.size < 5 {
        return false;
    }
    let last = &s.relocs[s.relocs.len() - 1];
    if last.offset != s.size - 4 {
        return false;
    }
    if last.hole >= holes.len() {
        return false;
    }
    if !str_eq(holes[last.hole].name.as_str(), "cnp_stencil_output") {
        return false;
    }
    if (s.code.len() as u64) < s.size {
        return false;
    }
    let base: usize = (s.size - 5) as usize;
    let tail_matches = s.code[base] == 0xe9 && s.code[base + 1] == 0 && s.code[base + 2] == 0 && s.code[
        base + 3] == 0 && s.code[base + 4] == 0;
    proof {
        if tail_matches {
            assert(s@.code.subrange(s@.size - 5, s@.size as int) =~= jump_pattern());
        } else {
            assert(s@.code.subrange(s@.size - 5, s@.size as int) != jump_pattern()) by {
                if s@.code.subrange(s@.size - 5, s@.size as int) == jump_pattern() {
                    assert(s@.code[s@.size - 5] == jump_pattern()[0]);
                    assert(s@.code[s@.size - 4] == jump_pattern()[1]);
                    assert(s@.code[s@.size - 3] == jump_pattern()[2]);
                    assert(s@.code[s@.size - 2] == jump_pattern()[3]);
                    assert(s@.code[s@.size - 1] == jump_pattern()[4]);
                }
            }
        }
    }
    tail_matches
}

/// Elide the trailing jump of every stencil to which the exact check
/// applies: a stencil that ends by jumping to the next stencil in the
/// chain can fall through instead, so the five jump bytes and the final
/// relocation are removed; any divergence leaves the stencil untouched.
pub fn trim_trailing_jmp(stencils: &mut Vec<Stencil>, holes: &Vec<Hole>)
    ensures
        final(stencils).deep_view() == old(stencils).deep_view().map_values(
            |s: StencilModel| spec_trim(s, holes.deep_view()),
        ),
{
    let ghost orig = stencils.deep_view();
    let ghost hdv = holes.deep_view();
    let n = stencils.len();
    let mut i: usize = 0;
    while i < n
        invariant
            i <= n,
            n == stencils.len(),
            hdv == holes.deep_view(),
            orig.len() == n,
            forall|k: int| 0 <= k < i ==> stencils.deep_view()[k] == spec_trim(orig[k], hdv),
            forall|k: int| i <= k < n ==> stencils.deep_view()[k] == orig[k],
        decreases n - i,
    {
        let ghost before = stencils.deep_view();
        if trim_applies(&stencils[i], holes) {
            let mut stencil = stencils.remove(i);
            let newlen: usize = (stencil.size - 5) as usize;
            stencil.code.truncate(newlen);
            stencil.relocs.pop();
            stencils.insert(i, stencil);
            proof {
                assert(stencils.deep_view() =~~= before.update(
                    i as int,
                    spec_trim(orig[i as int], hdv),
                ));
            }
        }
        i = i + 1;
    }
    proof {
        assert(stencils.deep_view() =~~= orig.map_values(
            |s: StencilModel| spec_trim(s, hdv),
        ));
    }
}

/// The distinct hole references of `relocs`, in first-reference order,
/// appended to those already in `acc`.
pub open spec fn spec_hole_acc(acc: Seq<usize>, relocs: Seq<RelocModel>) -> Seq<usize>
    decreases relocs.len(),
{
    if relocs.len() == 0 {
        acc
    } else {
        let prev = spec_hole_acc(acc, relocs.drop_last());
        if prev.contains(relocs.last().hole) {
            prev
        } else {
            prev.push(relocs.last().hole)
        }
    }
}

/// The distinct hole references of `relocs`, in first-reference order.
pub open spec fn spec_hole_list(relocs: Seq<RelocModel>) -> Seq<usize> {
    spec_hole_acc(Seq::empty(), relocs)
}

/// Whether some relocation of `relocs` references hole `h`.
pub open spec fn spec_referenced(relocs: Seq<RelocModel>, h: usize) -> bool {
    exists|k: int| 0 <= k < relocs.len() && (#[trigger] relocs[k]).hole == h
}

/// The position of the first relocation of `relocs` referencing `h`.
pub open spec fn spec_first_ref(relocs: Seq<RelocModel>, h: usize) -> int
    recommends
        spec_referenced(relocs, h),
    decreases relocs.len(),
{
    if relocs.len() == 0 {
        0
    } else if spec_referenced(relocs.drop_last(), h) {
        spec_first_ref(relocs.drop_last(), h)
    } else {
        relocs.len() - 1
    }
}

/// The first reference to a referenced hole is a position of `relocs`
/// that indeed references it.
pub proof fn lemma_first_ref(relocs: Seq<RelocModel>, h: usize)
    requires
        spec_referenced(relocs, h),
    ensures
        0 <= spec_first_ref(relocs, h) < relocs.len(),
        relocs[spec_first_ref(relocs, h)].hole == h,
    decreases relocs.len(),
{
    if relocs.len() == 0 {
    } else if spec_referenced(relocs.drop_last(), h) {
        lemma_first_ref(relocs.drop_last(), h);
    } else {
        let k = choose|k: int| 0 <= k < relocs.len() && (#[trigger] relocs[k]).hole == h;
        if k < relocs.len() - 1 {
            assert(relocs.drop_last()[k].hole == h);
        }
    }
}

/// Accumulating distinct hole references keeps the list distinct, and
/// everything listed comes from the accumulator or from a relocation.
pub proof fn lemma_hole_acc(acc: Seq<usize>, relocs: Seq<RelocModel>)
    requires
        forall|a: int, b: int| 0 <= a < b < acc.len() ==> acc[a] != acc[b],
    ensures
        ({
            let l = spec_hole_acc(acc, relocs);
            &&& forall|a: int, b: int| 0 <= a < b < l.len() ==> l[a] != l[b]
            &&& forall|h: usize|
                #[trigger] l.contains(h) <==> (acc.contains(h) || spec_referenced(relocs, h))
        }),
    decreases relocs.len(),
{
    let l = spec_hole_acc(acc, relocs);
    if relocs.len() == 0 {
        assert forall|h: usize| #[trigger] l.contains(h) implies (acc.contains(h)
            || spec_referenced(relocs, h)) by {}
    } else {
        let r = relocs.drop_last();
        lemma_hole_acc(acc, r);
        let lp = spec_hole_acc(acc, r);
        let hstar = relocs.last().hole;
        assert(relocs[relocs.len() - 1].hole == hstar);
        assert forall|h: usize| spec_referenced(r, h) implies spec_referenced(relocs, h) by {
            let k = choose|k: int| 0 <= k < r.len() && (#[trigger] r[k]).hole == h;
            assert(relocs[k].hole == h);
        }
        assert forall|h: usize|
            spec_referenced(relocs, h) && h != hstar implies spec_referenced(r, h) by {
            let k = choose|k: int| 0 <= k < relocs.len() && (#[trigger] relocs[k]).hole == h;
            assert(r[k].hole == h);
        }
        if lp.contains(hstar) {
            assert forall|h: usize| #[trigger] l.contains(h) implies (acc.contains(h)
                || spec_referenced(relocs, h)) by {}
            assert forall|h: usize|
                acc.contains(h) || spec_referenced(relocs, h) implies #[trigger] l.contains(
                h,
            ) by {
                if spec_referenced(relocs, h) && !spec_referenced(r, h) {
                    assert(h == hstar);
                }
            }
        } else {
            assert(l == lp.push(hstar));
            assert forall|a: int, b: int| 0 <= a < b < l.len() implies l[a] != l[b] by {
                if b == l.len() - 1 {
                    assert(lp.contains(lp[a]));
                }
            }
            assert forall|h: usize| #[trigger] l.contains(h) implies (acc.contains(h)
                || spec_referenced(relocs, h)) by {
                if h != hstar {
                    assert(lp.contains(h)) by {
                        let k = choose|k: int| 0 <= k < l.len() && l[k] == h;
                        assert(lp[k] == h);
                    }
                }
            }
            assert forall|h: usize|
                acc.contains(h) || spec_referenced(relocs, h) implies #[trigger] l.contains(
                h,
            ) by {
                if h == hstar {
                    assert(l[l.len() - 1] == hstar);
                } else {
                    if spec_referenced(relocs, h) {
                        assert(spec_referenced(r, h));
                    }
                    assert(lp.contains(h));
                    let k = choose|k: int| 0 <= k < lp.len() && lp[k] == h;
                    assert(l[k] == h);
                }
            }
        }
    }
}

/// Hole-list determinism: the computed list holds each hole referenced
/// by the relocations exactly once, ordered by first reference.
pub proof fn lemma_hole_list_determinism(relocs: Seq<RelocModel>)
    ensures
        ({
            let l = spec_hole_list(relocs);
            &&& forall|a: int, b: int| 0 <= a < b < l.len() ==> l[a] != l[b]
            &&& forall|h: usize| #[trigger] l.contains(h) <==> spec_referenced(relocs, h)
            &&& forall|a: int, b: int|
                0 <= a < b < l.len() ==> spec_first_ref(relocs, l[a]) < spec_first_ref(
                    relocs,
                    l[b],
                )
        }),
    decreases relocs.len(),
{
    let l = spec_hole_list(relocs);
    lemma_hole_acc(Seq::empty(), relocs);
    assert forall|h: usize| #[trigger] l.contains(h) <==> spec_referenced(relocs, h) by {
        assert(!Seq::<usize>::empty().contains(h));
    }
    if relocs.len() > 0 {
        let r = relocs.drop_last();
        lemma_hole_list_determinism(r);
        let lp = spec_hole_list(r);
        let hstar = relocs.last().hole;
        assert(relocs[relocs.len() - 1].hole == hstar);
        assert forall|h: usize| spec_referenced(r, h) implies spec_referenced(relocs, h)
            && spec_first_ref(relocs, h) == spec_first_ref(r, h) by {
            let k = choose|k: int| 0 <= k < r.len() && (#[trigger] r[k]).hole == h;
            assert(relocs[k].hole == h);
        }
        if lp.contains(hstar) {
            assert(l == lp);
            assert forall|a: int, b: int| 0 <= a < b < l.len() implies spec_first_ref(
                relocs,
                l[a],
            ) < spec_first_ref(relocs, l[b]) by {
                assert(lp.contains(lp[a]));
                assert(lp.contains(lp[b]));
                assert(spec_referenced(r, l[a]));
                assert(spec_referenced(r, l[b]));
            }
        } else {
            assert(l == lp.push(hstar));
            assert(!spec_referenced(r, hstar));
            assert(spec_first_ref(relocs, hstar) == relocs.len() - 1);
            assert forall|a: int, b: int| 0 <= a < b < l.len() implies spec_first_ref(
                relocs,
                l[a],
            ) < spec_first_ref(relocs, l[b]) by {
                assert(lp.contains(lp[a]));
                assert(spec_referenced(r, l[a]));
                lemma_first_ref(r, l[a]);
                if b < lp.len() {
                    assert(lp.contains(lp[b]));
                    assert(spec_referenced(r, l[b]));
                } else {
                    assert(l[b] == hstar);
                    assert(spec_first_ref(relocs, l[a]) < r.len());
                }
            }
        }
    }
}

/// A stencil with its hole list populated from its relocations.
pub open spec fn spec_populate(s: StencilModel) -> StencilModel {
    StencilModel { holes: spec_hole_acc(s.holes, s.relocs), ..s }
}

/// Whether `xs` holds `x`.
fn list_contains(xs: &Vec<usize>, x: usize) -> (r: bool)
    ensures
        r == xs@.contains(x),
{
    let mut i: usize = 0;
    while i < xs.len()
        invariant
            i <= xs.len(),
            forall|k: int| 0 <= k < i ==> xs@[k] != x,
        decreases xs.len() - i,
    {
        if xs[i] == x {
            return true;
        }
        i = i + 1;
    }
    false
}

/// Populate each stencil's hole list: scan its relocations in order and
/// append each hole reference not already listed, so that the list
/// enumerates the stencil's distinct patch slots in first-reference
/// order, however often each is referenced.
pub fn populate_stencil_holes(stencils: &mut Vec<Stencil>)
    ensures
        final(stencils).deep_view() == old(stencils).deep_view().map_values(
            |s: StencilModel| spec_populate(s),
        ),
{
    let ghost orig = stencils.deep_view();
    let n = stencils.len();
    let mut i: usize = 0;
    while i < n
        invariant
            i <= n,
            n == stencils.len(),
            orig.len() == n,
            forall|k: int| 0 <= k < i ==> stencils.deep_view()[k] == spec_populate(orig[k]),
            forall|k: int| i <= k < n ==> stencils.deep_view()[k] == orig[k],
        decreases n - i,
    {
        let ghost before = stencils.deep_view();
        let mut stencil = stencils.remove(i);
        let ghost sm = before[i as int];
        let ghost relocs = sm.relocs;
        let nr = stencil.relocs.len();
        let mut j: usize = 0;
        while j < nr
            invariant
                j <= nr,
                nr == stencil.relocs.len(),
                relocs == stencil.relocs.deep_view(),
                stencil.name@ == sm.name,
                stencil.address == sm.address,
                stencil.size == sm.size,
                stencil.code@ == sm.code,
                stencil.holes@ == spec_hole_acc(sm.holes, relocs.take(j as int)),
            decreases nr - j,
        {
            let ghost cur = relocs.take(j + 1);
            proof {
                assert(cur.drop_last() =~= relocs.take(j as int));
                assert(cur.last() == relocs[j as int]);
            }
            let hole = stencil.relocs[j].hole;
            if !list_contains(&stencil.holes, hole) {
                stencil.holes.push(hole);
            }
            j = j + 1;
        }
        proof {
            assert(relocs.take(nr as int) =~= relocs);
            assert(stencil.deep_view() =~~= spec_populate(sm));
        }
        stencils.insert(i, stencil);
        proof {
            assert(stencils.deep_view() =~~= before.update(i as int, spec_populate(sm)));
        }
        i = i + 1;
    }
    proof {
        assert(stencils.deep_view() =~~= orig.map_values(|s: StencilModel| spec_populate(s)));
    }
}

} // verus!
