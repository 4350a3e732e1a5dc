//! The extraction pipeline end to end: classify the symbol table, attach
//! the code section's relocations, elide trailing jumps, and populate
//! each stencil's hole list.

use vstd::prelude::*;

use crate::classify::{classify_symbols, lemma_classify_fresh, spec_classify_symbols};
use crate::loader::{load_object, spec_load};
use crate::model::{Extraction, ExtractionModel, ExtractError, ObjectInput, ObjectInputModel,
    StencilModel, extraction_wf, reloc_wf, stencil_wf};
use crate::relocate::{lemma_map_preserves_wf, map_relocations, spec_map_relocs};
use crate::transform::{lemma_hole_acc, populate_stencil_holes, spec_populate, spec_trim,
    trim_trailing_jmp};

verus! {

/// The whole pipeline on the loaded input model: classification, then
/// relocation mapping, then the two per-stencil transforms; the first
/// failing stage aborts the extraction.
pub open spec fn spec_extract(input: ObjectInputModel, data: Seq<u8>) -> Result<
    ExtractionModel,
    ExtractError,
> {
    match spec_classify_symbols(input.symbols, data, input.text_offset) {
        Err(e) => Err(e),
        Ok((stencils, holes)) => match spec_map_relocs(stencils, holes, input.relocs) {
            Err(e) => Err(e),
            Ok(mapped) => Ok(
                ExtractionModel {
                    stencils: mapped.map_values(
                        |s: StencilModel| spec_populate(spec_trim(s, holes)),
                    ),
                    holes,
                },
            ),
        },
    }
}

/// The whole pipeline on the raw object bytes: what loading the bytes
/// yields, then the pipeline on the loaded model; a loading failure is
/// the extraction's failure.
pub open spec fn spec_extract_bytes(data: Seq<u8>) -> Result<ExtractionModel, ExtractError> {
    match spec_load(data) {
        Err(e) => Err(e),
        Ok(input) => spec_extract(input, data),
    }
}

/// The pipeline, as a model of the executable result.
pub open spec fn extract_result_model(r: Result<Extraction, ExtractError>) -> Result<
    ExtractionModel,
    ExtractError,
> {
    match r {
        Ok(e) => Ok(e@),
        Err(e) => Err(e),
    }
}

/// Run the verified pipeline on an already loaded input model.
pub fn extract_from_object(input: ObjectInput, data: &Vec<u8>) -> (r: Result<
    Extraction,
    ExtractError,
>)
    ensures
        extract_result_model(r) == spec_extract(input@, data@),
{
    let ghost inp = input@;
    let ObjectInput { text_offset, symbols, relocs } = input;
    let (stencils, holes) = match classify_symbols(&symbols, data, text_offset) {
        Ok(pair) => pair,
        Err(e) => {
            return Err(e);
        },
    };
    let mut stencils = match map_relocations(stencils, &holes, &relocs) {
        Ok(stencils) => stencils,
        Err(e) => {
            return Err(e);
        },
    };
    let ghost mapped = stencils.deep_view();
    let ghost hdv = holes.deep_view();
    trim_trailing_jmp(&mut stencils, &holes);
    populate_stencil_holes(&mut stencils);
    proof {
        assert(stencils.deep_view() =~~= mapped.map_values(
            |s: StencilModel| spec_populate(spec_trim(s, hdv)),
        ));
    }
    Ok(Extraction { stencils, holes })
}

/// Every extraction the pipeline yields is well formed: each stencil's
/// code fits its declared size, each relocation patches inside its
/// stencil and references a registered hole, and each hole list holds
/// distinct registered holes.
pub proof fn lemma_extract_wf(input: ObjectInputModel, data: Seq<u8>, m: ExtractionModel)
    requires
        spec_extract(input, data) == Ok::<_, ExtractError>(m),
    ensures
        extraction_wf(m),
{
    let syms = input.symbols;
    match spec_classify_symbols(syms, data, input.text_offset) {
        Ok((stencils, holes)) => {
            lemma_classify_fresh(syms, data, input.text_offset, stencils, holes);
            assert forall|j: int| 0 <= j < stencils.len() implies stencil_wf(
                #[trigger] stencils[j],
                holes.len(),
            ) by {}
            match spec_map_relocs(stencils, holes, input.relocs) {
                Ok(mapped) => {
                    lemma_map_preserves_wf(stencils, holes, input.relocs, mapped);
                    assert forall|j: int| 0 <= j < m.stencils.len() implies stencil_wf(
                        #[trigger] m.stencils[j],
                        m.holes.len(),
                    ) by {
                        let s = mapped[j];
                        let t = spec_trim(s, holes);
                        let p = spec_populate(t);
                        assert(stencil_wf(s, holes.len()));
                        assert(t.code.len() <= t.size);
                        assert forall|i: int| 0 <= i < t.relocs.len() implies reloc_wf(
                            #[trigger] t.relocs[i],
                            t.size,
                            holes.len(),
                        ) by {
                            assert(t.relocs[i] == s.relocs[i]);
                        }
                        assert(t.holes.len() == 0);
                        lemma_hole_acc(t.holes, t.relocs);
                        assert forall|i: int| 0 <= i < p.holes.len() implies #[trigger] p.holes[i]
                            < holes.len() by {
                            assert(p.holes.contains(p.holes[i]));
                            let k = choose|k: int|
                                0 <= k < t.relocs.len() && (#[trigger] t.relocs[k]).hole
                                    == p.holes[i];
                            assert(reloc_wf(t.relocs[k], t.size, holes.len()));
                        }
                        assert(m.stencils[j] == p);
                    }
                },
                Err(_) => {
                    assert(false);
                },
            }
        },
        Err(_) => {
            assert(false);
        },
    }
}

/// Extract the stencil and hole model from raw object file bytes: parse
/// them as an ELF object, locate the code section and its relocations,
/// and run the verified pipeline.  The result is exactly what the
/// pipeline's model yields on what the bytes parse to, each error tied
/// to its named cause, and a successful extraction is well formed.
pub fn extract(data: &Vec<u8>) -> (r: Result<Extraction, ExtractError>)
    ensures
        extract_result_model(r) == spec_extract_bytes(data@),
        r matches Ok(e) ==> extraction_wf(e@),
{
    match load_object(data) {
        Ok(input) => {
            let ghost inp = input@;
            let r = extract_from_object(input, data);
            proof {
                match &r {
                    Ok(e) => {
                        lemma_extract_wf(inp, data@, e@);
                    },
                    Err(_) => {},
                }
            }
            r
        },
        Err(e) => Err(e),
    }
}

} // verus!
