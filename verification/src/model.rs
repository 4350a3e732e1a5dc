//! The data model: holes, relocations, stencils, the plain input model that
//! the loader produces, and the error kinds of the pipeline.

use vstd::prelude::*;

verus! {

/// The patch width and kind inferred for a hole from its symbol name:
/// an 8-byte integer, a 4-byte integer, or a pointer-sized slot.
#[derive(Clone, Copy, Debug, PartialEq, Eq, Structural)]
pub enum HoleType {
    Int64,
    Int32,
    Pointer,
}

/// Why an extraction failed.  Every failure aborts the whole extraction.
#[derive(Clone, Copy, Debug, PartialEq, Eq, Structural)]
pub enum ExtractError {
    /// The input is not an ELF object.
    Format,
    /// The code section, or its relocation section, cannot be located.
    MissingSection,
    /// A symbol table entry's name cannot be resolved via the string table.
    MissingSymbolName,
    /// A relocation's target address falls outside every stencil's range.
    UnmappedRelocation,
    /// A relocation references a symbol index with no registered hole.
    UnresolvedHoleReference,
    /// A computed code byte range exceeds the input buffer.
    OutOfRangeCode,
}

/// A named patch point.  Holes live in a registry that outlives all
/// stencils; relocations refer to them by registry position.
#[derive(Clone, Debug, PartialEq, Eq)]
pub struct Hole {
    /// The symbol name.
    pub name: String,
    /// The symbol table index that produced the hole; the cross-reference
    /// key that relocations resolve against.
    pub index: usize,
    /// The inferred patch width and kind.
    pub datatype: HoleType,
    /// True only for the recognized internal naming conventions.
    pub internal: bool,
}

/// The mathematical value of a [`Hole`].
#[verifier::ext_equal]
pub struct HoleModel {
    pub name: Seq<char>,
    pub index: usize,
    pub datatype: HoleType,
    pub internal: bool,
}

impl View for Hole {
    type V = HoleModel;

    open spec fn view(&self) -> HoleModel {
        HoleModel {
            name: self.name@,
            index: self.index,
            datatype: self.datatype,
            internal: self.internal,
        }
    }
}

impl DeepView for Hole {
    type V = HoleModel;

    open spec fn deep_view(&self) -> HoleModel {
        self.view()
    }
}

/// One patch site inside a stencil.
#[derive(Clone, Debug, PartialEq, Eq)]
pub struct Reloc {
    /// Byte offset of the patch site relative to the owning stencil's start.
    pub offset: u64,
    /// Signed adjustment applied when patching; zero if the relocation
    /// carried none.
    pub addend: i64,
    /// Position of the referenced hole in the holes registry.
    pub hole: usize,
    /// The architecture-specific relocation kind, as a descriptive tag.
    pub relocation: String,
}

/// The mathematical value of a [`Reloc`].
#[verifier::ext_equal]
pub struct RelocModel {
    pub offset: u64,
    pub addend: i64,
    pub hole: usize,
    pub relocation: Seq<char>,
}

impl View for Reloc {
    type V = RelocModel;

    open spec fn view(&self) -> RelocModel {
        RelocModel {
            offset: self.offset,
            addend: self.addend,
            hole: self.hole,
            relocation: self.relocation@,
        }
    }
}

impl DeepView for Reloc {
    type V = RelocModel;

    open spec fn deep_view(&self) -> RelocModel {
        self.view()
    }
}

/// One extractable code fragment: the machine code of a defined function.
#[derive(Clone, Debug, PartialEq, Eq)]
pub struct Stencil {
    /// The defining function's symbol name.
    pub name: String,
    /// The symbol's value: its offset within the code section.
    pub address: u64,
    /// Byte length of the function's code, from the symbol's size field.
    pub size: u64,
    /// The function's code bytes; shortened by five when the trailing jump
    /// is elided, otherwise exactly `size` bytes.
    pub code: Vec<u8>,
    /// The relocations whose target falls within this stencil's range,
    /// offsets rewritten to be stencil-relative.
    pub relocs: Vec<Reloc>,
    /// Registry positions of the distinct holes referenced by `relocs`,
    /// in first-reference order.
    pub holes: Vec<usize>,
}

/// The mathematical value of a [`Stencil`].
#[verifier::ext_equal]
pub struct StencilModel {
    pub name: Seq<char>,
    pub address: u64,
    pub size: u64,
    pub code: Seq<u8>,
    pub relocs: Seq<RelocModel>,
    pub holes: Seq<usize>,
}

impl View for Stencil {
    type V = StencilModel;

    open spec fn view(&self) -> StencilModel {
        StencilModel {
            name: self.name@,
            address: self.address,
            size: self.size,
            code: self.code@,
            relocs: self.relocs.deep_view(),
            holes: self.holes@,
        }
    }
}

impl DeepView for Stencil {
    type V = StencilModel;

    open spec fn deep_view(&self) -> StencilModel {
        self.view()
    }
}

/// One symbol table entry, reduced to the fields the classifier reads.
#[derive(Clone, Debug, PartialEq, Eq)]
pub struct SymbolRec {
    /// The resolved symbol name; `None` when the string table lookup missed.
    pub name: Option<String>,
    /// The raw `st_info` byte: binding in the high nibble, type in the low.
    pub info: u8,
    /// The symbol's value: its offset within the code section.
    pub value: u64,
    /// The symbol's size in bytes.
    pub size: u64,
}

/// The mathematical value of a [`SymbolRec`].
#[verifier::ext_equal]
pub struct SymModel {
    pub name: Option<Seq<char>>,
    pub info: u8,
    pub value: u64,
    pub size: u64,
}

impl View for SymbolRec {
    type V = SymModel;

    open spec fn view(&self) -> SymModel {
        SymModel {
            name: match self.name {
                Some(n) => Some(n@),
                None => None,
            },
            info: self.info,
            value: self.value,
            size: self.size,
        }
    }
}

impl DeepView for SymbolRec {
    type V = SymModel;

    open spec fn deep_view(&self) -> SymModel {
        self.view()
    }
}

/// One relocation record of the code section, as read from the object.
#[derive(Clone, Debug, PartialEq, Eq)]
pub struct RelocRec {
    /// The relocation's target offset within the code section.
    pub offset: u64,
    /// The explicit addend, if the relocation form carries one.
    pub addend: Option<i64>,
    /// The symbol table index the relocation references.
    pub sym: usize,
    /// The raw architecture-specific relocation type.
    pub rtype: u32,
}

/// The mathematical value of a [`RelocRec`].
#[derive(Structural, PartialEq, Eq)]
pub struct RelModel {
    pub offset: u64,
    pub addend: Option<i64>,
    pub sym: usize,
    pub rtype: u32,
}

impl View for RelocRec {
    type V = RelModel;

    open spec fn view(&self) -> RelModel {
        RelModel { offset: self.offset, addend: self.addend, sym: self.sym, rtype: self.rtype }
    }
}

impl DeepView for RelocRec {
    type V = RelModel;

    open spec fn deep_view(&self) -> RelModel {
        self.view()
    }
}

/// Everything the pipeline needs from the object file, as plain values:
/// the code section's file offset, the symbol table in table order, and
/// the relocation records of the code section.
#[derive(Clone, Debug, PartialEq, Eq)]
pub struct ObjectInput {
    /// File offset of the code section.
    pub text_offset: u64,
    /// The symbol table, in table order; a symbol's position is its index.
    pub symbols: Vec<SymbolRec>,
    /// The relocation records that relocate the code section.
    pub relocs: Vec<RelocRec>,
}

/// The mathematical value of an [`ObjectInput`].
#[verifier::ext_equal]
pub struct ObjectInputModel {
    pub text_offset: u64,
    pub symbols: Seq<SymModel>,
    pub relocs: Seq<RelModel>,
}

impl View for ObjectInput {
    type V = ObjectInputModel;

    open spec fn view(&self) -> ObjectInputModel {
        ObjectInputModel {
            text_offset: self.text_offset,
            symbols: self.symbols.deep_view(),
            relocs: self.relocs.deep_view(),
        }
    }
}

impl DeepView for ObjectInput {
    type V = ObjectInputModel;

    open spec fn deep_view(&self) -> ObjectInputModel {
        self.view()
    }
}

/// The extracted model handed to emission: the stencils and the holes
/// registry they reference.
#[derive(Clone, Debug, PartialEq, Eq)]
pub struct Extraction {
    pub stencils: Vec<Stencil>,
    pub holes: Vec<Hole>,
}

/// The mathematical value of an [`Extraction`].
#[verifier::ext_equal]
pub struct ExtractionModel {
    pub stencils: Seq<StencilModel>,
    pub holes: Seq<HoleModel>,
}

impl View for Extraction {
    type V = ExtractionModel;

    open spec fn view(&self) -> ExtractionModel {
        ExtractionModel { stencils: self.stencils.deep_view(), holes: self.holes.deep_view() }
    }
}

/// A relocation is well formed for a stencil of size `size` and a registry
/// of `nholes` holes: its patch site lies inside the stencil and its hole
/// reference resolves.
pub open spec fn reloc_wf(r: RelocModel, size: u64, nholes: nat) -> bool {
    &&& r.offset < size
    &&& r.hole < nholes
}

/// A stencil is well formed for a registry of `nholes` holes: its code is
/// no longer than its declared size, every relocation lies inside it, and
/// its hole list holds distinct valid registry positions.
pub open spec fn stencil_wf(s: StencilModel, nholes: nat) -> bool {
    &&& s.code.len() <= s.size
    &&& forall|i: int| 0 <= i < s.relocs.len() ==> reloc_wf(#[trigger] s.relocs[i], s.size, nholes)
    &&& forall|i: int| 0 <= i < s.holes.len() ==> #[trigger] s.holes[i] < nholes
    &&& forall|i: int, j: int| 0 <= i < j < s.holes.len() ==> s.holes[i] != s.holes[j]
}

/// An extraction is well formed: every stencil is, against its registry.
pub open spec fn extraction_wf(e: ExtractionModel) -> bool {
    forall|i: int| 0 <= i < e.stencils.len() ==> stencil_wf(#[trigger] e.stencils[i], e.holes.len())
}

} // verus!
