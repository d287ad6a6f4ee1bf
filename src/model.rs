use vstd::prelude::*;

verus! {

/// How much of the relocation data is made read-only after loading.
#[derive(Debug, Clone, Copy, PartialEq, Eq, Structural)]
pub enum Relro {
    /// No RELRO at all; reported as `None`.
    Disabled,
    Partial,
    Full,
}

impl Relro {
    /// The label used in the textual report.
    pub fn label(&self) -> (r: &'static str)
        ensures
            r@ == self.spec_label(),
    {
        match self {
            Relro::Disabled => "None",
            Relro::Partial => "Partial",
            Relro::Full => "Full",
        }
    }

    pub open spec fn spec_label(&self) -> Seq<char> {
        match self {
            Relro::Disabled => "None"@,
            Relro::Partial => "Partial"@,
            Relro::Full => "Full"@,
        }
    }
}

/// The kind of a program-header segment, as far as hardening is concerned.
#[derive(Debug, Clone, Copy, PartialEq, Eq, Structural)]
pub enum Segment {
    /// A `PT_GNU_RELRO` segment.
    Relro,
    Other,
}

/// The tag of a dynamic-section entry, as far as hardening is concerned.
#[derive(Debug, Clone, Copy, PartialEq, Eq, Structural)]
pub enum DynTag {
    /// `DT_FLAGS_1`.
    Flags1,
    /// `DT_TEXTREL`.
    TextRel,
    Other,
}

/// One tag/value pair of a dynamic section; `val` is the raw value field.
#[derive(Debug, Clone, Copy, PartialEq, Eq, Structural)]
pub struct DynEntry {
    pub tag: DynTag,
    pub val: u64,
}

/// The typed content of one section. Symbol names are raw bytes.
#[derive(Debug, Clone)]
pub enum SectionContent {
    DynamicEntries(Vec<DynEntry>),
    DynamicSymbols(Vec<Vec<u8>>),
    StaticSymbols(Vec<Vec<u8>>),
    Other,
}

/// The read-only projection of an ELF file that hardening analysis needs.
#[derive(Debug, Clone)]
pub struct ElfView {
    /// The header declares the 64-bit class.
    pub is_64: bool,
    /// The header declares the x86-64 machine.
    pub is_x86_64: bool,
    pub segments: Vec<Segment>,
    pub sections: Vec<SectionContent>,
}

/// The four hardening flags of one binary.
#[derive(Debug, Clone, Copy, PartialEq, Eq, Structural)]
pub struct HardeningFlags {
    pub relro: Relro,
    pub stack_canary: bool,
    pub pie: bool,
    pub pic: bool,
}

/// Everything reported about one binary.
#[derive(Debug, Clone)]
pub struct HardeningReport {
    pub flags: HardeningFlags,
    pub fortify_used: bool,
    pub fortified_count: usize,
    pub fortified_names: Vec<Vec<u8>>,
}

/// Why one file could not be analysed.
#[derive(Debug, Clone, Copy, PartialEq, Eq, Structural)]
pub enum AnalysisError {
    IoError,
    MalformedElf,
    UnsupportedClass,
    UnsupportedMachine,
}

} // verus!
