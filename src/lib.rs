//! Detection of compiler and linker hardening features in 64-bit x86-64 ELF
//! binaries: RELRO level, stack canary, PIE, PIC and fortified calls.

pub mod elf;
pub mod hardening;
pub mod laws;
pub mod model;

pub use elf::load;
pub use hardening::{
    analyze_view, build_report, check_target, detect, fortify_fns, strip_symbol_version,
    FLAG_1_NOW, FLAG_1_PIE,
};
pub use model::{
    AnalysisError, DynEntry, DynTag, ElfView, HardeningFlags, HardeningReport, Relro,
    SectionContent, Segment,
};
