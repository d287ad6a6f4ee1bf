use elf_hardening::{
    analyze_view, build_report, check_target, detect, fortify_fns, load, strip_symbol_version,
    AnalysisError, DynEntry, DynTag, ElfView, HardeningFlags, Relro, SectionContent, Segment,
    FLAG_1_NOW, FLAG_1_PIE,
};

fn names(ns: &[&str]) -> Vec<Vec<u8>> {
    ns.iter().map(|n| n.as_bytes().to_vec()).collect()
}

fn flags1(val: u64) -> DynEntry {
    DynEntry { tag: DynTag::Flags1, val }
}

fn textrel() -> DynEntry {
    DynEntry { tag: DynTag::TextRel, val: 0 }
}

fn other_entry() -> DynEntry {
    DynEntry { tag: DynTag::Other, val: 0xffff_ffff }
}

fn view(segments: Vec<Segment>, sections: Vec<SectionContent>) -> ElfView {
    ElfView { is_64: true, is_x86_64: true, segments, sections }
}

#[test]
fn relro_none_without_segment_or_bind_now() {
    let v = view(
        vec![Segment::Other],
        vec![SectionContent::DynamicEntries(vec![flags1(FLAG_1_PIE), other_entry()])],
    );
    assert_eq!(detect(&v).relro, Relro::Disabled);
    assert_eq!(detect(&v).relro.label(), "None");
}

#[test]
fn relro_partial_with_segment_only() {
    let v = view(
        vec![Segment::Other, Segment::Relro],
        vec![SectionContent::DynamicEntries(vec![flags1(FLAG_1_PIE)])],
    );
    assert_eq!(detect(&v).relro, Relro::Partial);
    assert_eq!(detect(&v).relro.label(), "Partial");
}

#[test]
fn relro_full_from_any_dynamic_section() {
    let with_now = SectionContent::DynamicEntries(vec![other_entry(), flags1(FLAG_1_NOW)]);
    let without = SectionContent::DynamicEntries(vec![flags1(FLAG_1_PIE)]);
    let a = view(vec![Segment::Relro], vec![with_now.clone(), without.clone()]);
    let b = view(vec![Segment::Relro], vec![without, with_now]);
    assert_eq!(detect(&a).relro, Relro::Full);
    assert_eq!(detect(&b).relro, Relro::Full);
    assert_eq!(detect(&a).relro.label(), "Full");
}

#[test]
fn relro_full_needs_the_bind_now_bit() {
    let v = view(vec![Segment::Relro], vec![SectionContent::DynamicEntries(vec![flags1(0x2)])]);
    assert_eq!(detect(&v).relro, Relro::Partial);
    let untagged = DynEntry { tag: DynTag::Other, val: FLAG_1_NOW };
    let w = view(vec![Segment::Relro], vec![SectionContent::DynamicEntries(vec![untagged])]);
    assert_eq!(detect(&w).relro, Relro::Partial);
}

#[test]
fn stack_canary_from_dynamic_symbols_only() {
    let dynamic = view(
        vec![],
        vec![
            SectionContent::DynamicSymbols(names(&["puts"])),
            SectionContent::DynamicSymbols(names(&["__stack_chk_fail", "malloc"])),
        ],
    );
    assert!(detect(&dynamic).stack_canary);
    let stat = view(vec![], vec![SectionContent::StaticSymbols(names(&["__stack_chk_fail"]))]);
    assert!(!detect(&stat).stack_canary);
    let near = view(vec![], vec![SectionContent::DynamicSymbols(names(&["__stack_chk_fail_local"]))]);
    assert!(!detect(&near).stack_canary);
}

#[test]
fn pie_from_any_dynamic_section() {
    let v = view(
        vec![],
        vec![
            SectionContent::DynamicEntries(vec![flags1(FLAG_1_PIE | FLAG_1_NOW)]),
            SectionContent::DynamicEntries(vec![other_entry()]),
        ],
    );
    assert!(detect(&v).pie);
    let w = view(vec![], vec![SectionContent::DynamicEntries(vec![flags1(FLAG_1_NOW)])]);
    assert!(!detect(&w).pie);
}

#[test]
fn pic_unless_text_relocations() {
    let none = view(vec![], vec![]);
    assert!(detect(&none).pic);
    let clean = view(vec![], vec![SectionContent::DynamicEntries(vec![other_entry()])]);
    assert!(detect(&clean).pic);
    let dirty = view(
        vec![],
        vec![
            SectionContent::DynamicEntries(vec![textrel()]),
            SectionContent::DynamicEntries(vec![other_entry()]),
        ],
    );
    assert!(!detect(&dirty).pic);
}

#[test]
fn empty_view_flags() {
    let v = view(vec![], vec![SectionContent::Other]);
    assert_eq!(
        detect(&v),
        HardeningFlags { relro: Relro::Disabled, stack_canary: false, pie: false, pic: true }
    );
    assert!(fortify_fns(&v).is_empty());
}

#[test]
fn fortified_name_rules() {
    let v = view(
        vec![],
        vec![
            SectionContent::DynamicSymbols(names(&["__printf_chk", "__memcpy_chk___internal", "printf"])),
            SectionContent::StaticSymbols(names(&["foo_chk@@GLIBC_2.4", "bar_chk@GLIBC_2.4"])),
        ],
    );
    assert_eq!(fortify_fns(&v), names(&["__printf_chk", "foo_chk"]));
}

#[test]
fn dynamic_names_keep_their_suffix() {
    let v = view(vec![], vec![SectionContent::DynamicSymbols(names(&["foo_chk@@GLIBC_2.4"]))]);
    assert!(fortify_fns(&v).is_empty());
}

#[test]
fn fortified_count_is_not_deduplicated() {
    let v = view(
        vec![],
        vec![
            SectionContent::DynamicSymbols(names(&["__printf_chk"])),
            SectionContent::StaticSymbols(names(&["__printf_chk@@GLIBC_2.3.4", "__printf_chk"])),
        ],
    );
    let r = analyze_view(&v).unwrap();
    assert_eq!(r.fortified_count, 3);
    assert!(r.fortify_used);
    assert_eq!(r.fortified_names, names(&["__printf_chk", "__printf_chk", "__printf_chk"]));
}

#[test]
fn strip_version_cases() {
    assert_eq!(strip_symbol_version(&b"foo_chk@@GLIBC_2.4".to_vec()), b"foo_chk".to_vec());
    assert_eq!(strip_symbol_version(&b"a@@b@@c".to_vec()), b"a".to_vec());
    assert_eq!(strip_symbol_version(&b"plain".to_vec()), b"plain".to_vec());
    assert_eq!(strip_symbol_version(&b"x@".to_vec()), b"x@".to_vec());
    assert_eq!(strip_symbol_version(&b"@@".to_vec()), b"".to_vec());
    assert_eq!(strip_symbol_version(&Vec::new()), Vec::<u8>::new());
}

#[test]
fn target_gate() {
    assert_eq!(check_target(false, true), Err(AnalysisError::UnsupportedClass));
    assert_eq!(check_target(false, false), Err(AnalysisError::UnsupportedClass));
    assert_eq!(check_target(true, false), Err(AnalysisError::UnsupportedMachine));
    assert_eq!(check_target(true, true), Ok(()));
    let mut v = view(vec![Segment::Relro], vec![]);
    v.is_x86_64 = false;
    assert_eq!(analyze_view(&v).unwrap_err(), AnalysisError::UnsupportedMachine);
    v.is_64 = false;
    assert_eq!(analyze_view(&v).unwrap_err(), AnalysisError::UnsupportedClass);
}

#[test]
fn build_report_counts() {
    let flags = HardeningFlags { relro: Relro::Partial, stack_canary: true, pie: false, pic: true };
    let r = build_report(flags, vec![]);
    assert!(!r.fortify_used);
    assert_eq!(r.fortified_count, 0);
    let r = build_report(flags, names(&["a_chk", "a_chk"]));
    assert!(r.fortify_used);
    assert_eq!(r.fortified_count, 2);
    assert_eq!(r.flags, flags);
}

#[test]
fn hardened_binary_end_to_end() {
    let v = view(
        vec![Segment::Other, Segment::Relro],
        vec![
            SectionContent::Other,
            SectionContent::DynamicEntries(vec![other_entry(), flags1(FLAG_1_NOW | FLAG_1_PIE)]),
            SectionContent::DynamicSymbols(names(&["__stack_chk_fail", "__printf_chk", "__memcpy_chk"])),
        ],
    );
    let r = analyze_view(&v).unwrap();
    assert_eq!(r.flags.relro.label(), "Full");
    assert!(r.flags.stack_canary);
    assert!(r.flags.pie);
    assert!(r.flags.pic);
    assert!(r.fortify_used);
    assert_eq!(r.fortified_count, 2);
}

/// A 64-byte ELF64 header with no program or section headers.
fn header64(class: u8, machine: u16) -> Vec<u8> {
    let mut h = vec![0x7f, b'E', b'L', b'F', class, 1, 1, 0];
    h.resize(64, 0);
    h[16] = 3;
    h[18..20].copy_from_slice(&machine.to_le_bytes());
    h[20] = 1;
    h[52] = 64;
    h
}

#[test]
fn load_rejects_garbage() {
    assert_eq!(load(&[]).unwrap_err(), AnalysisError::MalformedElf);
    assert_eq!(load(b"not an elf file at all, just text").unwrap_err(), AnalysisError::MalformedElf);
    let mut bad_class = header64(2, 0x3e);
    bad_class[4] = 7;
    assert_eq!(load(&bad_class).unwrap_err(), AnalysisError::MalformedElf);
    assert_eq!(load(&header64(2, 0x3e)[..40]).unwrap_err(), AnalysisError::MalformedElf);
}

#[test]
fn load_rejects_other_targets() {
    assert_eq!(load(&header64(1, 0x03)).unwrap_err(), AnalysisError::UnsupportedClass);
    assert_eq!(load(&header64(2, 0xb7)).unwrap_err(), AnalysisError::UnsupportedMachine);
}

#[test]
fn load_reads_a_bare_x86_64_header() {
    let v = load(&header64(2, 0x3e)).unwrap();
    assert!(v.is_64 && v.is_x86_64);
    assert!(v.segments.is_empty());
    assert!(v.sections.is_empty());
    let r = analyze_view(&v).unwrap();
    assert_eq!(r.flags.relro, Relro::Disabled);
    assert!(r.flags.pic);
    assert_eq!(r.fortified_count, 0);
}

fn put(buf: &mut [u8], at: usize, bytes: &[u8]) {
    buf[at..at + bytes.len()].copy_from_slice(bytes);
}

/// An ELF64 x86-64 file with a RELRO segment and one dynamic section that
/// holds `DT_FLAGS_1 = NOW | PIE`, `DT_TEXTREL` and `DT_NULL`.
fn small_elf() -> Vec<u8> {
    let mut b = header64(2, 0x3e);
    b.resize(296, 0);
    put(&mut b, 32, &64u64.to_le_bytes());
    put(&mut b, 40, &168u64.to_le_bytes());
    put(&mut b, 54, &56u16.to_le_bytes());
    put(&mut b, 56, &1u16.to_le_bytes());
    put(&mut b, 58, &64u16.to_le_bytes());
    put(&mut b, 60, &2u16.to_le_bytes());
    put(&mut b, 64, &0x6474_e552u32.to_le_bytes());
    put(&mut b, 120, &0x6fff_fffbu64.to_le_bytes());
    put(&mut b, 128, &(FLAG_1_NOW | FLAG_1_PIE).to_le_bytes());
    put(&mut b, 136, &22u64.to_le_bytes());
    let sh = 168 + 64;
    put(&mut b, sh + 4, &6u32.to_le_bytes());
    put(&mut b, sh + 24, &120u64.to_le_bytes());
    put(&mut b, sh + 32, &48u64.to_le_bytes());
    put(&mut b, sh + 48, &8u64.to_le_bytes());
    put(&mut b, sh + 56, &16u64.to_le_bytes());
    b
}

#[test]
fn load_reads_segments_and_dynamic_entries() {
    let v = load(&small_elf()).unwrap();
    assert_eq!(v.segments, vec![Segment::Relro]);
    assert_eq!(v.sections.len(), 2);
    assert!(matches!(v.sections[0], SectionContent::Other));
    match &v.sections[1] {
        SectionContent::DynamicEntries(es) => assert_eq!(
            es,
            &vec![
                flags1(FLAG_1_NOW | FLAG_1_PIE),
                DynEntry { tag: DynTag::TextRel, val: 0 },
                DynEntry { tag: DynTag::Other, val: 0 },
            ]
        ),
        other => panic!("unexpected section {:?}", other),
    }
    let r = analyze_view(&v).unwrap();
    assert_eq!(
        r.flags,
        HardeningFlags { relro: Relro::Full, stack_canary: false, pie: true, pic: false }
    );
}

/// Writes a 64-byte section header at index `i` of a table at `table`.
fn section(b: &mut [u8], table: usize, i: usize, kind: u32, off: u64, size: u64, link: u32) {
    let h = table + 64 * i;
    put(b, h + 4, &kind.to_le_bytes());
    put(b, h + 24, &off.to_le_bytes());
    put(b, h + 32, &size.to_le_bytes());
    put(b, h + 40, &link.to_le_bytes());
}

/// An ELF64 x86-64 file with a RELRO segment, a dynamic section with
/// `DT_FLAGS_1 = NOW | PIE`, a dynamic symbol table naming
/// `__stack_chk_fail`, `__printf_chk` and `__memcpy_chk`, and, where
/// `sections` is 5, a static symbol table naming `foo_chk@@GLIBC_2.4`.
fn hardened_elf(sections: u16) -> Vec<u8> {
    let mut b = header64(2, 0x3e);
    b.resize(656, 0);
    put(&mut b, 32, &64u64.to_le_bytes());
    put(&mut b, 40, &336u64.to_le_bytes());
    put(&mut b, 54, &56u16.to_le_bytes());
    put(&mut b, 56, &1u16.to_le_bytes());
    put(&mut b, 58, &64u16.to_le_bytes());
    put(&mut b, 60, &sections.to_le_bytes());
    put(&mut b, 64, &0x6474_e552u32.to_le_bytes());
    put(&mut b, 120, &0x6fff_fffbu64.to_le_bytes());
    put(&mut b, 128, &(FLAG_1_NOW | FLAG_1_PIE).to_le_bytes());
    put(&mut b, 152, b"\0__stack_chk_fail\0__printf_chk\0__memcpy_chk\0foo_chk@@GLIBC_2.4\0");
    for (k, name) in [0u32, 1, 18, 31].iter().enumerate() {
        put(&mut b, 216 + 24 * k, &name.to_le_bytes());
    }
    put(&mut b, 312, &44u32.to_le_bytes());
    section(&mut b, 336, 1, 6, 120, 32, 0);
    section(&mut b, 336, 2, 11, 216, 96, 3);
    section(&mut b, 336, 3, 3, 152, 63, 0);
    section(&mut b, 336, 4, 2, 312, 24, 3);
    b
}

#[test]
fn load_hardened_binary_end_to_end() {
    let v = load(&hardened_elf(4)).unwrap();
    match &v.sections[2] {
        SectionContent::DynamicSymbols(ns) => {
            assert_eq!(ns, &names(&["", "__stack_chk_fail", "__printf_chk", "__memcpy_chk"]))
        }
        other => panic!("unexpected section {:?}", other),
    }
    let r = analyze_view(&v).unwrap();
    assert_eq!(r.flags.relro.label(), "Full");
    assert!(r.flags.stack_canary);
    assert!(r.flags.pie);
    assert!(r.flags.pic);
    assert!(r.fortify_used);
    assert_eq!(r.fortified_count, 2);
    assert_eq!(r.fortified_names, names(&["__printf_chk", "__memcpy_chk"]));
}

#[test]
fn load_strips_versions_of_static_symbols() {
    let v = load(&hardened_elf(5)).unwrap();
    let r = analyze_view(&v).unwrap();
    assert_eq!(r.fortified_count, 3);
    assert_eq!(r.fortified_names, names(&["__printf_chk", "__memcpy_chk", "foo_chk"]));
}

#[test]
fn load_rejects_tables_past_the_end() {
    let mut b = small_elf();
    put(&mut b, 60, &3u16.to_le_bytes());
    assert_eq!(load(&b).unwrap_err(), AnalysisError::MalformedElf);
    let mut c = small_elf();
    put(&mut c, 32, &280u64.to_le_bytes());
    assert_eq!(load(&c).unwrap_err(), AnalysisError::MalformedElf);
    let mut d = small_elf();
    put(&mut d, 58, &16u16.to_le_bytes());
    assert_eq!(load(&d).unwrap_err(), AnalysisError::MalformedElf);
}

#[test]
fn load_skips_section_data_past_the_end() {
    let mut b = small_elf();
    put(&mut b, 168 + 64 + 32, &4096u64.to_le_bytes());
    let v = load(&b).unwrap();
    assert!(matches!(v.sections[1], SectionContent::Other));
    assert!(detect(&v).pic);
}
