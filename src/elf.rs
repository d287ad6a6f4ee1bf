//! Reading an ELF64 file into an [`ElfView`]. Every field is a little-endian
//! integer read at a fixed offset; every read is checked against the length.

use crate::hardening::{check_target, names_view};
use crate::model::{AnalysisError, DynEntry, DynTag, ElfView, SectionContent, Segment};
use vstd::prelude::*;

verus! {

pub open spec fn le16(b: Seq<u8>, o: int) -> int {
    b[o] as int + b[o + 1] as int * 256
}

pub open spec fn le32(b: Seq<u8>, o: int) -> int {
    le16(b, o) + le16(b, o + 2) * 65536
}

pub open spec fn le64(b: Seq<u8>, o: int) -> int {
    le32(b, o) + le32(b, o + 4) * 4294967296
}

fn read_u16(b: &[u8], o: usize) -> (r: u64)
    requires
        o + 2 <= b@.len(),
    ensures
        r == le16(b@, o as int),
        r < 65536,
{
    b[o] as u64 + b[o + 1] as u64 * 256
}

fn read_u32(b: &[u8], o: usize) -> (r: u64)
    requires
        o + 4 <= b@.len(),
    ensures
        r == le32(b@, o as int),
        r < 4294967296,
{
    let _len = b.len();
    read_u16(b, o) + read_u16(b, o + 2) * 65536
}

fn read_u64(b: &[u8], o: usize) -> (r: u64)
    requires
        o + 8 <= b@.len(),
    ensures
        r == le64(b@, o as int),
{
    let _len = b.len();
    read_u32(b, o) + read_u32(b, o + 4) * 4294967296
}

/// The identification starts with `0x7f 'E' 'L' 'F'`, the class byte is 1
/// (32-bit) or 2 (64-bit), and the file holds the whole header of that class.
pub open spec fn header_ok(b: Seq<u8>) -> bool {
    &&& b.len() >= 16
    &&& b[0] == 0x7f && b[1] == 0x45 && b[2] == 0x4c && b[3] == 0x46
    &&& (b[4] == 1 && b.len() >= 52) || (b[4] == 2 && b.len() >= 64)
}

/// The class byte says 64-bit.
pub open spec fn class_is_64(b: Seq<u8>) -> bool {
    b[4] == 2
}

/// The machine field (`e_machine`) says x86-64.
pub open spec fn machine_is_x86_64(b: Seq<u8>) -> bool {
    le16(b, 18) == 0x3e
}

pub open spec fn ph_off(b: Seq<u8>) -> int {
    le64(b, 32)
}

pub open spec fn sh_off(b: Seq<u8>) -> int {
    le64(b, 40)
}

pub open spec fn ph_entsize(b: Seq<u8>) -> int {
    le16(b, 54)
}

pub open spec fn ph_num(b: Seq<u8>) -> int {
    le16(b, 56)
}

pub open spec fn sh_entsize(b: Seq<u8>) -> int {
    le16(b, 58)
}

pub open spec fn sh_num(b: Seq<u8>) -> int {
    le16(b, 60)
}

/// A program-header table is declared: its offset and entry size are not zero.
pub open spec fn ph_present(b: Seq<u8>) -> bool {
    ph_off(b) != 0 && ph_entsize(b) != 0
}

/// Each declared table has entries of at least the ELF64 size and lies
/// within the file.
pub open spec fn tables_ok(b: Seq<u8>) -> bool {
    &&& !ph_present(b) || (ph_entsize(b) >= 56 && ph_off(b) + ph_num(b) * ph_entsize(b) <= b.len())
    &&& sh_num(b) == 0 || (sh_entsize(b) >= 64 && sh_off(b) + sh_num(b) * sh_entsize(b) <= b.len())
}

/// `PT_GNU_RELRO` marks a RELRO segment.
pub open spec fn segment_kind(t: int) -> Segment {
    if t == 0x6474e552 {
        Segment::Relro
    } else {
        Segment::Other
    }
}

/// The kinds of the program headers, by their `p_type`, in order.
pub open spec fn segments_of(b: Seq<u8>) -> Seq<Segment> {
    if ph_present(b) {
        Seq::new(ph_num(b) as nat, |i: int| segment_kind(le32(b, ph_off(b) + i * ph_entsize(b))))
    } else {
        seq![]
    }
}

pub open spec fn sh_base(b: Seq<u8>, i: int) -> int {
    sh_off(b) + i * sh_entsize(b)
}

pub open spec fn sh_type(b: Seq<u8>, i: int) -> int {
    le32(b, sh_base(b, i) + 4)
}

pub open spec fn sh_offset(b: Seq<u8>, i: int) -> int {
    le64(b, sh_base(b, i) + 24)
}

pub open spec fn sh_size(b: Seq<u8>, i: int) -> int {
    le64(b, sh_base(b, i) + 32)
}

pub open spec fn sh_link(b: Seq<u8>, i: int) -> int {
    le32(b, sh_base(b, i) + 40)
}

/// The section's data lies within the file.
pub open spec fn data_in_file(b: Seq<u8>, i: int) -> bool {
    sh_offset(b, i) + sh_size(b, i) <= b.len()
}

/// `DT_FLAGS_1` and `DT_TEXTREL` are told apart; every other tag is `Other`.
pub open spec fn dyn_tag_kind(t: int) -> DynTag {
    if t == 0x6ffffffb {
        DynTag::Flags1
    } else if t == 22 {
        DynTag::TextRel
    } else {
        DynTag::Other
    }
}

/// The 16-byte dynamic entry at `o`: tag, then value.
pub open spec fn dyn_entry_at(b: Seq<u8>, o: int) -> DynEntry {
    DynEntry { tag: dyn_tag_kind(le64(b, o)), val: le64(b, o + 8) as u64 }
}

/// The whole entries of dynamic section `i`.
pub open spec fn dyn_entries_of(b: Seq<u8>, i: int) -> Seq<DynEntry> {
    Seq::new((sh_size(b, i) / 16) as nat, |k: int| dyn_entry_at(b, sh_offset(b, i) + 16 * k))
}

/// The first NUL byte at or after `p` and before `end`, or `end`.
pub open spec fn nul_from(b: Seq<u8>, p: int, end: int) -> int
    decreases end - p,
{
    if p >= end {
        end
    } else if b[p] == 0 {
        p
    } else {
        nul_from(b, p + 1, end)
    }
}

/// The NUL-terminated string at `start` within a table that ends at `end`.
pub open spec fn cstr_at(b: Seq<u8>, start: int, end: int) -> Option<Seq<u8>> {
    if start < end && nul_from(b, start, end) < end {
        Some(b.subrange(start, nul_from(b, start, end)))
    } else {
        None
    }
}

/// The name of symbol `k` of symbol table `i`, read from the string table
/// that the section's `sh_link` names.
pub open spec fn symbol_name_of(b: Seq<u8>, i: int, k: int) -> Option<Seq<u8>> {
    let s = sh_link(b, i);
    if 0 <= s < sh_num(b) && data_in_file(b, s) {
        cstr_at(b, sh_offset(b, s) + le32(b, sh_offset(b, i) + 24 * k), sh_offset(b, s) + sh_size(b, s))
    } else {
        None
    }
}

/// The names of the first `n` symbols of table `i` that have one.
pub open spec fn symbol_names_upto(b: Seq<u8>, i: int, n: int) -> Seq<Seq<u8>>
    decreases n,
{
    if n <= 0 {
        seq![]
    } else {
        let p = symbol_names_upto(b, i, n - 1);
        match symbol_name_of(b, i, n - 1) {
            Some(v) => p.push(v),
            None => p,
        }
    }
}

/// The names of the whole 24-byte symbols of table `i`, where they have one.
pub open spec fn symbol_names_of(b: Seq<u8>, i: int) -> Seq<Seq<u8>> {
    symbol_names_upto(b, i, sh_size(b, i) / 24)
}

/// `c` is what section `i` holds: the entries of an `SHT_DYNAMIC` section,
/// the names of an `SHT_DYNSYM` or `SHT_SYMTAB` section, else `Other`; a
/// section whose data lies outside the file is `Other`.
pub open spec fn content_matches(c: SectionContent, b: Seq<u8>, i: int) -> bool {
    let t = sh_type(b, i);
    if t == 6 && data_in_file(b, i) {
        c is DynamicEntries && c->DynamicEntries_0@ == dyn_entries_of(b, i)
    } else if t == 11 && data_in_file(b, i) {
        c is DynamicSymbols && names_view(c->DynamicSymbols_0@) == symbol_names_of(b, i)
    } else if t == 2 && data_in_file(b, i) {
        c is StaticSymbols && names_view(c->StaticSymbols_0@) == symbol_names_of(b, i)
    } else {
        c is Other
    }
}

/// `v` is the view of the 64-bit x86-64 file `b`.
pub open spec fn view_of(v: ElfView, b: Seq<u8>) -> bool {
    &&& v.is_64 && v.is_x86_64
    &&& v.segments@ == segments_of(b)
    &&& v.sections@.len() == sh_num(b)
    &&& forall|i: int| 0 <= i < sh_num(b) ==> content_matches(#[trigger] v.sections@[i], b, i)
}

proof fn lemma_row(i: int, n: int, e: int)
    requires
        0 <= i < n,
        0 <= e,
    ensures
        0 <= i * e,
        (i + 1) * e == i * e + e,
        i * e + e <= n * e,
{
    assert(0 <= i * e) by (nonlinear_arith)
        requires
            0 <= i,
            0 <= e,
    ;
    assert((i + 1) * e == i * e + e) by (nonlinear_arith);
    assert(i * e + e <= n * e) by (nonlinear_arith)
        requires
            i + 1 <= n,
            0 <= e,
    ;
}

proof fn lemma_whole_entries(k: int, size: int, w: int)
    requires
        0 <= k < size / w,
        0 < w,
        0 <= size,
    ensures
        w * k + w <= size,
{
    assert(w * k + w <= size) by (nonlinear_arith)
        requires
            k + 1 <= size / w,
            0 < w,
            0 <= size,
    ;
}

/// The program-header kinds, in order.
fn read_segments(b: &[u8]) -> (r: Vec<Segment>)
    requires
        header_ok(b@),
        class_is_64(b@),
        tables_ok(b@),
    ensures
        r@ == segments_of(b@),
{
    let len = b.len();
    let off = read_u64(b, 32);
    let es = read_u16(b, 54);
    let n = read_u16(b, 56);
    let mut out: Vec<Segment> = Vec::new();
    if off == 0 || es == 0 {
        assert(out@ =~= segments_of(b@));
        return out;
    }
    let mut i: u64 = 0;
    let mut o: u64 = off;
    while i < n
        invariant
            off == ph_off(b@),
            es == ph_entsize(b@),
            n == ph_num(b@),
            ph_present(b@),
            es >= 56,
            off + n * es <= b@.len(),
            len == b@.len(),
            i <= n,
            o == off + i * es,
            out@.len() == i,
            forall|k: int| 0 <= k < i ==> out@[k] == segment_kind(le32(b@, off + k * es)),
        decreases n - i,
    {
        proof {
            lemma_row(i as int, n as int, es as int);
        }
        let t = read_u32(b, o as usize);
        let kind = if t == 0x6474e552 { Segment::Relro } else { Segment::Other };
        out.push(kind);
        i += 1;
        o += es;
    }
    assert(out@ =~= segments_of(b@));
    out
}

fn read_dynamic(b: &[u8], off: u64, size: u64) -> (r: Vec<DynEntry>)
    requires
        off + size <= b@.len(),
    ensures
        r@ == Seq::new((size / 16) as nat, |k: int| dyn_entry_at(b@, off + 16 * k)),
{
    let len = b.len();
    let n = size / 16;
    let mut out: Vec<DynEntry> = Vec::new();
    let mut k: u64 = 0;
    while k < n
        invariant
            off + size <= b@.len(),
            len == b@.len(),
            n == size / 16,
            k <= n,
            out@.len() == k,
            forall|j: int| 0 <= j < k ==> out@[j] == dyn_entry_at(b@, off + 16 * j),
        decreases n - k,
    {
        proof {
            lemma_whole_entries(k as int, size as int, 16);
        }
        let o = (off + 16 * k) as usize;
        let t = read_u64(b, o);
        let v = read_u64(b, o + 8);
        let tag = if t == 0x6ffffffb {
            DynTag::Flags1
        } else if t == 22 {
            DynTag::TextRel
        } else {
            DynTag::Other
        };
        out.push(DynEntry { tag, val: v });
        k += 1;
    }
    assert(out@ =~= Seq::new((size / 16) as nat, |k: int| dyn_entry_at(b@, off + 16 * k)));
    out
}

pub open spec fn opt_view(o: Option<Vec<u8>>) -> Option<Seq<u8>> {
    match o {
        Some(v) => Some(v@),
        None => None,
    }
}

/// The NUL-terminated string at `start`, within a table ending at `end`.
fn read_cstr(b: &[u8], start: u64, end: u64) -> (r: Option<Vec<u8>>)
    requires
        end <= b@.len(),
    ensures
        opt_view(r) == cstr_at(b@, start as int, end as int),
{
    let len = b.len();
    if start >= end {
        return None;
    }
    let mut p: u64 = start;
    while p < end && b[p as usize] != 0
        invariant
            start <= p <= end,
            end <= b@.len(),
            len == b@.len(),
            nul_from(b@, start as int, end as int) == nul_from(b@, p as int, end as int),
        decreases end - p,
    {
        p += 1;
    }
    if p >= end {
        return None;
    }
    let mut r: Vec<u8> = Vec::new();
    let mut q: u64 = start;
    while q < p
        invariant
            start <= q <= p,
            p < end <= b@.len(),
            len == b@.len(),
            r@ == b@.subrange(start as int, q as int),
        decreases p - q,
    {
        r.push(b[q as usize]);
        q += 1;
        assert(r@ =~= b@.subrange(start as int, q as int));
    }
    Some(r)
}

/// The file range of section `s`'s data, where `s` is a section whose data
/// lies within the file.
fn section_range(b: &[u8], s: u64) -> (r: Option<(u64, u64)>)
    requires
        header_ok(b@),
        class_is_64(b@),
        tables_ok(b@),
    ensures
        r is Some <==> 0 <= s < sh_num(b@) && data_in_file(b@, s as int),
        r matches Some((start, end)) ==> start == sh_offset(b@, s as int) && end == sh_offset(
            b@,
            s as int,
        ) + sh_size(b@, s as int),
{
    let len = b.len();
    let n = read_u16(b, 60);
    if s >= n {
        return None;
    }
    let shoff = read_u64(b, 40);
    let es = read_u16(b, 58);
    proof {
        lemma_row(s as int, n as int, es as int);
    }
    let h = (shoff + s * es) as usize;
    let off = read_u64(b, h + 24);
    let size = read_u64(b, h + 32);
    let len = len as u64;
    if off <= len && size <= len - off {
        Some((off, off + size))
    } else {
        None
    }
}

/// The names of the whole symbols of table `i`, whose data is `off..off + size`.
fn read_symbols(b: &[u8], i: u64, off: u64, size: u64) -> (r: Vec<Vec<u8>>)
    requires
        header_ok(b@),
        class_is_64(b@),
        tables_ok(b@),
        0 <= i < sh_num(b@),
        off == sh_offset(b@, i as int),
        size == sh_size(b@, i as int),
        off + size <= b@.len(),
    ensures
        names_view(r@) == symbol_names_of(b@, i as int),
{
    let len = b.len();
    let n = read_u16(b, 60);
    let shoff = read_u64(b, 40);
    let es = read_u16(b, 58);
    proof {
        lemma_row(i as int, n as int, es as int);
    }
    let link = read_u32(b, (shoff + i * es) as usize + 40);
    let strtab = section_range(b, link);
    let count = size / 24;
    let mut out: Vec<Vec<u8>> = Vec::new();
    let mut k: u64 = 0;
    assert(names_view(out@) =~= symbol_names_upto(b@, i as int, 0));
    while k < count
        invariant
            off + size <= b@.len(),
            len == b@.len(),
            off == sh_offset(b@, i as int),
            count == size / 24,
            link == sh_link(b@, i as int),
            strtab is Some <==> 0 <= link < sh_num(b@) && data_in_file(b@, link as int),
            strtab matches Some((start, end)) ==> start == sh_offset(b@, link as int) && end
                == sh_offset(b@, link as int) + sh_size(b@, link as int),
            k <= count,
            names_view(out@) == symbol_names_upto(b@, i as int, k as int),
        decreases count - k,
    {
        proof {
            lemma_whole_entries(k as int, size as int, 24);
        }
        let name_off = read_u32(b, (off + 24 * k) as usize);
        let name = match strtab {
            Some((start, end)) => {
                if name_off < end - start {
                    read_cstr(b, start + name_off, end)
                } else {
                    None
                }
            },
            None => None,
        };
        proof {
            if let Some((start, end)) = strtab {
                if name_off >= end - start {
                    assert(cstr_at(b@, start + name_off, end as int) is None);
                }
            }
        }
        assert(opt_view(name) == symbol_name_of(b@, i as int, k as int));
        let ghost before = out@;
        if let Some(v) = name {
            out.push(v);
            assert(names_view(out@) =~= names_view(before).push(before.push(v)[before.len() as int]@));
        }
        k += 1;
    }
    out
}

/// The content of section `i`.
fn read_section(b: &[u8], i: u64) -> (r: SectionContent)
    requires
        header_ok(b@),
        class_is_64(b@),
        tables_ok(b@),
        0 <= i < sh_num(b@),
    ensures
        content_matches(r, b@, i as int),
{
    let len = b.len();
    let n = read_u16(b, 60);
    let shoff = read_u64(b, 40);
    let es = read_u16(b, 58);
    proof {
        lemma_row(i as int, n as int, es as int);
    }
    let t = read_u32(b, (shoff + i * es) as usize + 4);
    let (off, end) = match section_range(b, i) {
        Some(range) => range,
        None => return SectionContent::Other,
    };
    let size = end - off;
    if t == 6 {
        let es = read_dynamic(b, off, size);
        assert(es@ =~= dyn_entries_of(b@, i as int));
        SectionContent::DynamicEntries(es)
    } else if t == 11 {
        SectionContent::DynamicSymbols(read_symbols(b, i, off, size))
    } else if t == 2 {
        SectionContent::StaticSymbols(read_symbols(b, i, off, size))
    } else {
        SectionContent::Other
    }
}

fn read_sections(b: &[u8]) -> (r: Vec<SectionContent>)
    requires
        header_ok(b@),
        class_is_64(b@),
        tables_ok(b@),
    ensures
        r@.len() == sh_num(b@),
        forall|i: int| 0 <= i < sh_num(b@) ==> content_matches(#[trigger] r@[i], b@, i),
{
    let n = read_u16(b, 60);
    let mut out: Vec<SectionContent> = Vec::new();
    let mut i: u64 = 0;
    while i < n
        invariant
            header_ok(b@),
            class_is_64(b@),
            tables_ok(b@),
            n == sh_num(b@),
            i <= n,
            out@.len() == i,
            forall|k: int| 0 <= k < i ==> content_matches(#[trigger] out@[k], b@, k),
        decreases n - i,
    {
        let c = read_section(b, i);
        out.push(c);
        i += 1;
    }
    out
}

fn check_header(b: &[u8]) -> (r: bool)
    ensures
        r == header_ok(b@),
{
    let n = b.len();
    n >= 16 && b[0] == 0x7f && b[1] == 0x45 && b[2] == 0x4c && b[3] == 0x46 && ((b[4] == 1 && n
        >= 52) || (b[4] == 2 && n >= 64))
}

fn check_tables(b: &[u8]) -> (r: bool)
    requires
        header_ok(b@),
        class_is_64(b@),
    ensures
        r == tables_ok(b@),
{
    let len = b.len() as u64;
    let phoff = read_u64(b, 32);
    let shoff = read_u64(b, 40);
    let phes = read_u16(b, 54);
    let phn = read_u16(b, 56);
    let shes = read_u16(b, 58);
    let shn = read_u16(b, 60);
    assert(phn * phes < 65536 * 65536) by (nonlinear_arith)
        requires
            phn < 65536,
            phes < 65536,
    ;
    assert(shn * shes < 65536 * 65536) by (nonlinear_arith)
        requires
            shn < 65536,
            shes < 65536,
    ;
    let ph_ok = phoff == 0 || phes == 0 || (phes >= 56 && phoff <= len && phn * phes <= len - phoff);
    let sh_ok = shn == 0 || (shes >= 64 && shoff <= len && shn * shes <= len - shoff);
    ph_ok && sh_ok
}

/// Reads the view of a 64-bit x86-64 ELF file. The header is checked first
/// (`MalformedElf`), then the class (`UnsupportedClass`), then the machine
/// (`UnsupportedMachine`), then that the program-header and section-header
/// tables lie within the file (`MalformedElf`).
pub fn load(bytes: &[u8]) -> (r: Result<ElfView, AnalysisError>)
    ensures
        !header_ok(bytes@) ==> r == Err::<ElfView, AnalysisError>(AnalysisError::MalformedElf),
        header_ok(bytes@) && !class_is_64(bytes@) ==> r == Err::<ElfView, AnalysisError>(
            AnalysisError::UnsupportedClass,
        ),
        header_ok(bytes@) && class_is_64(bytes@) && !machine_is_x86_64(bytes@) ==> r == Err::<
            ElfView,
            AnalysisError,
        >(AnalysisError::UnsupportedMachine),
        header_ok(bytes@) && class_is_64(bytes@) && machine_is_x86_64(bytes@) && !tables_ok(bytes@)
            ==> r == Err::<ElfView, AnalysisError>(AnalysisError::MalformedElf),
        header_ok(bytes@) && class_is_64(bytes@) && machine_is_x86_64(bytes@) && tables_ok(bytes@)
            ==> r is Ok && view_of(r->Ok_0, bytes@),
{
    if !check_header(bytes) {
        return Err(AnalysisError::MalformedElf);
    }
    let is_64 = bytes[4] == 2;
    let is_x86_64 = read_u16(bytes, 18) == 0x3e;
    if let Err(e) = check_target(is_64, is_x86_64) {
        return Err(e);
    }
    if !check_tables(bytes) {
        return Err(AnalysisError::MalformedElf);
    }
    let segments = read_segments(bytes);
    let sections = read_sections(bytes);
    Ok(ElfView { is_64, is_x86_64, segments, sections })
}

} // verus!
