use crate::model::{
    AnalysisError, DynEntry, DynTag, ElfView, HardeningFlags, HardeningReport, Relro, SectionContent,
    Segment,
};
use vstd::prelude::*;

verus! {

/// `DF_1_NOW` in a `DT_FLAGS_1` value: symbols are bound at load time.
pub const FLAG_1_NOW: u64 = 0x1;

/// `DF_1_PIE` in a `DT_FLAGS_1` value: the object is a position-independent executable.
pub const FLAG_1_PIE: u64 = 0x0800_0000;

/// The entry is a `DT_FLAGS_1` entry whose value has `bit` set.
pub open spec fn flags1_has(e: DynEntry, bit: u64) -> bool {
    &&& e.tag == DynTag::Flags1
    &&& e.val & bit != 0
}

/// The section is a dynamic section with a `DT_FLAGS_1` entry that has `bit` set.
pub open spec fn section_has_flag(s: SectionContent, bit: u64) -> bool {
    match s {
        SectionContent::DynamicEntries(es) => exists|j: int|
            0 <= j < es@.len() && #[trigger] flags1_has(es@[j], bit),
        _ => false,
    }
}

/// The section is a dynamic section with a `DT_TEXTREL` entry.
pub open spec fn section_has_textrel(s: SectionContent) -> bool {
    match s {
        SectionContent::DynamicEntries(es) => exists|j: int|
            0 <= j < es@.len() && (#[trigger] es@[j]).tag == DynTag::TextRel,
        _ => false,
    }
}

/// The name of the stack-protector failure handler.
pub open spec fn stack_chk_fail_name() -> Seq<u8> {
    seq![95u8, 95u8, 115u8, 116u8, 97u8, 99u8, 107u8, 95u8, 99u8, 104u8, 107u8, 95u8, 102u8, 97u8, 105u8, 108u8]
}

/// The section is a dynamic symbol table naming the stack-protector failure handler.
pub open spec fn section_has_canary(s: SectionContent) -> bool {
    match s {
        SectionContent::DynamicSymbols(ns) => exists|j: int|
            0 <= j < ns@.len() && (#[trigger] ns@[j])@ == stack_chk_fail_name(),
        _ => false,
    }
}

pub open spec fn any_has_flag(secs: Seq<SectionContent>, bit: u64) -> bool {
    exists|i: int| 0 <= i < secs.len() && #[trigger] section_has_flag(secs[i], bit)
}

pub open spec fn any_has_textrel(secs: Seq<SectionContent>) -> bool {
    exists|i: int| 0 <= i < secs.len() && #[trigger] section_has_textrel(secs[i])
}

pub open spec fn any_has_canary(secs: Seq<SectionContent>) -> bool {
    exists|i: int| 0 <= i < secs.len() && #[trigger] section_has_canary(secs[i])
}

pub open spec fn has_relro_segment(segs: Seq<Segment>) -> bool {
    exists|i: int| 0 <= i < segs.len() && segs[i] == Segment::Relro
}

/// `Full` on bind-now evidence anywhere, else `Partial` where a RELRO segment
/// exists, else `None`.
pub open spec fn relro_of(segs: Seq<Segment>, secs: Seq<SectionContent>) -> Relro {
    if any_has_flag(secs, FLAG_1_NOW) {
        Relro::Full
    } else if has_relro_segment(segs) {
        Relro::Partial
    } else {
        Relro::Disabled
    }
}

pub open spec fn flags_of(segs: Seq<Segment>, secs: Seq<SectionContent>) -> HardeningFlags {
    HardeningFlags {
        relro: relro_of(segs, secs),
        stack_canary: any_has_canary(secs),
        pie: any_has_flag(secs, FLAG_1_PIE),
        pic: !any_has_textrel(secs),
    }
}

fn entries_have_flag(es: &Vec<DynEntry>, bit: u64) -> (r: bool)
    ensures
        r == exists|j: int| 0 <= j < es@.len() && #[trigger] flags1_has(es@[j], bit),
{
    let mut i: usize = 0;
    while i < es.len()
        invariant
            i <= es@.len(),
            forall|j: int| 0 <= j < i ==> !#[trigger] flags1_has(es@[j], bit),
        decreases es@.len() - i,
    {
        let e = es[i];
        if let DynTag::Flags1 = e.tag {
            if e.val & bit != 0 {
                assert(flags1_has(es@[i as int], bit));
                return true;
            }
        }
        i += 1;
    }
    false
}

fn entries_have_textrel(es: &Vec<DynEntry>) -> (r: bool)
    ensures
        r == exists|j: int| 0 <= j < es@.len() && (#[trigger] es@[j]).tag == DynTag::TextRel,
{
    let mut i: usize = 0;
    while i < es.len()
        invariant
            i <= es@.len(),
            forall|j: int| 0 <= j < i ==> (#[trigger] es@[j]).tag != DynTag::TextRel,
        decreases es@.len() - i,
    {
        if let DynTag::TextRel = es[i].tag {
            return true;
        }
        i += 1;
    }
    false
}

fn stack_chk_fail() -> (r: Vec<u8>)
    ensures
        r@ == stack_chk_fail_name(),
{
    let r = vec![95u8, 95u8, 115u8, 116u8, 97u8, 99u8, 107u8, 95u8, 99u8, 104u8, 107u8, 95u8, 102u8, 97u8, 105u8, 108u8];
    assert(r@ =~= stack_chk_fail_name());
    r
}

fn bytes_eq(a: &Vec<u8>, b: &Vec<u8>) -> (r: bool)
    ensures
        r == (a@ == b@),
{
    if a.len() != b.len() {
        return false;
    }
    let mut i: usize = 0;
    while i < a.len()
        invariant
            i <= a@.len(),
            a@.len() == b@.len(),
            forall|j: int| 0 <= j < i ==> a@[j] == b@[j],
        decreases a@.len() - i,
    {
        if a[i] != b[i] {
            return false;
        }
        i += 1;
    }
    assert(a@ =~= b@);
    true
}

fn names_have_canary(ns: &Vec<Vec<u8>>) -> (r: bool)
    ensures
        r == exists|j: int| 0 <= j < ns@.len() && (#[trigger] ns@[j])@ == stack_chk_fail_name(),
{
    let target = stack_chk_fail();
    let mut i: usize = 0;
    while i < ns.len()
        invariant
            i <= ns@.len(),
            target@ == stack_chk_fail_name(),
            forall|j: int| 0 <= j < i ==> (#[trigger] ns@[j])@ != stack_chk_fail_name(),
        decreases ns@.len() - i,
    {
        if bytes_eq(&ns[i], &target) {
            return true;
        }
        i += 1;
    }
    false
}

fn segments_have_relro(segs: &Vec<Segment>) -> (r: bool)
    ensures
        r == has_relro_segment(segs@),
{
    let mut i: usize = 0;
    while i < segs.len()
        invariant
            i <= segs@.len(),
            forall|j: int| 0 <= j < i ==> segs@[j] != Segment::Relro,
        decreases segs@.len() - i,
    {
        if let Segment::Relro = segs[i] {
            return true;
        }
        i += 1;
    }
    false
}

fn section_flag(s: &SectionContent, bit: u64) -> (r: bool)
    ensures
        r == section_has_flag(*s, bit),
{
    match s {
        SectionContent::DynamicEntries(es) => entries_have_flag(es, bit),
        _ => false,
    }
}

fn section_textrel(s: &SectionContent) -> (r: bool)
    ensures
        r == section_has_textrel(*s),
{
    match s {
        SectionContent::DynamicEntries(es) => entries_have_textrel(es),
        _ => false,
    }
}

fn section_canary(s: &SectionContent) -> (r: bool)
    ensures
        r == section_has_canary(*s),
{
    match s {
        SectionContent::DynamicSymbols(ns) => names_have_canary(ns),
        _ => false,
    }
}

/// Derives the four hardening flags of a view. Evidence from every dynamic
/// section and every dynamic symbol table is combined, so the order of the
/// sections does not matter.
pub fn detect(v: &ElfView) -> (r: HardeningFlags)
    ensures
        r == flags_of(v.segments@, v.sections@),
{
    let secs = &v.sections;
    let mut bind_now = false;
    let mut pie = false;
    let mut textrel = false;
    let mut canary = false;
    let mut i: usize = 0;
    while i < secs.len()
        invariant
            i <= secs@.len(),
            bind_now == exists|k: int| 0 <= k < i && #[trigger] section_has_flag(secs@[k], FLAG_1_NOW),
            pie == exists|k: int| 0 <= k < i && #[trigger] section_has_flag(secs@[k], FLAG_1_PIE),
            textrel == exists|k: int| 0 <= k < i && #[trigger] section_has_textrel(secs@[k]),
            canary == exists|k: int| 0 <= k < i && #[trigger] section_has_canary(secs@[k]),
        decreases secs@.len() - i,
    {
        let s = &secs[i];
        bind_now = bind_now || section_flag(s, FLAG_1_NOW);
        pie = pie || section_flag(s, FLAG_1_PIE);
        textrel = textrel || section_textrel(s);
        canary = canary || section_canary(s);
        i += 1;
    }
    let relro = if bind_now {
        Relro::Full
    } else if segments_have_relro(&v.segments) {
        Relro::Partial
    } else {
        Relro::Disabled
    };
    HardeningFlags { relro, stack_canary: canary, pie, pic: !textrel }
}

/// The byte `_`.
pub const UNDERSCORE: u8 = 95;

/// The byte `@`.
pub const AT_SIGN: u8 = 64;

/// The name ends with `_chk`.
pub open spec fn ends_with_chk(n: Seq<u8>) -> bool {
    n.len() >= 4 && n.subrange(n.len() - 4, n.len() as int) == seq![UNDERSCORE, 99u8, 104u8, 107u8]
}

/// The name holds `___` somewhere.
pub open spec fn has_triple_underscore(n: Seq<u8>) -> bool {
    exists|i: int|
        0 <= i && i + 3 <= n.len() && #[trigger] n[i] == UNDERSCORE && n[i + 1] == UNDERSCORE
            && n[i + 2] == UNDERSCORE
}

/// A bounds-checked library variant: ends with `_chk` and holds no `___`.
pub open spec fn is_fortified(n: Seq<u8>) -> bool {
    ends_with_chk(n) && !has_triple_underscore(n)
}

pub open spec fn fortified_pred() -> spec_fn(Seq<u8>) -> bool {
    |n: Seq<u8>| is_fortified(n)
}

/// `@@` starts at position `i`.
pub open spec fn version_mark_at(n: Seq<u8>, i: int) -> bool {
    0 <= i && i + 1 < n.len() && n[i] == AT_SIGN && n[i + 1] == AT_SIGN
}

/// The first position at or after `i` where `@@` starts, or the length.
pub open spec fn version_start_from(n: Seq<u8>, i: int) -> int
    decreases n.len() - i,
{
    if i < 0 || i + 1 >= n.len() {
        n.len() as int
    } else if version_mark_at(n, i) {
        i
    } else {
        version_start_from(n, i + 1)
    }
}

/// The name with everything from the first `@@` on removed.
pub open spec fn strip_version(n: Seq<u8>) -> Seq<u8> {
    n.subrange(0, version_start_from(n, 0))
}

pub open spec fn names_view(ns: Seq<Vec<u8>>) -> Seq<Seq<u8>> {
    ns.map_values(|n: Vec<u8>| n@)
}

/// The names a section contributes: dynamic symbols as they stand, static
/// symbols without their version suffix, nothing from other sections.
pub open spec fn section_names(s: SectionContent) -> Seq<Seq<u8>> {
    match s {
        SectionContent::DynamicSymbols(ns) => names_view(ns@),
        SectionContent::StaticSymbols(ns) => names_view(ns@).map_values(|n: Seq<u8>| strip_version(n)),
        _ => seq![],
    }
}

/// The names of all sections, in order, with repetitions.
pub open spec fn collected_names(secs: Seq<SectionContent>) -> Seq<Seq<u8>>
    decreases secs.len(),
{
    if secs.len() == 0 {
        seq![]
    } else {
        collected_names(secs.drop_last()) + section_names(secs.last())
    }
}

/// The fortified names among all collected names, in order, with repetitions.
pub open spec fn fortified_names(secs: Seq<SectionContent>) -> Seq<Seq<u8>> {
    collected_names(secs).filter(fortified_pred())
}

fn name_ends_with_chk(n: &Vec<u8>) -> (r: bool)
    ensures
        r == ends_with_chk(n@),
{
    let l = n.len();
    if l < 4 {
        return false;
    }
    let r = n[l - 4] == UNDERSCORE && n[l - 3] == 99u8 && n[l - 2] == 104u8 && n[l - 1] == 107u8;
    let ghost tail = n@.subrange(l - 4, l as int);
    let ghost want = seq![UNDERSCORE, 99u8, 104u8, 107u8];
    assert(r ==> tail =~= want);
    assert(tail == want ==> tail[0] == want[0] && tail[1] == want[1] && tail[2] == want[2] && tail[3] == want[3]);
    r
}

fn name_has_triple_underscore(n: &Vec<u8>) -> (r: bool)
    ensures
        r == has_triple_underscore(n@),
{
    let mut i: usize = 0;
    while 3 <= n.len() - i
        invariant
            i <= n@.len(),
            forall|j: int|
                0 <= j < i && j + 3 <= n@.len() ==> !(#[trigger] n@[j] == UNDERSCORE && n@[j + 1]
                    == UNDERSCORE && n@[j + 2] == UNDERSCORE),
        decreases n@.len() - i,
    {
        if n[i] == UNDERSCORE && n[i + 1] == UNDERSCORE && n[i + 2] == UNDERSCORE {
            return true;
        }
        i += 1;
    }
    false
}

fn name_is_fortified(n: &Vec<u8>) -> (r: bool)
    ensures
        r == is_fortified(n@),
{
    name_ends_with_chk(n) && !name_has_triple_underscore(n)
}

/// Removes a symbol-version suffix: everything from the first `@@` on.
pub fn strip_symbol_version(n: &Vec<u8>) -> (r: Vec<u8>)
    ensures
        r@ == strip_version(n@),
{
    let mut i: usize = 0;
    while 1 < n.len() - i && !(n[i] == AT_SIGN && n[i + 1] == AT_SIGN)
        invariant
            i <= n@.len(),
            version_start_from(n@, 0) == version_start_from(n@, i as int),
        decreases n@.len() - i,
    {
        i += 1;
    }
    let end = if 1 < n.len() - i { i } else { n.len() };
    let mut r: Vec<u8> = Vec::new();
    let mut k: usize = 0;
    while k < end
        invariant
            end <= n@.len(),
            k <= end,
            r@ == n@.subrange(0, k as int),
        decreases end - k,
    {
        r.push(n[k]);
        k += 1;
        assert(r@ =~= n@.subrange(0, k as int));
    }
    r
}

/// Appends `name` to `out` where it is fortified.
fn keep_if_fortified(out: &mut Vec<Vec<u8>>, name: Vec<u8>, Ghost(seen): Ghost<Seq<Seq<u8>>>)
    requires
        names_view(old(out)@) == seen.filter(fortified_pred()),
    ensures
        names_view(final(out)@) == seen.push(name@).filter(fortified_pred()),
{
    let ghost pushed = seen.push(name@);
    assert(pushed.drop_last() =~= seen);
    proof {
        reveal(Seq::filter);
    }
    if name_is_fortified(&name) {
        out.push(name);
        assert(names_view(out@) =~= names_view(old(out)@).push(name@));
    }
}

proof fn lemma_collected_step(secs: Seq<SectionContent>, i: int)
    requires
        0 <= i < secs.len(),
    ensures
        collected_names(secs.take(i + 1)) == collected_names(secs.take(i)) + section_names(secs[i]),
{
    assert(secs.take(i + 1).drop_last() =~= secs.take(i));
}

/// The names that end in `_chk` and hold no `___`, collected from every
/// dynamic symbol table as they stand and from every static symbol table
/// without their version suffix, in section order, with repetitions.
pub fn fortify_fns(v: &ElfView) -> (r: Vec<Vec<u8>>)
    ensures
        names_view(r@) == fortified_names(v.sections@),
{
    let secs = &v.sections;
    let mut out: Vec<Vec<u8>> = Vec::new();
    let mut i: usize = 0;
    assert(secs@.take(0) =~= Seq::<SectionContent>::empty());
    assert(names_view(out@) =~= Seq::<Seq<u8>>::empty());
    proof {
        reveal(Seq::filter);
    }
    while i < secs.len()
        invariant
            i <= secs@.len(),
            names_view(out@) == fortified_names(secs@.take(i as int)),
        decreases secs@.len() - i,
    {
        let ghost before = collected_names(secs@.take(i as int));
        proof {
            lemma_collected_step(secs@, i as int);
        }
        match &secs[i] {
            SectionContent::DynamicSymbols(ns) => {
                let mut j: usize = 0;
                while j < ns.len()
                    invariant
                        j <= ns@.len(),
                        names_view(out@) == (before + names_view(ns@).take(j as int)).filter(fortified_pred()),
                    decreases ns@.len() - j,
                {
                    let ghost seen = before + names_view(ns@).take(j as int);
                    keep_if_fortified(&mut out, ns[j].clone(), Ghost(seen));
                    assert(seen.push(ns@[j as int]@) =~= before + names_view(ns@).take(j + 1));
                    j += 1;
                }
                assert(names_view(ns@).take(j as int) =~= names_view(ns@));
            },
            SectionContent::StaticSymbols(ns) => {
                let ghost stripped = names_view(ns@).map_values(|n: Seq<u8>| strip_version(n));
                let mut j: usize = 0;
                while j < ns.len()
                    invariant
                        j <= ns@.len(),
                        stripped == names_view(ns@).map_values(|n: Seq<u8>| strip_version(n)),
                        names_view(out@) == (before + stripped.take(j as int)).filter(fortified_pred()),
                    decreases ns@.len() - j,
                {
                    let ghost seen = before + stripped.take(j as int);
                    let name = strip_symbol_version(&ns[j]);
                    keep_if_fortified(&mut out, name, Ghost(seen));
                    assert(seen.push(strip_version(ns@[j as int]@)) =~= before + stripped.take(j + 1));
                    j += 1;
                }
                assert(stripped.take(j as int) =~= stripped);
            },
            _ => {
                assert(section_names(secs@[i as int]) =~= Seq::<Seq<u8>>::empty());
                assert(before + section_names(secs@[i as int]) =~= before);
            },
        }
        i += 1;
    }
    assert(secs@.take(i as int) =~= secs@);
    out
}

/// Only 64-bit x86-64 files are analysed; the class is checked first.
pub open spec fn target_check(is_64: bool, is_x86_64: bool) -> Result<(), AnalysisError> {
    if !is_64 {
        Err(AnalysisError::UnsupportedClass)
    } else if !is_x86_64 {
        Err(AnalysisError::UnsupportedMachine)
    } else {
        Ok(())
    }
}

/// Refuses a file that is not 64-bit, or else not for x86-64.
pub fn check_target(is_64: bool, is_x86_64: bool) -> (r: Result<(), AnalysisError>)
    ensures
        r == target_check(is_64, is_x86_64),
{
    if !is_64 {
        Err(AnalysisError::UnsupportedClass)
    } else if !is_x86_64 {
        Err(AnalysisError::UnsupportedMachine)
    } else {
        Ok(())
    }
}

/// The report holds the given flags and fortified names, their count, and
/// whether there is any.
pub open spec fn report_of(
    rep: HardeningReport,
    flags: HardeningFlags,
    names: Seq<Seq<u8>>,
) -> bool {
    &&& rep.flags == flags
    &&& names_view(rep.fortified_names@) == names
    &&& rep.fortified_count == names.len()
    &&& rep.fortify_used == (names.len() > 0)
}

/// Combines the flags and the fortified names of one binary.
pub fn build_report(flags: HardeningFlags, names: Vec<Vec<u8>>) -> (r: HardeningReport)
    ensures
        report_of(r, flags, names_view(names@)),
{
    let n = names.len();
    HardeningReport { flags, fortify_used: n > 0, fortified_count: n, fortified_names: names }
}

/// Analyses a view: refused where it is not 64-bit x86-64, else its flags and
/// its fortified names.
pub fn analyze_view(v: &ElfView) -> (r: Result<HardeningReport, AnalysisError>)
    ensures
        match target_check(v.is_64, v.is_x86_64) {
            Err(e) => r == Err::<HardeningReport, AnalysisError>(e),
            Ok(_) => r is Ok && report_of(
                r->Ok_0,
                flags_of(v.segments@, v.sections@),
                fortified_names(v.sections@),
            ),
        },
{
    match check_target(v.is_64, v.is_x86_64) {
        Err(e) => Err(e),
        Ok(()) => {
            let flags = detect(v);
            let names = fortify_fns(v);
            Ok(build_report(flags, names))
        },
    }
}

} // verus!
