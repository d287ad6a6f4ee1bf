//! Properties that relate several views or several calls.

use crate::hardening::{
    any_has_canary, any_has_flag, any_has_textrel, collected_names, flags_of, fortified_names,
    fortified_pred, has_relro_segment, relro_of, section_has_canary, section_has_flag,
    section_has_textrel, FLAG_1_NOW,
};
use crate::model::{Relro, SectionContent, Segment};
use vstd::prelude::*;

verus! {

/// The order of RELRO levels: `None` below `Partial` below `Full`.
pub open spec fn relro_rank(r: Relro) -> int {
    match r {
        Relro::Disabled => 0,
        Relro::Partial => 1,
        Relro::Full => 2,
    }
}

/// RELRO is `None` without a RELRO segment and without bind-now evidence,
/// `Partial` with a RELRO segment and no bind-now evidence, and `Full` with a
/// RELRO segment and bind-now evidence in any dynamic section.
pub proof fn lemma_relro_levels(segs: Seq<Segment>, secs: Seq<SectionContent>)
    ensures
        !has_relro_segment(segs) && !any_has_flag(secs, FLAG_1_NOW) ==> relro_of(segs, secs)
            == Relro::Disabled,
        has_relro_segment(segs) && !any_has_flag(secs, FLAG_1_NOW) ==> relro_of(segs, secs)
            == Relro::Partial,
        has_relro_segment(segs) && any_has_flag(secs, FLAG_1_NOW) ==> relro_of(segs, secs)
            == Relro::Full,
{
}

/// More sections or more segments never lower the RELRO level: once `Full`
/// is established it stays, and `Partial` is the floor once a RELRO segment
/// is seen.
pub proof fn lemma_relro_monotonic(
    segs: Seq<Segment>,
    more_segs: Seq<Segment>,
    secs: Seq<SectionContent>,
    more_secs: Seq<SectionContent>,
)
    ensures
        relro_rank(relro_of(segs, secs)) <= relro_rank(relro_of(segs + more_segs, secs + more_secs)),
{
    let all_segs = segs + more_segs;
    let all_secs = secs + more_secs;
    if any_has_flag(secs, FLAG_1_NOW) {
        let i = choose|i: int| 0 <= i < secs.len() && #[trigger] section_has_flag(secs[i], FLAG_1_NOW);
        assert(all_secs[i] == secs[i]);
        assert(section_has_flag(all_secs[i], FLAG_1_NOW));
    }
    if has_relro_segment(segs) {
        let i = choose|i: int| 0 <= i < segs.len() && segs[i] == Segment::Relro;
        assert(all_segs[i] == segs[i]);
    }
}

/// Two sequences of sections that hold the same sections, in whatever order
/// and however often, give the same flags: evidence is accumulated, never
/// overwritten.
pub proof fn lemma_flags_order_independent(
    segs1: Seq<Segment>,
    segs2: Seq<Segment>,
    secs1: Seq<SectionContent>,
    secs2: Seq<SectionContent>,
)
    requires
        forall|s: Segment| segs1.contains(s) <==> segs2.contains(s),
        forall|s: SectionContent| secs1.contains(s) <==> secs2.contains(s),
    ensures
        flags_of(segs1, secs1) == flags_of(segs2, secs2),
{
    lemma_same_evidence(segs1, segs2, secs1, secs2);
    lemma_same_evidence(segs2, segs1, secs2, secs1);
}

proof fn lemma_same_evidence(
    segs1: Seq<Segment>,
    segs2: Seq<Segment>,
    secs1: Seq<SectionContent>,
    secs2: Seq<SectionContent>,
)
    requires
        forall|s: Segment| segs1.contains(s) ==> segs2.contains(s),
        forall|s: SectionContent| secs1.contains(s) ==> secs2.contains(s),
    ensures
        forall|bit: u64| any_has_flag(secs1, bit) ==> #[trigger] any_has_flag(secs2, bit),
        any_has_textrel(secs1) ==> any_has_textrel(secs2),
        any_has_canary(secs1) ==> any_has_canary(secs2),
        has_relro_segment(segs1) ==> has_relro_segment(segs2),
{
    assert forall|bit: u64| any_has_flag(secs1, bit) implies #[trigger] any_has_flag(secs2, bit) by {
        let i = choose|i: int| 0 <= i < secs1.len() && #[trigger] section_has_flag(secs1[i], bit);
        assert(secs1.contains(secs1[i]));
        let j = choose|j: int| 0 <= j < secs2.len() && secs2[j] == secs1[i];
        assert(section_has_flag(secs2[j], bit));
    }
    if any_has_textrel(secs1) {
        let i = choose|i: int| 0 <= i < secs1.len() && #[trigger] section_has_textrel(secs1[i]);
        assert(secs1.contains(secs1[i]));
        let j = choose|j: int| 0 <= j < secs2.len() && secs2[j] == secs1[i];
        assert(section_has_textrel(secs2[j]));
    }
    if any_has_canary(secs1) {
        let i = choose|i: int| 0 <= i < secs1.len() && #[trigger] section_has_canary(secs1[i]);
        assert(secs1.contains(secs1[i]));
        let j = choose|j: int| 0 <= j < secs2.len() && secs2[j] == secs1[i];
        assert(section_has_canary(secs2[j]));
    }
    if has_relro_segment(segs1) {
        let i = choose|i: int| 0 <= i < segs1.len() && segs1[i] == Segment::Relro;
        assert(segs1.contains(segs1[i]));
    }
}

proof fn lemma_collected_append(a: Seq<SectionContent>, b: Seq<SectionContent>)
    ensures
        collected_names(a + b) == collected_names(a) + collected_names(b),
    decreases b.len(),
{
    if b.len() == 0 {
        assert(a + b =~= a);
        assert(collected_names(a) + collected_names(b) =~= collected_names(a));
    } else {
        assert((a + b).drop_last() =~= a + b.drop_last());
        assert((a + b).last() == b.last());
        lemma_collected_append(a, b.drop_last());
        assert(collected_names(a + b) =~= collected_names(a) + collected_names(b));
    }
}

/// Fortified names are not merged across sections: those of two runs of
/// sections are those of the first followed by those of the second, so the
/// count is the sum of the counts even where a name repeats.
pub proof fn lemma_fortified_not_deduplicated(a: Seq<SectionContent>, b: Seq<SectionContent>)
    ensures
        fortified_names(a + b) == fortified_names(a) + fortified_names(b),
        fortified_names(a + b).len() == fortified_names(a).len() + fortified_names(b).len(),
{
    lemma_collected_append(a, b);
    Seq::filter_distributes_over_add(collected_names(a), collected_names(b), fortified_pred());
}

} // verus!
