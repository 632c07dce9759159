use vstd::prelude::*;
use crate::mask::{admits, FieldMask, MaskView};

verus! {

/// The top-level sections of a frame, in the order they are emitted.
#[derive(Debug, Clone, Copy, PartialEq, Eq, Structural)]
pub enum Section {
    Motion,
    Vehicle,
    Engine,
    Wheels,
    Timing,
    Session,
    Weather,
    Pit,
    Electronics,
    Damage,
    Competitors,
    Driver,
    Extras,
}

pub open spec fn section_name(s: Section) -> Seq<char> {
    match s {
        Section::Motion => "motion"@,
        Section::Vehicle => "vehicle"@,
        Section::Engine => "engine"@,
        Section::Wheels => "wheels"@,
        Section::Timing => "timing"@,
        Section::Session => "session"@,
        Section::Weather => "weather"@,
        Section::Pit => "pit"@,
        Section::Electronics => "electronics"@,
        Section::Damage => "damage"@,
        Section::Competitors => "competitors"@,
        Section::Driver => "driver"@,
        Section::Extras => "extras"@,
    }
}

impl Section {
    /// The section's key in serialized output.
    pub fn name(&self) -> (r: &'static str)
        ensures
            r@ == section_name(*self),
    {
        match self {
            Section::Motion => "motion",
            Section::Vehicle => "vehicle",
            Section::Engine => "engine",
            Section::Wheels => "wheels",
            Section::Timing => "timing",
            Section::Session => "session",
            Section::Weather => "weather",
            Section::Pit => "pit",
            Section::Electronics => "electronics",
            Section::Damage => "damage",
            Section::Competitors => "competitors",
            Section::Driver => "driver",
            Section::Extras => "extras",
        }
    }
}

/// Whether a section is emitted under a mask: always without a mask or with an
/// all-mask, else where the mask admits its name.
pub open spec fn emits(mask: Option<MaskView>, s: Section) -> bool {
    match mask {
        None => true,
        Some(m) => m.include_all || admits(m, section_name(s)),
    }
}

/// The populated sections that a projection keeps, in order.
pub open spec fn projected(mask: Option<MaskView>, populated: Seq<Section>) -> Seq<Section>
    decreases populated.len(),
{
    if populated.len() == 0 {
        Seq::empty()
    } else {
        let rest = projected(mask, populated.drop_last());
        if emits(mask, populated.last()) {
            rest.push(populated.last())
        } else {
            rest
        }
    }
}

pub open spec fn mask_view(mask: Option<&FieldMask>) -> Option<MaskView> {
    match mask {
        Some(m) => Some(m@),
        None => None,
    }
}

/// The sections to emit of a frame whose populated sections are `populated`; the
/// header (timestamp, source, tick) is always emitted besides them.
pub fn projected_sections(mask: Option<&FieldMask>, populated: &Vec<Section>) -> (r: Vec<Section>)
    ensures
        r@ == projected(mask_view(mask), populated@),
{
    let mut out: Vec<Section> = Vec::new();
    let mut i: usize = 0;
    while i < populated.len()
        invariant
            i <= populated@.len(),
            out@ == projected(mask_view(mask), populated@.take(i as int)),
        decreases populated@.len() - i,
    {
        let s = populated[i];
        proof {
            assert(populated@.take(i + 1).drop_last() =~= populated@.take(i as int));
            assert(populated@.take(i + 1).last() == s);
        }
        let keep = match mask {
            None => true,
            Some(m) => m.is_all() || m.includes_lowered(s.name()),
        };
        if keep {
            out.push(s);
        }
        i = i + 1;
    }
    proof {
        assert(populated@.take(populated@.len() as int) =~= populated@);
    }
    out
}

proof fn lemma_projected_members(mask: Option<MaskView>, populated: Seq<Section>, s: Section)
    ensures
        projected(mask, populated).contains(s) <==> (populated.contains(s) && emits(mask, s)),
    decreases populated.len(),
{
    if populated.len() > 0 {
        let p = populated.drop_last();
        lemma_projected_members(mask, p, s);
        assert(populated =~= p.push(populated.last()));
        if populated.contains(s) && s != populated.last() {
            let k = choose|k: int| 0 <= k < populated.len() && populated[k] == s;
            assert(p[k] == s);
        }
        if p.contains(s) {
            let k = choose|k: int| 0 <= k < p.len() && p[k] == s;
            assert(populated[k] == s);
        }
        let rest = projected(mask, p);
        if emits(mask, populated.last()) {
            assert(rest.push(populated.last()).last() == populated.last());
            if rest.contains(s) {
                let k = choose|k: int| 0 <= k < rest.len() && rest[k] == s;
                assert(rest.push(populated.last())[k] == s);
            }
            if rest.push(populated.last()).contains(s) && s != populated.last() {
                let k = choose|k: int|
                    0 <= k < rest.push(populated.last()).len() && rest.push(populated.last())[k]
                        == s;
                assert(rest[k] == s);
            }
        }
    }
}

/// A projection keeps exactly the sections that are populated and that the mask admits.
pub proof fn lemma_projection_exact(mask: Option<MaskView>, populated: Seq<Section>, s: Section)
    ensures
        projected(mask, populated).contains(s) <==> (populated.contains(s) && emits(mask, s)),
{
    lemma_projected_members(mask, populated, s);
}

} // verus!
