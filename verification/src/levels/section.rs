//! The sections that group the game's levels.
use vstd::prelude::*;

use crate::util::text::push_str;

verus! {

/// A section of levels. Sections are ordered as they are declared.
#[derive(Debug, PartialEq, Eq, Structural, Hash, Clone, Copy, PartialOrd, Ord)]
pub enum SectionName {
    Basic,
    Boolean,
    PairAndList,
    Recursion,
    Numerals,
}

/// Position of a section in the order of sections.
pub open spec fn section_rank(s: SectionName) -> nat {
    match s {
        SectionName::Basic => 0,
        SectionName::Boolean => 1,
        SectionName::PairAndList => 2,
        SectionName::Recursion => 3,
        SectionName::Numerals => 4,
    }
}

/// The name under which a section is shown and written in level files.
pub open spec fn section_text(s: SectionName) -> Seq<char> {
    match s {
        SectionName::Basic => "basic"@,
        SectionName::Boolean => "boolean"@,
        SectionName::PairAndList => "pair and list"@,
        SectionName::Recursion => "recursion"@,
        SectionName::Numerals => "numerals"@,
    }
}

impl SectionName {
    pub fn rank(&self) -> (r: u8)
        ensures
            r == section_rank(*self),
    {
        match self {
            SectionName::Basic => 0,
            SectionName::Boolean => 1,
            SectionName::PairAndList => 2,
            SectionName::Recursion => 3,
            SectionName::Numerals => 4,
        }
    }

    /// Whether `self` comes strictly before `other`.
    pub fn before(&self, other: &SectionName) -> (r: bool)
        ensures
            r == (section_rank(*self) < section_rank(*other)),
    {
        self.rank() < other.rank()
    }

    /// The section's name, as it is displayed.
    pub fn to_string(&self) -> (r: String)
        ensures
            r@ == section_text(*self),
    {
        let mut r = String::new();
        match self {
            SectionName::Basic => push_str(&mut r, "basic"),
            SectionName::Boolean => push_str(&mut r, "boolean"),
            SectionName::PairAndList => push_str(&mut r, "pair and list"),
            SectionName::Recursion => push_str(&mut r, "recursion"),
            SectionName::Numerals => push_str(&mut r, "numerals"),
        }
        proof {
            reveal_strlit("basic");
            reveal_strlit("boolean");
            reveal_strlit("pair and list");
            reveal_strlit("recursion");
            reveal_strlit("numerals");
        }
        r
    }

    /// All sections, in order.
    pub fn all() -> (r: Vec<SectionName>)
        ensures
            r@ == seq![
                SectionName::Basic,
                SectionName::Boolean,
                SectionName::PairAndList,
                SectionName::Recursion,
                SectionName::Numerals,
            ],
    {
        let mut r = Vec::new();
        r.push(SectionName::Basic);
        r.push(SectionName::Boolean);
        r.push(SectionName::PairAndList);
        r.push(SectionName::Recursion);
        r.push(SectionName::Numerals);
        r
    }
}

/// The sections in the order they are declared, which is the order of
/// `SectionName::all`.
pub open spec fn declared_sections() -> Seq<SectionName> {
    seq![
        SectionName::Basic,
        SectionName::Boolean,
        SectionName::PairAndList,
        SectionName::Recursion,
        SectionName::Numerals,
    ]
}

/// Sections are ranked in the order they are declared: the `i`-th section
/// has rank `i`, so a section declared earlier comes before one declared
/// later, and no two sections share a rank.
pub proof fn rank_follows_declared_order()
    ensures
        forall|i: int| 0 <= i < declared_sections().len() ==> section_rank(#[trigger] declared_sections()[i]) == i,
        forall|i: int, j: int|
            0 <= i < j < declared_sections().len() ==> section_rank(#[trigger] declared_sections()[i])
                < section_rank(#[trigger] declared_sections()[j]),
        forall|a: SectionName, b: SectionName| section_rank(a) == section_rank(b) ==> a == b,
{
    assert forall|i: int| 0 <= i < declared_sections().len() implies section_rank(
        #[trigger] declared_sections()[i],
    ) == i by {
        if i == 0 {
        } else if i == 1 {
        } else if i == 2 {
        } else if i == 3 {
        } else {
        }
    }
}

} // verus!
