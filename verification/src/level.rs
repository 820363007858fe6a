//! The visibility level and its merge.
//!
//! Every visibility flag on the command line asks for a level. The effective
//! level is the merge of all of them, and the merge is the join of a chain, so
//! flags may be repeated and combined in any order.

use crate::text::str_eq;
use core::cmp::Ordering;
use vstd::prelude::*;

verus! {

/// How much of the hidden/ignored hierarchy a listing shows, from the
/// strictest level to the most permissive one.
///
/// Ignored files are a subset of hidden files, so the three levels form a
/// chain: `HideHidden < HideIgnored < ShowAll`.
#[derive(Clone, Copy, Debug, PartialEq, Eq, Structural, Ord, Hash)]
pub enum HideOption {
    /// Show neither hidden nor ignored files. This is the default.
    HideHidden,
    /// Show hidden files, but not the ignored ones among them.
    HideIgnored,
    /// Show everything.
    ShowAll,
}

/// The long flag that asks for hidden files.
pub open spec fn show_hidden_flag() -> Seq<char> {
    "--show-hidden"@
}

/// The long flag that asks for ignored files, and with them for all hidden ones.
pub open spec fn show_ignored_flag() -> Seq<char> {
    "--show-ignored"@
}

/// The level that a short flag asks for, if it is a visibility flag.
pub open spec fn spec_from_short_flag(c: char) -> Option<HideOption> {
    if c == 'a' {
        Some(HideOption::HideIgnored)
    } else if c == 'A' {
        Some(HideOption::ShowAll)
    } else {
        None
    }
}

/// The level that a long flag asks for, if it is a visibility flag.
pub open spec fn spec_from_long_flag(token: Seq<char>) -> Option<HideOption> {
    if token == show_hidden_flag() {
        Some(HideOption::HideIgnored)
    } else if token == show_ignored_flag() {
        Some(HideOption::ShowAll)
    } else {
        None
    }
}

/// The merge of a sequence of levels, taken from left to right.
pub open spec fn merge_all(levels: Seq<HideOption>) -> HideOption
    decreases levels.len(),
{
    if levels.len() == 0 {
        HideOption::HideHidden
    } else {
        merge_all(levels.drop_last()).spec_merge(levels.last())
    }
}

impl HideOption {
    /// Position of the level in the chain, `0` for the strictest.
    pub open spec fn spec_rank(self) -> nat {
        match self {
            HideOption::HideHidden => 0,
            HideOption::HideIgnored => 1,
            HideOption::ShowAll => 2,
        }
    }

    /// `self` shows at most what `other` shows.
    pub open spec fn spec_le(self, other: HideOption) -> bool {
        self.spec_rank() <= other.spec_rank()
    }

    /// The more permissive of two levels.
    pub open spec fn spec_merge(self, other: HideOption) -> HideOption {
        if other.spec_rank() <= self.spec_rank() {
            self
        } else {
            other
        }
    }

    /// Position of the level in the chain, `0` for the strictest.
    pub fn rank(self) -> (r: u8)
        ensures
            r == self.spec_rank(),
    {
        match self {
            HideOption::HideHidden => 0,
            HideOption::HideIgnored => 1,
            HideOption::ShowAll => 2,
        }
    }

    /// Returns the more permissive of the two levels.
    pub fn merge(self, other: HideOption) -> (r: HideOption)
        ensures
            r == self.spec_merge(other),
    {
        if other.rank() <= self.rank() {
            self
        } else {
            other
        }
    }

    /// Reads one short flag: `a` asks for hidden files, `A` for everything.
    /// Any other character is no visibility flag.
    pub fn from_short_flag(c: char) -> (r: Option<HideOption>)
        ensures
            r == spec_from_short_flag(c),
    {
        if c == 'a' {
            Some(HideOption::HideIgnored)
        } else if c == 'A' {
            Some(HideOption::ShowAll)
        } else {
            None
        }
    }

    /// Reads one long flag: `--show-hidden` asks for hidden files,
    /// `--show-ignored` for everything. Any other token is no visibility flag.
    pub fn from_long_flag(token: &str) -> (r: Option<HideOption>)
        ensures
            r == spec_from_long_flag(token@),
    {
        if str_eq(token, "--show-hidden") {
            Some(HideOption::HideIgnored)
        } else if str_eq(token, "--show-ignored") {
            Some(HideOption::ShowAll)
        } else {
            None
        }
    }
}

impl PartialOrd for HideOption {
    /// Compares two levels by their place in the chain.
    fn partial_cmp(&self, other: &HideOption) -> (r: Option<Ordering>) {
        let a = self.rank();
        let b = other.rank();
        if a < b {
            Some(Ordering::Less)
        } else if a == b {
            Some(Ordering::Equal)
        } else {
            Some(Ordering::Greater)
        }
    }
}

impl vstd::std_specs::cmp::PartialOrdSpecImpl for HideOption {
    open spec fn obeys_partial_cmp_spec() -> bool {
        true
    }

    open spec fn partial_cmp_spec(&self, other: &HideOption) -> Option<Ordering> {
        if self.spec_rank() < other.spec_rank() {
            Some(Ordering::Less)
        } else if self.spec_rank() == other.spec_rank() {
            Some(Ordering::Equal)
        } else {
            Some(Ordering::Greater)
        }
    }
}

impl Default for HideOption {
    /// The strictest level.
    fn default() -> (r: HideOption)
        ensures
            r == HideOption::HideHidden,
    {
        HideOption::HideHidden
    }
}

impl core::ops::Add for HideOption {
    type Output = HideOption;

    /// Returns which of the two levels shows the most files.
    fn add(self, rhs: HideOption) -> (r: HideOption) {
        self.merge(rhs)
    }
}

impl vstd::std_specs::ops::AddSpecImpl for HideOption {
    open spec fn obeys_add_spec() -> bool {
        true
    }

    open spec fn add_req(self, rhs: HideOption) -> bool {
        true
    }

    open spec fn add_spec(self, rhs: HideOption) -> HideOption {
        self.spec_merge(rhs)
    }
}

impl core::ops::AddAssign for HideOption {
    /// Raises `self` to the more permissive of itself and `rhs`.
    fn add_assign(&mut self, rhs: HideOption)
        ensures
            *final(self) == old(self).spec_merge(rhs),
    {
        *self = self.merge(rhs);
    }
}

/// Merging a level with itself changes nothing.
pub proof fn lemma_merge_idempotent(x: HideOption)
    ensures
        x.spec_merge(x) == x,
{
}

/// The order of the two levels does not matter to their merge.
pub proof fn lemma_merge_commutative(x: HideOption, y: HideOption)
    ensures
        x.spec_merge(y) == y.spec_merge(x),
{
}

/// Three levels merge to the same level however they are grouped.
pub proof fn lemma_merge_associative(x: HideOption, y: HideOption, z: HideOption)
    ensures
        x.spec_merge(y).spec_merge(z) == x.spec_merge(y.spec_merge(z)),
{
}

/// The strictest level is the identity of the merge, on either side.
pub proof fn lemma_merge_identity(x: HideOption)
    ensures
        HideOption::HideHidden.spec_merge(x) == x,
        x.spec_merge(HideOption::HideHidden) == x,
{
}

/// The merge is the least upper bound of the two levels in the chain: it is
/// above both, and below every level that is above both.
pub proof fn lemma_merge_is_join(x: HideOption, y: HideOption, z: HideOption)
    ensures
        x.spec_le(x.spec_merge(y)),
        y.spec_le(x.spec_merge(y)),
        x.spec_le(z) && y.spec_le(z) ==> x.spec_merge(y).spec_le(z),
        x.spec_le(y) <==> x.spec_merge(y) == y,
{
}

/// The chain is a total order: any two levels compare, and two levels that
/// are below each other are the same level.
pub proof fn lemma_level_order_total(x: HideOption, y: HideOption, z: HideOption)
    ensures
        x.spec_le(y) || y.spec_le(x),
        x.spec_le(y) && y.spec_le(x) ==> x == y,
        x.spec_le(y) && y.spec_le(z) ==> x.spec_le(z),
        HideOption::HideHidden.spec_le(x),
        x.spec_le(HideOption::ShowAll),
{
}

/// Merging two sequences of levels one after the other gives the merge of
/// their merges.
pub proof fn lemma_merge_all_concat(a: Seq<HideOption>, b: Seq<HideOption>)
    ensures
        merge_all(a + b) == merge_all(a).spec_merge(merge_all(b)),
    decreases b.len(),
{
    if b.len() == 0 {
    } else {
        assert((a + b).drop_last() == a + b.drop_last());
        lemma_merge_all_concat(a, b.drop_last());
    }
}

/// The merge of a sequence of levels is the most permissive level in it:
/// `ShowAll` if that occurs, else `HideIgnored` if that occurs, else the
/// default. So neither the order nor the number of occurrences matters.
pub proof fn lemma_merge_all_is_max(levels: Seq<HideOption>)
    ensures
        merge_all(levels) == if levels.contains(HideOption::ShowAll) {
            HideOption::ShowAll
        } else if levels.contains(HideOption::HideIgnored) {
            HideOption::HideIgnored
        } else {
            HideOption::HideHidden
        },
    decreases levels.len(),
{
    if levels.len() > 0 {
        let init = levels.drop_last();
        lemma_merge_all_is_max(init);
        assert(levels == init.push(levels.last()));
    }
}

} // verus!
