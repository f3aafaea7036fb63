//! Identities of project parts.
use vstd::prelude::*;
use crate::value::Value;

verus! {

/// Identity of a frame.
#[derive(Clone, Copy, Debug, PartialEq, Eq, PartialOrd, Ord, Hash, Structural)]
pub struct FrameId {
    /// The identity as a number.
    pub value: u128,
}

impl FrameId {
    /// The frame identity of the given number.
    pub fn from_u128(value: u128) -> (id: FrameId)
        ensures
            id.value == value,
    {
        FrameId { value }
    }
}

/// Identity of an overlay track.
#[derive(Clone, Copy, Debug, PartialEq, Eq, PartialOrd, Ord, Hash, Structural)]
pub struct TrackId {
    /// The identity as a number.
    pub value: u128,
}

impl TrackId {
    /// The track identity of the given number.
    pub fn from_u128(value: u128) -> (id: TrackId)
        ensures
            id.value == value,
    {
        TrackId { value }
    }
}

/// Identity of an overlay item or frame mark.
#[derive(Clone, Copy, Debug, PartialEq, Eq, PartialOrd, Ord, Hash, Structural)]
pub struct OverlayId {
    /// The identity as a number.
    pub value: u128,
}

impl OverlayId {
    /// The overlay identity of the given number.
    pub fn from_u128(value: u128) -> (id: OverlayId)
        ensures
            id.value == value,
    {
        OverlayId { value }
    }
}

/// Identity of a transition.
#[derive(Clone, Copy, Debug, PartialEq, Eq, PartialOrd, Ord, Hash, Structural)]
pub struct TransitionId {
    /// The identity as a number.
    pub value: u128,
}

impl TransitionId {
    /// The transition identity of the given number.
    pub fn from_u128(value: u128) -> (id: TransitionId)
        ensures
            id.value == value,
    {
        TransitionId { value }
    }
}

/// Identity of a project.
#[derive(Clone, Copy, Debug, PartialEq, Eq, PartialOrd, Ord, Hash, Structural)]
pub struct ProjectId {
    /// The identity as a number.
    pub value: u128,
}

impl ProjectId {
    /// The project identity of the given number.
    pub fn from_u128(value: u128) -> (id: ProjectId)
        ensures
            id.value == value,
    {
        ProjectId { value }
    }
}

/// Content digest that names a stored blob.
#[derive(Clone, Copy, Debug, PartialEq, Eq, PartialOrd, Ord, Hash, Structural)]
pub struct AssetId {
    /// First half of the digest.
    pub high: u128,
    /// Second half of the digest.
    pub low: u128,
}

impl AssetId {
    /// Whether `self` comes before `other` in digest order.
    pub open spec fn before(self, other: AssetId) -> bool {
        self.high < other.high || (self.high == other.high && self.low < other.low)
    }

    /// Whether `self` comes before `other` in digest order.
    pub fn is_before(self, other: AssetId) -> (result: bool)
        ensures
            result == self.before(other),
    {
        self.high < other.high || (self.high == other.high && self.low < other.low)
    }
}

impl View for FrameId {
    type V = FrameId;

    open spec fn view(&self) -> FrameId {
        *self
    }
}

impl Value for FrameId {
    fn duplicate(&self) -> (copy: Self) {
        *self
    }

    fn same(&self, other: &Self) -> (equal: bool) {
        *self == *other
    }
}

/// Whether `id` is one of `ids`.
pub fn contains_frame(ids: &Vec<FrameId>, id: FrameId) -> (found: bool)
    ensures
        found == ids@.contains(id),
{
    let mut index: usize = 0;
    while index < ids.len()
        invariant
            index <= ids.len(),
            forall|i: int| 0 <= i < index ==> ids@[i] != id,
        decreases ids.len() - index,
    {
        if ids[index] == id {
            assert(ids@[index as int] == id);
            return true;
        }
        index += 1;
    }
    false
}

/// Assets are ordered by their high half first, strictly, and any two of them can be compared.
pub proof fn law_assets_stand_in_one_order(one: AssetId, other: AssetId, third: AssetId)
    ensures
        !one.before(one),
        one.before(other) && other.before(third) ==> one.before(third),
        one.before(other) || other.before(one) || one == other,
        one.high < other.high ==> one.before(other),
        one.high == other.high && one.low < other.low ==> one.before(other),
{
}

} // verus!
