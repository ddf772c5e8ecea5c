use vstd::prelude::*;

verus! {

/// The half of the keyboard that a firmware image is built for.
#[derive(Clone, Copy, Debug, PartialEq, Eq, Structural, Hash)]
pub enum Half {
    Left,
    Right,
}

impl Half {
    pub open spec fn spec_opposite(self) -> Half {
        match self {
            Half::Left => Half::Right,
            Half::Right => Half::Left,
        }
    }

    /// The other half of the keyboard.
    pub fn opposite(self) -> (other: Half)
        ensures
            other == self.spec_opposite(),
    {
        match self {
            Half::Left => Half::Right,
            Half::Right => Half::Left,
        }
    }
}

/// A target of an operation, seen from the half that issues it.
#[derive(Clone, Copy, Debug, PartialEq, Eq, Structural, Hash)]
pub enum Side {
    This,
    Other,
    Left,
    Right,
    Both,
}

impl Side {
    /// Whether an operation aimed at `self` must run on the half `half`
    /// that issues it.
    pub open spec fn spec_includes_this(self, half: Half) -> bool {
        match self {
            Side::This => true,
            Side::Other => false,
            Side::Left => half == Half::Left,
            Side::Right => half == Half::Right,
            Side::Both => true,
        }
    }

    /// Whether an operation aimed at `self` must be forwarded from the half
    /// `half` to the other half.
    pub open spec fn spec_includes_other(self, half: Half) -> bool {
        match self {
            Side::This => false,
            Side::Other => true,
            Side::Left => half == Half::Right,
            Side::Right => half == Half::Left,
            Side::Both => true,
        }
    }

    pub fn includes_this(&self, half: Half) -> (included: bool)
        ensures
            included == self.spec_includes_this(half),
    {
        match self {
            Side::This => true,
            Side::Other => false,
            Side::Left => half == Half::Left,
            Side::Right => half == Half::Right,
            Side::Both => true,
        }
    }

    pub fn includes_other(&self, half: Half) -> (included: bool)
        ensures
            included == self.spec_includes_other(half),
    {
        match self {
            Side::This => false,
            Side::Other => true,
            Side::Left => half == Half::Right,
            Side::Right => half == Half::Left,
            Side::Both => true,
        }
    }
}

/// `This` and `Other` name halves relative to the issuer: whichever half
/// issues an operation, `This` runs it there only and `Other` only forwards
/// it.
pub proof fn lemma_relative_sides_ignore_the_half(half: Half)
    ensures
        Side::This.spec_includes_this(half) && !Side::This.spec_includes_other(half),
        !Side::Other.spec_includes_this(half) && Side::Other.spec_includes_other(half),
        Side::This.spec_includes_this(half) == Side::This.spec_includes_this(half.spec_opposite()),
        Side::Other.spec_includes_other(half) == Side::Other.spec_includes_other(half.spec_opposite()),
{
}

/// `Left`, `Right` and `Both` name halves absolutely: an operation aimed at
/// one of them runs on a half exactly when, issued from the opposite half,
/// it would be forwarded; `Left` and `Right` reach exactly one half, `Both`
/// reaches both, and every side reaches some half.
pub proof fn lemma_absolute_sides_agree_across_halves(side: Side, half: Half)
    ensures
        side is Left || side is Right || side is Both ==> side.spec_includes_this(half) == side.spec_includes_other(half.spec_opposite()),
        side is Left ==> (side.spec_includes_this(half) <==> half == Half::Left) && side.spec_includes_this(half) != side.spec_includes_other(half),
        side is Right ==> (side.spec_includes_this(half) <==> half == Half::Right) && side.spec_includes_this(half) != side.spec_includes_other(half),
        side is Both ==> side.spec_includes_this(half) && side.spec_includes_other(half),
        side.spec_includes_this(half) || side.spec_includes_other(half),
{
}

/// Where an operation is delivered: to this half's own task, or to the other
/// half over the link between the halves.
#[derive(Clone, Copy, Debug, PartialEq, Eq, Structural)]
pub enum Destination {
    ThisHalf,
    OtherHalf,
}

/// The destinations of an operation aimed at `side` and issued on `half`:
/// this half first, then the other half.
pub open spec fn spec_destinations(side: Side, half: Half) -> Seq<Destination> {
    (if side.spec_includes_this(half) {
        seq![Destination::ThisHalf]
    } else {
        Seq::empty()
    }) + (if side.spec_includes_other(half) {
        seq![Destination::OtherHalf]
    } else {
        Seq::empty()
    })
}

/// The destinations of an operation aimed at `side` and issued on `half`.
pub fn destinations(side: Side, half: Half) -> (targets: Vec<Destination>)
    ensures
        targets@ == spec_destinations(side, half),
{
    let mut targets: Vec<Destination> = Vec::new();
    if side.includes_this(half) {
        targets.push(Destination::ThisHalf);
    }
    if side.includes_other(half) {
        targets.push(Destination::OtherHalf);
    }
    proof {
        assert(targets@ =~= spec_destinations(side, half));
    }
    targets
}

/// `item` paired with each destination of an operation aimed at `side`.
pub open spec fn spec_route<T>(side: Side, half: Half, item: T) -> Seq<(Destination, T)> {
    spec_destinations(side, half).map_values(|d: Destination| (d, item))
}

/// Pairs `item` with each destination of an operation aimed at `side`.
pub fn route<T: Copy>(side: Side, half: Half, item: T) -> (routed: Vec<(Destination, T)>)
    ensures
        routed@ == spec_route(side, half, item),
{
    let targets = destinations(side, half);
    let mut routed: Vec<(Destination, T)> = Vec::new();
    let mut i: usize = 0;
    while i < targets.len()
        invariant
            i <= targets@.len(),
            targets@ == spec_destinations(side, half),
            routed@ == targets@.take(i as int).map_values(|d: Destination| (d, item)),
        decreases targets@.len() - i,
    {
        routed.push((targets[i], item));
        proof {
            assert(targets@.take(i + 1) =~= targets@.take(i as int).push(targets@[i as int]));
        }
        i = i + 1;
        proof {
            assert(routed@ =~= targets@.take(i as int).map_values(|d: Destination| (d, item)));
        }
    }
    proof {
        assert(targets@.take(targets@.len() as int) =~= targets@);
    }
    routed
}

/// Every side names at least one half, whichever half issues the operation.
pub proof fn lemma_side_reaches_some_half(side: Side, half: Half)
    ensures
        side.spec_includes_this(half) || side.spec_includes_other(half),
{
}

/// A side that names a physical half (`Left` or `Right`) names exactly one of
/// the two halves.
pub proof fn lemma_named_half_is_exclusive(side: Side, half: Half)
    requires
        side == Side::Left || side == Side::Right,
    ensures
        side.spec_includes_this(half) != side.spec_includes_other(half),
{
}

/// A physical half is reached the same way from both halves: it runs locally
/// on one of them exactly when the other forwards it.
pub proof fn lemma_named_half_agrees_across_halves(side: Side, half: Half)
    requires
        side == Side::Left || side == Side::Right,
    ensures
        side.spec_includes_this(half) == side.spec_includes_other(half.spec_opposite()),
{
}

} // verus!
