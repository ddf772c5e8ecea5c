use vstd::prelude::*;

use super::{BondSlot, FlashOperation, Peer, SystemAttributes};
use crate::side::{route, spec_route, Destination, Half, Side};

verus! {

/// The deliveries of a list of operations, each aimed at its side and issued
/// on `half`, in order.
pub open spec fn routes_of<B>(operations: Seq<(Side, FlashOperation<B>)>, half: Half) -> Seq<(Destination, FlashOperation<B>)>
    decreases operations.len(),
{
    if operations.len() == 0 {
        Seq::empty()
    } else {
        routes_of(operations.drop_last(), half) + spec_route(operations.last().0, half, operations.last().1)
    }
}

/// A batch of settings changes, each aimed at a side, that only takes effect
/// once applied: applying it delivers every change and then an `Apply` to
/// both halves.
pub struct FlashTransaction<B> {
    operations: Vec<(Side, FlashOperation<B>)>,
}

impl<B> View for FlashTransaction<B> {
    type V = Seq<(Side, FlashOperation<B>)>;

    closed spec fn view(&self) -> Seq<(Side, FlashOperation<B>)> {
        self.operations@
    }
}

impl<B: Copy> FlashTransaction<B> {
    /// An empty transaction.
    pub fn new() -> (transaction: Self)
        ensures
            transaction@ == Seq::<(Side, FlashOperation<B>)>::empty(),
    {
        FlashTransaction { operations: Vec::new() }
    }

    fn queue_inner(self, side: Side, operation: FlashOperation<B>) -> (transaction: Self)
        ensures
            transaction@ == self@.push((side, operation)),
    {
        let mut operations = self.operations;
        operations.push((side, operation));
        FlashTransaction { operations }
    }

    pub fn store_peer(self, side: Side, slot: BondSlot, peer: Peer) -> (transaction: Self)
        ensures
            transaction@ == self@.push((side, FlashOperation::StorePeer { slot, peer })),
    {
        self.queue_inner(side, FlashOperation::StorePeer { slot, peer })
    }

    pub fn store_system_attributes(self, side: Side, slot: BondSlot, system_attributes: SystemAttributes) -> (transaction: Self)
        ensures
            transaction@ == self@.push((side, FlashOperation::StoreSystemAttributes { slot, system_attributes })),
    {
        self.queue_inner(side, FlashOperation::StoreSystemAttributes { slot, system_attributes })
    }

    pub fn remove_bond(self, side: Side, slot: BondSlot) -> (transaction: Self)
        ensures
            transaction@ == self@.push((side, FlashOperation::RemoveBond(slot))),
    {
        self.queue_inner(side, FlashOperation::RemoveBond(slot))
    }

    pub fn switch_animation(self, side: Side, animation: usize) -> (transaction: Self)
        ensures
            transaction@ == self@.push((side, FlashOperation::SwitchAnimation(animation))),
    {
        self.queue_inner(side, FlashOperation::SwitchAnimation(animation))
    }

    pub fn store_board_flash(self, side: Side, board_flash: B) -> (transaction: Self)
        ensures
            transaction@ == self@.push((side, FlashOperation::StoreBoardFlash(board_flash))),
    {
        self.queue_inner(side, FlashOperation::StoreBoardFlash(board_flash))
    }

    pub fn reset_persistent_data(self, side: Side) -> (transaction: Self)
        ensures
            transaction@ == self@.push((side, FlashOperation::ResetPersistentData)),
    {
        self.queue_inner(side, FlashOperation::ResetPersistentData)
    }

    /// Every delivery the transaction makes when applied on `half`: each
    /// change to the halves that its side names, in order, then `Apply` to
    /// both halves. Each half thus receives, in order, the changes aimed at
    /// it and then `Apply`.
    pub fn routes(&self, half: Half) -> (routed: Vec<(Destination, FlashOperation<B>)>)
        ensures
            routed@ == routes_of(self@.push((Side::Both, FlashOperation::Apply)), half),
            forall|destination: Destination|
                #[trigger] delivered_to(routed@, destination) == aimed_at(self@, half, destination).push(
                    FlashOperation::Apply,
                ),
    {
        let mut routed: Vec<(Destination, FlashOperation<B>)> = Vec::new();
        let mut i: usize = 0;
        while i < self.operations.len()
            invariant
                i <= self@.len(),
                self@ == self.operations@,
                routed@ == routes_of(self@.take(i as int), half),
            decreases self@.len() - i,
        {
            let (side, operation) = self.operations[i];
            let mut more = route(side, half, operation);
            routed.append(&mut more);
            proof {
                assert(self@.take(i + 1).drop_last() =~= self@.take(i as int));
            }
            i = i + 1;
        }
        let mut last = route(Side::Both, half, FlashOperation::Apply);
        routed.append(&mut last);
        proof {
            assert(self@.take(self@.len() as int) =~= self@);
            assert(self@.push((Side::Both, FlashOperation::Apply)).drop_last() =~= self@);
            assert forall|destination: Destination|
                #[trigger] delivered_to(routed@, destination) == aimed_at(self@, half, destination).push(
                    FlashOperation::Apply,
                ) by {
                lemma_transaction_delivery(self@, half, destination);
            }
        }
        routed
    }
}

/// An applied transaction always ends by telling both halves to write their
/// settings to the flash.
pub proof fn lemma_transaction_ends_with_apply<B>(operations: Seq<(Side, FlashOperation<B>)>, half: Half)
    ensures
        ({
            let routed = routes_of(operations.push((Side::Both, FlashOperation::Apply)), half);
            &&& routed.len() >= 2
            &&& routed[routed.len() - 2] == (Destination::ThisHalf, FlashOperation::<B>::Apply)
            &&& routed[routed.len() - 1] == (Destination::OtherHalf, FlashOperation::<B>::Apply)
        }),
{
    let all = operations.push((Side::Both, FlashOperation::<B>::Apply));
    assert(all.drop_last() =~= operations);
    let tail = spec_route(Side::Both, half, FlashOperation::<B>::Apply);
    assert(tail.len() == 2);
}

} // verus!

verus! {

/// The operations that `routed` delivers to `destination`, in order.
pub open spec fn delivered_to<B>(routed: Seq<(Destination, FlashOperation<B>)>, destination: Destination) -> Seq<FlashOperation<B>>
    decreases routed.len(),
{
    if routed.len() == 0 {
        Seq::empty()
    } else {
        let earlier = delivered_to(routed.drop_last(), destination);
        if routed.last().0 == destination {
            earlier.push(routed.last().1)
        } else {
            earlier
        }
    }
}

/// Whether an operation aimed at `side`, issued on `half`, goes to
/// `destination`.
pub open spec fn goes_to(side: Side, half: Half, destination: Destination) -> bool {
    match destination {
        Destination::ThisHalf => side.spec_includes_this(half),
        Destination::OtherHalf => side.spec_includes_other(half),
    }
}

/// The operations of a list whose side includes `destination`, in order.
pub open spec fn aimed_at<B>(operations: Seq<(Side, FlashOperation<B>)>, half: Half, destination: Destination) -> Seq<FlashOperation<B>>
    decreases operations.len(),
{
    if operations.len() == 0 {
        Seq::empty()
    } else {
        let earlier = aimed_at(operations.drop_last(), half, destination);
        if goes_to(operations.last().0, half, destination) {
            earlier.push(operations.last().1)
        } else {
            earlier
        }
    }
}

proof fn lemma_delivered_to_append<B>(
    a: Seq<(Destination, FlashOperation<B>)>,
    b: Seq<(Destination, FlashOperation<B>)>,
    destination: Destination,
)
    ensures
        delivered_to(a + b, destination) == delivered_to(a, destination) + delivered_to(b, destination),
    decreases b.len(),
{
    if b.len() == 0 {
        assert(a + b =~= a);
        assert(delivered_to(a, destination) + delivered_to(b, destination) =~= delivered_to(a, destination));
    } else {
        lemma_delivered_to_append(a, b.drop_last(), destination);
        assert((a + b).drop_last() =~= a + b.drop_last());
        assert((a + b).last() == b.last());
        let x = delivered_to(a, destination);
        let y = delivered_to(b.drop_last(), destination);
        if b.last().0 == destination {
            assert((x + y).push(b.last().1) =~= x + y.push(b.last().1));
        }
    }
}

proof fn lemma_delivered_to_route<B>(side: Side, half: Half, operation: FlashOperation<B>, destination: Destination)
    ensures
        delivered_to(spec_route(side, half, operation), destination) == if goes_to(side, half, destination) {
            seq![operation]
        } else {
            Seq::empty()
        },
{
    let routed = spec_route(side, half, operation);
    reveal_with_fuel(delivered_to, 3);
    if side.spec_includes_this(half) && side.spec_includes_other(half) {
        assert(routed =~= seq![(Destination::ThisHalf, operation), (Destination::OtherHalf, operation)]);
        assert(routed.drop_last() =~= seq![(Destination::ThisHalf, operation)]);
        assert(routed.drop_last().drop_last() =~= Seq::<(Destination, FlashOperation<B>)>::empty());
    } else if side.spec_includes_this(half) {
        assert(routed =~= seq![(Destination::ThisHalf, operation)]);
        assert(routed.drop_last() =~= Seq::<(Destination, FlashOperation<B>)>::empty());
    } else if side.spec_includes_other(half) {
        assert(routed =~= seq![(Destination::OtherHalf, operation)]);
        assert(routed.drop_last() =~= Seq::<(Destination, FlashOperation<B>)>::empty());
    } else {
        assert(routed =~= Seq::<(Destination, FlashOperation<B>)>::empty());
    }
}

/// Each half receives, in order, the operations whose side includes it.
pub proof fn lemma_routes_per_half<B>(operations: Seq<(Side, FlashOperation<B>)>, half: Half, destination: Destination)
    ensures
        delivered_to(routes_of(operations, half), destination) == aimed_at(operations, half, destination),
    decreases operations.len(),
{
    if operations.len() > 0 {
        lemma_routes_per_half(operations.drop_last(), half, destination);
        lemma_delivered_to_append(
            routes_of(operations.drop_last(), half),
            spec_route(operations.last().0, half, operations.last().1),
            destination,
        );
        lemma_delivered_to_route(operations.last().0, half, operations.last().1, destination);
        let x = aimed_at(operations.drop_last(), half, destination);
        if goes_to(operations.last().0, half, destination) {
            assert(x + seq![operations.last().1] =~= x.push(operations.last().1));
        } else {
            assert(x + Seq::<FlashOperation<B>>::empty() =~= x);
        }
    }
}

/// Applying a transaction delivers to each half, in order, the changes
/// aimed at it, then `Apply`; nothing is left out.
pub proof fn lemma_transaction_delivery<B>(operations: Seq<(Side, FlashOperation<B>)>, half: Half, destination: Destination)
    ensures
        delivered_to(routes_of(operations.push((Side::Both, FlashOperation::Apply)), half), destination)
            == aimed_at(operations, half, destination).push(FlashOperation::Apply),
{
    let all = operations.push((Side::Both, FlashOperation::<B>::Apply));
    lemma_routes_per_half(all, half, destination);
    assert(all.drop_last() =~= operations);
}

} // verus!
