//! What holds of every run, whatever its driver reports.

use crate::fleet::bids::{
    absorbed, admitted, all_called_off, any_open, lemma_cancel_is_idempotent, live_ids, placed,
    BidRequest, Instance,
};
use crate::fleet::instances::{
    begins_with, bids_below, count_in_group, lemma_count_is_bounded, lemma_quota_fills_fleet,
    lemma_recorded, quota_met, recorded, total_ordered,
};
use crate::fleet::model::{
    aligned, asks, cancellation_over, in_group, instance_ids, instances_heard, inv, named, next,
    reached, Action, Event, Phase, RunView,
};
use crate::fleet::pace::lemma_slowing_nears_deadline;
use crate::fleet::readiness::{description_of, reachable, InstanceDescription};
use vstd::prelude::*;

verus! {

proof fn lemma_placed_below(results: Seq<Option<Vec<String>>>, upto: int, groups: int)
    requires
        upto <= groups,
    ensures
        bids_below(placed(results, upto), groups),
    decreases upto,
{
    if upto > 0 {
        lemma_placed_below(results, upto - 1, groups);
    }
}

proof fn lemma_called_off_closed(bids: Seq<BidRequest>)
    requires
        !any_open(bids),
    ensures
        !any_open(all_called_off(bids)),
{
    assert forall|i: int| 0 <= i < all_called_off(bids).len() implies !((
    #[trigger] all_called_off(bids)[i]).state is Open) by {
        assert(!(bids[i].state is Open));
    }
}

/// Whatever the driver reports, the run's invariant holds after it as it did
/// before.
pub proof fn lemma_next_keeps_inv(v: RunView, event: Event)
    requires
        inv(v),
    ensures
        inv(next(v, event)),
{
    let w = next(v, event);
    match (v.phase, event) {
        (Phase::Bidding, Event::BidsSubmitted(results)) => {
            let upto = if results@.len() <= v.orders.len() {
                results@.len() as int
            } else {
                v.orders.len() as int
            };
            lemma_placed_below(results@, upto, v.orders.len() as int);
            if admitted(results@, v.orders.len() as int) {
                assert(results@[upto - 1] is Some);
            }
        },
        (Phase::AwaitingFulfillment, Event::BidsDescribed { took_seconds, bids }) => {
            let descs = bids@;
            lemma_recorded(v.instances, v.bids, descs, v.orders.len() as int);
            assert(bids_below(absorbed(v.bids, descs), v.orders.len() as int)) by {
                assert forall|i: int| 0 <= i < absorbed(v.bids, descs).len() implies (
                #[trigger] absorbed(v.bids, descs)[i]).group < v.orders.len() by {
                    assert(v.bids[i].group < v.orders.len());
                }
            }
            if !v.pace.late(took_seconds) {
                lemma_slowing_nears_deadline(v.pace, took_seconds);
            }
            let instances = recorded(v.instances, v.bids, descs);
            if !any_open(absorbed(v.bids, descs)) && quota_met(v.orders, instances) {
                lemma_count_is_bounded(instances, 0);
                assert(v.orders[0].count > 0);
                lemma_called_off_closed(absorbed(v.bids, descs));
                assert forall|i: int|
                    0 <= i < all_called_off(absorbed(v.bids, descs)).len() implies (
                #[trigger] all_called_off(absorbed(v.bids, descs))[i]).group < v.orders.len() by {
                    assert(absorbed(v.bids, descs)[i].group < v.orders.len());
                }
            }
        },
        (Phase::CancellingBids, Event::BidsCancelled(ok)) => {
            if ok {
                lemma_called_off_closed(v.bids);
                assert forall|i: int| 0 <= i < all_called_off(v.bids).len() implies (
                #[trigger] all_called_off(v.bids)[i]).group < v.orders.len() by {
                    assert(v.bids[i].group < v.orders.len());
                }
            }
        },
        (Phase::AwaitingReadiness, Event::InstancesDescribed { took_seconds, instances }) => {
            if !v.pace.late(took_seconds) {
                lemma_slowing_nears_deadline(v.pace, took_seconds);
            }
        },
        _ => {},
    }
}

/// Whatever the driver reports and however often, the run's invariant holds.
pub proof fn lemma_reached_keeps_inv(v: RunView, events: Seq<Event>)
    requires
        inv(v),
    ensures
        inv(reached(v, events)),
    decreases events.len(),
{
    if events.len() > 0 {
        lemma_reached_keeps_inv(v, events.drop_last());
        lemma_next_keeps_inv(reached(v, events.drop_last()), events.last());
    }
}

/// The roster is complete: the run is ready or running, or its user has had
/// the fleet.
pub open spec fn complete(v: RunView) -> bool {
    v.phase is Ready || v.phase is Running || v.runner is Some
}

/// The run has ended in success.
pub open spec fn succeeded(v: RunView) -> bool {
    v.phase is Done && v.failure is None
}

proof fn lemma_group_members(v: RunView, g: int, upto: int)
    requires
        inv(v),
        aligned(v),
        0 <= g < v.orders.len(),
        0 <= upto <= v.roster.len(),
    ensures
        in_group(v.roster.take(upto), v.orders[g].group@).len() == count_in_group(
            v.instances.take(upto),
            g,
        ),
    decreases upto,
{
    if upto > 0 {
        lemma_group_members(v, g, upto - 1);
        assert(v.roster.take(upto).drop_last() == v.roster.take(upto - 1));
        assert(v.instances.take(upto).drop_last() == v.instances.take(upto - 1));
        let machine = v.roster[upto - 1];
        let instance = v.instances[upto - 1];
        assert(v.roster.take(upto).last() == machine);
        assert(v.instances.take(upto).last() == instance);
        assert(machine.group == v.orders[instance.group as int].group);
        assert(instance.group < v.orders.len());
        if instance.group != g {
            if instance.group < g {
                assert(v.orders[instance.group as int].group@ != v.orders[g].group@);
            } else {
                assert(v.orders[g].group@ != v.orders[instance.group as int].group@);
            }
        }
    }
}

/// A complete roster holds exactly as many machines as the fleet's groups
/// ask for together, and of each group exactly as many as that group asks
/// for. This holds of every run that succeeded.
pub proof fn lemma_roster_is_whole(v: RunView)
    requires
        inv(v),
        complete(v) || succeeded(v),
    ensures
        v.roster.len() == total_ordered(v.orders),
        forall|g: int|
            0 <= g < v.orders.len() ==> in_group(v.roster, (#[trigger] v.orders[g]).group@).len()
                == v.orders[g].count,
{
    lemma_quota_fills_fleet(v.orders, v.instances);
    assert forall|g: int| 0 <= g < v.orders.len() implies in_group(
        v.roster,
        (#[trigger] v.orders[g]).group@,
    ).len() == v.orders[g].count by {
        lemma_group_members(v, g, v.roster.len() as int);
        assert(v.roster.take(v.roster.len() as int) == v.roster);
        assert(v.instances.take(v.instances.len() as int) == v.instances);
    }
}

/// Every machine of `v`'s roster and every instance on `v`'s record is among
/// `instances`.
pub open spec fn covers(instances: Seq<Instance>, v: RunView) -> bool {
    &&& forall|i: int|
        0 <= i < v.instances.len() ==> instance_ids(instances).contains(
            (#[trigger] v.instances[i]).id,
        )
    &&& forall|i: int|
        0 <= i < v.roster.len() ==> instance_ids(instances).contains(
            (#[trigger] v.roster[i]).instance_id,
        )
}

proof fn lemma_record_covers(late: Seq<Instance>, v: RunView)
    requires
        inv(v),
        begins_with(late, v.instances),
    ensures
        covers(late, v),
{
    assert forall|i: int| 0 <= i < v.instances.len() implies instance_ids(late).contains(
        (#[trigger] v.instances[i]).id,
    ) by {
        assert(late.take(v.instances.len() as int)[i] == late[i]);
        assert(instance_ids(late)[i] == v.instances[i].id);
    }
    assert forall|i: int| 0 <= i < v.roster.len() implies instance_ids(late).contains(
        (#[trigger] v.roster[i]).instance_id,
    ) by {
        assert(aligned(v));
        assert(late.take(v.instances.len() as int)[i] == late[i]);
        assert(instance_ids(late)[i] == v.roster[i].instance_id);
    }
}

/// No report makes a run forget an instance.
pub proof fn lemma_next_never_forgets(v: RunView, event: Event)
    requires
        inv(v),
    ensures
        begins_with(next(v, event).instances, v.instances),
{
    match (v.phase, event) {
        (Phase::AwaitingFulfillment, Event::BidsDescribed { took_seconds, bids }) => {
            lemma_recorded(v.instances, v.bids, bids@, v.orders.len() as int);
        },
        _ => {
            assert(v.instances.take(v.instances.len() as int) == v.instances);
        },
    }
}

/// No sequence of reports makes a run forget an instance.
pub proof fn lemma_reached_never_forgets(v: RunView, events: Seq<Event>)
    requires
        inv(v),
    ensures
        begins_with(reached(v, events).instances, v.instances),
    decreases events.len(),
{
    if events.len() == 0 {
        assert(v.instances.take(v.instances.len() as int) == v.instances);
    } else {
        let before = reached(v, events.drop_last());
        let after = reached(v, events);
        lemma_reached_never_forgets(v, events.drop_last());
        lemma_reached_keeps_inv(v, events.drop_last());
        lemma_next_never_forgets(before, events.last());
        assert(after.instances.take(v.instances.len() as int) == before.instances.take(
            v.instances.len() as int,
        )) by {
            assert(after.instances.take(before.instances.len() as int).take(
                v.instances.len() as int,
            ) == after.instances.take(v.instances.len() as int));
        }
    }
}

/// Whenever a run turns to teardown, what it asks of its driver names every
/// instance that was ever on its record, and so every machine that ever was
/// on its roster.
pub proof fn lemma_teardown_names_all(v: RunView, events: Seq<Event>, action: Action)
    requires
        inv(v),
        reached(v, events).phase is TearingDown,
        asks(reached(v, events), action),
    ensures
        action matches Action::TearDown { terminate: asked, .. } && named(
            asked,
            instance_ids(reached(v, events).instances),
        ),
        covers(reached(v, events).instances, v),
{
    lemma_reached_never_forgets(v, events);
    lemma_record_covers(reached(v, events).instances, v);
}

/// From teardown on, a run's record of instances and its roster stay as they
/// are, and the run goes nowhere but to its end.
pub proof fn lemma_teardown_is_final(v: RunView, event: Event)
    requires
        v.phase is TearingDown || v.phase is Done,
    ensures
        next(v, event).phase is TearingDown || next(v, event).phase is Done,
        next(v, event).instances == v.instances,
        next(v, event).roster == v.roster,
        next(v, event).bids == v.bids,
{
}

/// A run ends in `Done` only by way of teardown: among the states that a run
/// passes through before it is done, one is in teardown, and it is the one
/// just before the run is done for the first time.
pub proof fn lemma_done_follows_teardown(v: RunView, events: Seq<Event>) -> (k: int)
    requires
        !(v.phase is Done),
        reached(v, events).phase is Done,
    ensures
        0 <= k < events.len(),
        reached(v, events.take(k)).phase is TearingDown,
        reached(v, events.take(k + 1)).phase is Done,
        reached(v, events.take(k)).instances == reached(v, events).instances,
        reached(v, events.take(k)).roster == reached(v, events).roster,
    decreases events.len(),
{
    let before = reached(v, events.drop_last());
    assert(events.take(events.len() as int) == events);
    assert(events.take(events.len() - 1) == events.drop_last());
    if before.phase is Done {
        let k = lemma_done_follows_teardown(v, events.drop_last());
        assert(events.drop_last().take(k) == events.take(k));
        assert(events.drop_last().take(k + 1) == events.take(k + 1));
        lemma_teardown_is_final(before, events.last());
        k
    } else {
        lemma_teardown_is_final(before, events.last());
        events.len() - 1
    }
}

/// A run that has failed without teardown has never placed a bid nor been
/// given an instance: there is nothing to tear down.
pub proof fn lemma_failed_holds_nothing(v: RunView)
    requires
        inv(v),
        v.phase is Failed,
    ensures
        v.bids.len() == 0,
        v.instances.len() == 0,
        v.roster.len() == 0,
{
}

/// The run has gone on from waiting for fulfilment, and has not turned to
/// teardown yet.
pub open spec fn fulfilled(v: RunView) -> bool {
    v.phase is CancellingBids || v.phase is AwaitingReadiness || v.phase is Ready
        || v.phase is Running
}

/// No bid is open once the run has gone on from waiting for fulfilment:
/// neither after the report that lets it go on, nor later.
pub proof fn lemma_fulfilled_leaves_none_open(v: RunView, event: Event)
    requires
        inv(v),
    ensures
        fulfilled(v) ==> !any_open(v.bids),
        fulfilled(next(v, event)) ==> !any_open(next(v, event).bids),
{
    lemma_next_keeps_inv(v, event);
}

/// A cancellation that went through leaves no bid for teardown to cancel
/// again: the second cancellation names none.
pub proof fn lemma_cancelled_once(v: RunView)
    ensures
        live_ids(cancellation_over(v, true).bids) == Seq::<String>::empty(),
        all_called_off(cancellation_over(v, true).bids) == cancellation_over(v, true).bids,
{
    lemma_cancel_is_idempotent(v.bids);
}

/// Every machine of a roster stands for an instance that the round's
/// descriptions report with both of its addresses, and carries them: no
/// machine enters a roster half described.
pub proof fn lemma_roster_fully_described(
    v: RunView,
    descs: Seq<InstanceDescription>,
    took: u64,
    at: int,
)
    requires
        v.phase is AwaitingReadiness,
        instances_heard(v, descs, took).phase is Ready,
        0 <= at < instances_heard(v, descs, took).roster.len(),
    ensures
        instances_heard(v, descs, took).roster.len() == v.instances.len(),
        match description_of(descs, v.instances[at].id@) {
            Some(desc) => {
                &&& reachable(desc)
                &&& instances_heard(v, descs, took).roster[at].public_dns == desc.public_address->0
                &&& instances_heard(v, descs, took).roster[at].private_ip
                    == desc.private_address->0
                &&& instances_heard(v, descs, took).roster[at].instance_id == v.instances[at].id
            },
            None => false,
        },
{
    assert(v.instances[at].id@ == v.instances[at].id@);
}

/// The phase in which a run polls.
pub open spec fn polling(v: RunView) -> bool {
    v.phase is AwaitingFulfillment || v.phase is AwaitingReadiness
}

/// The seconds that the report says its round took, if it is the report of
/// a round.
pub open spec fn took(event: Event) -> u64 {
    match event {
        Event::BidsDescribed { took_seconds, .. } => took_seconds,
        Event::InstancesDescribed { took_seconds, .. } => took_seconds,
        _ => 0,
    }
}

/// Polling is bounded: a report that leaves the run in its polling phase
/// brings the deadline nearer, by the seconds the round took and by a second
/// at the least, and a report at the deadline never leaves it there.
pub proof fn lemma_polling_ends(v: RunView, event: Event)
    requires
        inv(v),
        polling(v),
        next(v, event).phase == v.phase,
        next(v, event) != v,
    ensures
        !v.pace.late(took(event)),
        next(v, event).pace.gone > v.pace.gone,
        next(v, event).pace.gone >= v.pace.gone + took(event),
        next(v, event).pace.gone + next(v, event).pace.delay <= v.budget,
        next(v, event).pace.budget == v.budget,
{
    lemma_slowing_nears_deadline(v.pace, took(event));
}

/// How far along its life a run in `phase` is.
pub open spec fn rank(phase: Phase) -> int {
    match phase {
        Phase::Building => 0,
        Phase::Bidding => 1,
        Phase::AwaitingFulfillment => 2,
        Phase::CancellingBids => 3,
        Phase::AwaitingReadiness => 4,
        Phase::Ready => 5,
        Phase::Running => 6,
        Phase::TearingDown => 7,
        Phase::Done => 8,
        Phase::Failed => 8,
    }
}

/// A run only moves forward: a report leaves it in its phase or takes it to
/// a later one. It passes over a phase only where the phase has nothing to
/// do: a fleet of no groups is ready at once, and bids of which none is live
/// are not cancelled. Giving up takes it to teardown, or, before anything is
/// placed, to its end.
pub proof fn lemma_forward_only(v: RunView, event: Event)
    ensures
        rank(next(v, event).phase) >= rank(v.phase),
        next(v, event).phase == v.phase || rank(next(v, event).phase) == rank(v.phase) + 1 || next(
            v,
            event,
        ).phase is TearingDown || (v.phase is Building && next(v, event).phase is Failed) || (
        v.phase is Building && v.orders.len() == 0 && next(v, event).phase is Ready) || (v.phase
            is AwaitingFulfillment && live_ids(next(v, event).bids).len() == 0 && next(
            v,
            event,
        ).phase is AwaitingReadiness),
{
    match (v.phase, event) {
        (Phase::AwaitingFulfillment, Event::BidsDescribed { took_seconds, bids }) => {
            if live_ids(absorbed(v.bids, bids@)).len() == 0 {
                lemma_none_live_stays(absorbed(v.bids, bids@));
            }
        },
        _ => {},
    }
}

/// Bids of which none is live are what they are after a cancellation too.
proof fn lemma_none_live_stays(bids: Seq<BidRequest>)
    requires
        live_ids(bids).len() == 0,
    ensures
        all_called_off(bids) == bids,
    decreases bids.len(),
{
    if bids.len() > 0 {
        lemma_none_live_stays(bids.drop_last());
        assert(all_called_off(bids).drop_last() =~= all_called_off(bids.drop_last()));
        assert(all_called_off(bids) =~= all_called_off(bids).drop_last().push(bids.last()));
        assert(bids =~= bids.drop_last().push(bids.last()));
    }
}

/// A run never asks its driver for a call that names nothing: whenever it
/// asks to submit, describe, cancel or terminate, it names an order, a bid or
/// an instance.
pub proof fn lemma_asks_name_something(v: RunView, action: Action)
    requires
        inv(v),
        asks(v, action),
    ensures
        match action {
            Action::SubmitBids(orders) => orders@.len() > 0,
            Action::PollBids { bid_ids, .. } => bid_ids@.len() > 0,
            Action::CancelBids(ids) => ids@.len() > 0,
            Action::PollInstances { instance_ids, .. } => instance_ids@.len() > 0,
            Action::TearDown { cancel, terminate } => {
                &&& cancel matches Some(ids) ==> ids@.len() > 0
                &&& terminate matches Some(ids) ==> ids@.len() > 0
            },
            _ => true,
        },
{
}

/// What a run was asked for stays what it was: no report changes the orders
/// or the budget.
pub proof fn lemma_plan_is_kept(v: RunView, event: Event)
    ensures
        next(v, event).orders == v.orders,
        next(v, event).budget == v.budget,
{
}

/// A run that gives up turns to teardown, unless it gives up before it has
/// placed anything.
pub proof fn lemma_failure_turns_to_teardown(v: RunView, event: Event)
    requires
        inv(v),
        v.failure is None,
        next(v, event).failure is Some,
    ensures
        next(v, event).phase is TearingDown || (v.phase is Building && next(v, event).phase
            is Failed),
{
}

/// Once a run has failed, nothing that is reported later changes why: what
/// teardown cannot terminate does not count against the run.
pub proof fn lemma_failure_is_final(v: RunView, event: Event)
    requires
        inv(v),
        v.failure is Some,
    ensures
        next(v, event).failure == v.failure,
{
}

/// A run that has succeeded stays a success, whatever teardown leaves
/// behind.
pub proof fn lemma_teardown_never_fails(v: RunView, event: Event)
    requires
        inv(v),
        v.phase is TearingDown,
    ensures
        next(v, event).failure == v.failure,
        next(v, event).phase is TearingDown || next(v, event).phase is Done,
{
}

} // verus!
