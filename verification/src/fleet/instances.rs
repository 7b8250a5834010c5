//! The instances allocated to a fleet, as the bids' descriptions reveal them.

use crate::fleet::bids::{BidDescription, BidOrder, BidRequest, Instance};
use vstd::prelude::*;

verus! {

/// An instance called `id` is on record.
pub open spec fn knows(instances: Seq<Instance>, id: Seq<char>) -> bool {
    exists|i: int| 0 <= i < instances.len() && (#[trigger] instances[i]).id@ == id
}

/// The record with `id` noted for `group`, unless it was on record already.
pub open spec fn noted(instances: Seq<Instance>, id: String, group: usize) -> Seq<Instance> {
    if knows(instances, id@) {
        instances
    } else {
        instances.push(Instance { id, group })
    }
}

/// The record with each of `ids` noted for `group`, in order.
pub open spec fn noted_all(instances: Seq<Instance>, ids: Seq<String>, group: usize) -> Seq<
    Instance,
>
    decreases ids.len(),
{
    if ids.len() == 0 {
        instances
    } else {
        noted(noted_all(instances, ids.drop_last(), group), ids.last(), group)
    }
}

/// The group of the last of `bids` that is called `id`.
pub open spec fn owner(bids: Seq<BidRequest>, id: Seq<char>) -> Option<usize>
    decreases bids.len(),
{
    if bids.len() == 0 {
        None
    } else if bids.last().id@ == id {
        Some(bids.last().group)
    } else {
        owner(bids.drop_last(), id)
    }
}

/// The group for which the instances that `desc` lists are to be noted: the
/// group of the bid that it speaks of, whatever the bid's state. A
/// description of a bid that is not ours gives none.
pub open spec fn gives_to(bids: Seq<BidRequest>, desc: BidDescription) -> Option<usize> {
    owner(bids, desc.bid_id@)
}

/// The record once `descs` has been heard: the instances that each
/// description lists are noted for the group that it gives them to. Every
/// instance that is listed for one of our bids is on record from then on,
/// so that teardown names it.
pub open spec fn recorded(
    instances: Seq<Instance>,
    bids: Seq<BidRequest>,
    descs: Seq<BidDescription>,
) -> Seq<Instance>
    decreases descs.len(),
{
    if descs.len() == 0 {
        instances
    } else {
        let before = recorded(instances, bids, descs.drop_last());
        match gives_to(bids, descs.last()) {
            Some(group) => noted_all(before, descs.last().instance_ids@, group),
            None => before,
        }
    }
}

/// No instance is on record twice.
pub open spec fn distinct_ids(instances: Seq<Instance>) -> bool {
    forall|i: int, j: int|
        0 <= i < j < instances.len() ==> (#[trigger] instances[i]).id@ != (
        #[trigger] instances[j]).id@
}

/// Every instance on record belongs to one of the first `groups` groups.
pub open spec fn groups_below(instances: Seq<Instance>, groups: int) -> bool {
    forall|i: int| 0 <= i < instances.len() ==> (#[trigger] instances[i]).group < groups
}

/// Every bid belongs to one of the first `groups` groups.
pub open spec fn bids_below(bids: Seq<BidRequest>, groups: int) -> bool {
    forall|i: int| 0 <= i < bids.len() ==> (#[trigger] bids[i]).group < groups
}

/// `early` is how `late` begins.
pub open spec fn begins_with(late: Seq<Instance>, early: Seq<Instance>) -> bool {
    early.len() <= late.len() && late.take(early.len() as int) == early
}

/// How many of the instances on record belong to group `group`.
pub open spec fn count_in_group(instances: Seq<Instance>, group: int) -> nat
    decreases instances.len(),
{
    if instances.len() == 0 {
        0
    } else {
        count_in_group(instances.drop_last(), group) + if instances.last().group == group {
            1nat
        } else {
            0nat
        }
    }
}

/// A group has no more instances than are on record.
pub proof fn lemma_count_is_bounded(instances: Seq<Instance>, group: int)
    ensures
        count_in_group(instances, group) <= instances.len(),
    decreases instances.len(),
{
    if instances.len() > 0 {
        lemma_count_is_bounded(instances.drop_last(), group);
    }
}

/// Every group has exactly as many instances as were ordered for it.
pub open spec fn quota_met(orders: Seq<BidOrder>, instances: Seq<Instance>) -> bool {
    forall|g: int| 0 <= g < orders.len() ==> count_in_group(instances, g) == (#[trigger] orders[g]).count
}

/// How many machines the orders ask for, all groups together.
pub open spec fn total_ordered(orders: Seq<BidOrder>) -> nat
    decreases orders.len(),
{
    if orders.len() == 0 {
        0
    } else {
        total_ordered(orders.drop_last()) + orders.last().count as nat
    }
}

pub fn is_known(instances: &Vec<Instance>, id: &String) -> (out: bool)
    ensures
        out == knows(instances@, id@),
{
    let mut at: usize = 0;
    while at < instances.len()
        invariant
            at <= instances.len(),
            forall|i: int| 0 <= i < at ==> instances[i].id@ != id@,
        decreases instances.len() - at,
    {
        if instances[at].id == *id {
            return true;
        }
        at += 1;
    }
    false
}

pub fn owner_of(bids: &Vec<BidRequest>, id: &String) -> (out: Option<usize>)
    ensures
        out == owner(bids@, id@),
{
    let mut out: Option<usize> = None;
    let mut at: usize = 0;
    while at < bids.len()
        invariant
            at <= bids.len(),
            out == owner(bids@.take(at as int), id@),
        decreases bids.len() - at,
    {
        assert(bids@.take(at + 1).drop_last() == bids@.take(at as int));
        if bids[at].id == *id {
            out = Some(bids[at].group);
        }
        at += 1;
    }
    assert(bids@.take(at as int) == bids@);
    out
}

/// Notes each of `ids` for `group`.
pub fn note_all(instances: &mut Vec<Instance>, ids: &Vec<String>, group: usize)
    ensures
        final(instances)@ == noted_all(old(instances)@, ids@, group),
{
    let mut at: usize = 0;
    while at < ids.len()
        invariant
            at <= ids.len(),
            instances@ == noted_all(old(instances)@, ids@.take(at as int), group),
        decreases ids.len() - at,
    {
        assert(ids@.take(at + 1).drop_last() == ids@.take(at as int));
        if !is_known(instances, &ids[at]) {
            instances.push(Instance { id: ids[at].clone(), group });
        }
        at += 1;
    }
    assert(ids@.take(at as int) == ids@);
}

/// Notes the instances that `descs` lists for our bids.
pub fn record(instances: &mut Vec<Instance>, bids: &Vec<BidRequest>, descs: &Vec<BidDescription>)
    ensures
        final(instances)@ == recorded(old(instances)@, bids@, descs@),
{
    let mut at: usize = 0;
    while at < descs.len()
        invariant
            at <= descs.len(),
            instances@ == recorded(old(instances)@, bids@, descs@.take(at as int)),
        decreases descs.len() - at,
    {
        assert(descs@.take(at + 1).drop_last() == descs@.take(at as int));
        match owner_of(bids, &descs[at].bid_id) {
            Some(group) => {
                note_all(instances, &descs[at].instance_ids, group);
            },
            None => {},
        }
        at += 1;
    }
    assert(descs@.take(at as int) == descs@);
}

/// How many of the instances on record belong to `group`.
pub fn group_count(instances: &Vec<Instance>, group: usize) -> (out: usize)
    ensures
        out == count_in_group(instances@, group as int),
{
    let mut out: usize = 0;
    let mut at: usize = 0;
    while at < instances.len()
        invariant
            at <= instances.len(),
            out <= at,
            out == count_in_group(instances@.take(at as int), group as int),
        decreases instances.len() - at,
    {
        assert(instances@.take(at + 1).drop_last() == instances@.take(at as int));
        if instances[at].group == group {
            out += 1;
        }
        at += 1;
    }
    assert(instances@.take(at as int) == instances@);
    out
}

/// Whether every group has exactly as many instances as were ordered for it.
pub fn quota_is_met(orders: &Vec<BidOrder>, instances: &Vec<Instance>) -> (out: bool)
    ensures
        out == quota_met(orders@, instances@),
{
    let mut g: usize = 0;
    while g < orders.len()
        invariant
            g <= orders.len(),
            forall|h: int| 0 <= h < g ==> count_in_group(instances@, h) == (#[trigger] orders[h]).count,
        decreases orders.len() - g,
    {
        if group_count(instances, g) as u64 != orders[g].count as u64 {
            return false;
        }
        g += 1;
    }
    true
}

/// The group that `owner` finds is the group of one of the bids.
pub proof fn lemma_owner_is_a_bid(bids: Seq<BidRequest>, id: Seq<char>)
    ensures
        match owner(bids, id) {
            Some(group) => exists|i: int| 0 <= i < bids.len() && (#[trigger] bids[i]).group == group,
            None => true,
        },
    decreases bids.len(),
{
    if bids.len() > 0 {
        if bids.last().id@ == id {
            assert(bids[bids.len() - 1].group == bids.last().group);
        } else {
            lemma_owner_is_a_bid(bids.drop_last(), id);
            match owner(bids.drop_last(), id) {
                Some(group) => {
                    let i = choose|i: int|
                        0 <= i < bids.drop_last().len() && (#[trigger] bids.drop_last()[i]).group
                            == group;
                    assert(bids[i].group == group);
                },
                None => {},
            }
        }
    }
}

/// Noting instances forgets none, notes none twice, and notes them for the
/// given group.
pub proof fn lemma_noted_all(instances: Seq<Instance>, ids: Seq<String>, group: usize, groups: int)
    requires
        distinct_ids(instances),
        groups_below(instances, groups),
        group < groups,
    ensures
        begins_with(noted_all(instances, ids, group), instances),
        distinct_ids(noted_all(instances, ids, group)),
        groups_below(noted_all(instances, ids, group), groups),
        forall|k: int| 0 <= k < ids.len() ==> knows(noted_all(instances, ids, group), (#[trigger] ids[k])@),
    decreases ids.len(),
{
    if ids.len() > 0 {
        let before = noted_all(instances, ids.drop_last(), group);
        let after = noted_all(instances, ids, group);
        lemma_noted_all(instances, ids.drop_last(), group, groups);
        assert(after.take(instances.len() as int) =~= before.take(instances.len() as int));
        assert forall|k: int| 0 <= k < ids.len() implies knows(after, (#[trigger] ids[k])@) by {
            if k < ids.len() - 1 {
                assert(ids[k] == ids.drop_last()[k]);
                let i = choose|i: int| 0 <= i < before.len() && (#[trigger] before[i]).id@ == ids[k]@;
                assert(after[i].id@ == ids[k]@);
            } else if knows(before, ids.last()@) {
            } else {
                assert(after[before.len() as int].id@ == ids[k]@);
            }
        }
    } else {
        assert(instances.take(instances.len() as int) =~= instances);
    }
}

/// Hearing descriptions forgets no instance, notes none twice, and notes each
/// for a group of the fleet.
pub proof fn lemma_recorded(
    instances: Seq<Instance>,
    bids: Seq<BidRequest>,
    descs: Seq<BidDescription>,
    groups: int,
)
    requires
        distinct_ids(instances),
        groups_below(instances, groups),
        bids_below(bids, groups),
    ensures
        begins_with(recorded(instances, bids, descs), instances),
        distinct_ids(recorded(instances, bids, descs)),
        groups_below(recorded(instances, bids, descs), groups),
    decreases descs.len(),
{
    if descs.len() > 0 {
        let before = recorded(instances, bids, descs.drop_last());
        let after = recorded(instances, bids, descs);
        lemma_recorded(instances, bids, descs.drop_last(), groups);
        match gives_to(bids, descs.last()) {
            Some(group) => {
                lemma_owner_is_a_bid(bids, descs.last().bid_id@);
                lemma_noted_all(before, descs.last().instance_ids@, group, groups);
                assert(after.take(instances.len() as int) =~= before.take(instances.len() as int));
            },
            None => {},
        }
    } else {
        assert(instances.take(instances.len() as int) =~= instances);
    }
}

/// How many of the instances on record belong to one of the first `groups`
/// groups.
pub open spec fn count_below(instances: Seq<Instance>, groups: int) -> nat
    decreases groups,
{
    if groups <= 0 {
        0
    } else {
        count_below(instances, groups - 1) + count_in_group(instances, groups - 1)
    }
}

proof fn lemma_count_below_push(instances: Seq<Instance>, last: Instance, groups: int)
    requires
        0 <= groups,
    ensures
        count_below(instances.push(last), groups) == count_below(instances, groups) + if last.group
            < groups {
            1nat
        } else {
            0nat
        },
    decreases groups,
{
    if groups > 0 {
        lemma_count_below_push(instances, last, groups - 1);
        assert(instances.push(last).drop_last() == instances);
    }
}

/// The groups' counts add up to the number of instances on record.
pub proof fn lemma_counts_add_up(instances: Seq<Instance>, groups: int)
    requires
        0 <= groups,
        groups_below(instances, groups),
    ensures
        count_below(instances, groups) == instances.len(),
    decreases instances.len(),
{
    if instances.len() == 0 {
        lemma_count_below_of_none(instances, groups);
    } else {
        let rest = instances.drop_last();
        assert(rest.push(instances.last()) == instances);
        assert(groups_below(rest, groups)) by {
            assert forall|i: int| 0 <= i < rest.len() implies (#[trigger] rest[i]).group < groups by {
                assert(rest[i] == instances[i]);
            }
        }
        lemma_counts_add_up(rest, groups);
        lemma_count_below_push(rest, instances.last(), groups);
        assert(instances[instances.len() - 1].group < groups);
    }
}

proof fn lemma_count_below_of_none(instances: Seq<Instance>, groups: int)
    requires
        instances.len() == 0,
    ensures
        count_below(instances, groups) == 0,
    decreases groups,
{
    if groups > 0 {
        lemma_count_below_of_none(instances, groups - 1);
    }
}

proof fn lemma_quota_total(orders: Seq<BidOrder>, instances: Seq<Instance>, upto: int)
    requires
        quota_met(orders, instances),
        0 <= upto <= orders.len(),
    ensures
        count_below(instances, upto) == total_ordered(orders.take(upto)),
    decreases upto,
{
    if upto > 0 {
        lemma_quota_total(orders, instances, upto - 1);
        assert(orders.take(upto).drop_last() == orders.take(upto - 1));
        assert(orders.take(upto).last() == orders[upto - 1]);
    }
}

/// Where every group has its quota, the instances on record are as many as
/// the orders ask for, all groups together.
pub proof fn lemma_quota_fills_fleet(orders: Seq<BidOrder>, instances: Seq<Instance>)
    requires
        quota_met(orders, instances),
        groups_below(instances, orders.len() as int),
    ensures
        instances.len() == total_ordered(orders),
{
    lemma_quota_total(orders, instances, orders.len() as int);
    lemma_counts_add_up(instances, orders.len() as int);
    assert(orders.take(orders.len() as int) == orders);
}

} // verus!
