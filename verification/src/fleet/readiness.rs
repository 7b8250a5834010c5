//! Readiness: an instance is a machine once the provider reports both of its
//! addresses.

use crate::fleet::bids::{BidOrder, Instance};
use crate::fleet::plan::Machine;
use vstd::prelude::*;

verus! {

/// What the provider says of one instance.
#[derive(Clone, PartialEq, Eq, Debug)]
pub struct InstanceDescription {
    pub instance_id: String,
    pub public_address: Option<String>,
    pub private_address: Option<String>,
    pub instance_type: String,
}

impl InstanceDescription {
    /// What a provider's record of an instance says, if it says which
    /// instance it is of. A record that names no type is of the type with
    /// no name.
    pub fn of(
        instance_id: Option<String>,
        public_address: Option<String>,
        private_address: Option<String>,
        instance_type: Option<String>,
    ) -> (out: Option<InstanceDescription>)
        ensures
            match out {
                Some(desc) => {
                    &&& instance_id == Some(desc.instance_id)
                    &&& desc.public_address == public_address
                    &&& desc.private_address == private_address
                    &&& match instance_type {
                        Some(name) => desc.instance_type == name,
                        None => desc.instance_type@ == Seq::<char>::empty(),
                    }
                },
                None => instance_id is None,
            },
    {
        match instance_id {
            Some(instance_id) => {
                let instance_type = match instance_type {
                    Some(name) => name,
                    None => String::new(),
                };
                Some(
                    InstanceDescription {
                        instance_id,
                        public_address,
                        private_address,
                        instance_type,
                    },
                )
            },
            None => None,
        }
    }
}

/// The last of `descs` that speaks of the instance `id`.
pub open spec fn description_of(descs: Seq<InstanceDescription>, id: Seq<char>) -> Option<
    InstanceDescription,
>
    decreases descs.len(),
{
    if descs.len() == 0 {
        None
    } else if descs.last().instance_id@ == id {
        Some(descs.last())
    } else {
        description_of(descs.drop_last(), id)
    }
}

/// Both addresses are reported.
pub open spec fn reachable(desc: InstanceDescription) -> bool {
    desc.public_address is Some && desc.private_address is Some
}

/// The machine that a reachable instance of the group called `group` is.
pub open spec fn machine_of(instance: Instance, desc: InstanceDescription, group: String) -> Machine {
    Machine {
        instance_id: instance.id,
        group,
        private_ip: desc.private_address->0,
        public_dns: desc.public_address->0,
        instance_type: desc.instance_type,
        ssh: None,
    }
}

/// Some instance is described, but not yet with both addresses.
pub open spec fn half_described(instances: Seq<Instance>, descs: Seq<InstanceDescription>) -> bool {
    exists|i: int|
        0 <= i < instances.len() && match description_of(descs, (#[trigger] instances[i]).id@) {
            Some(desc) => !reachable(desc),
            None => false,
        }
}

/// Some instance is not described at all.
pub open spec fn undescribed(instances: Seq<Instance>, descs: Seq<InstanceDescription>) -> bool {
    exists|i: int|
        0 <= i < instances.len() && description_of(descs, (#[trigger] instances[i]).id@) is None
}

/// The machines that the instances are, one for each and in their order.
pub open spec fn roster_of(
    instances: Seq<Instance>,
    descs: Seq<InstanceDescription>,
    orders: Seq<BidOrder>,
) -> Seq<Machine> {
    Seq::new(
        instances.len(),
        |i: int|
            machine_of(
                instances[i],
                description_of(descs, instances[i].id@)->0,
                orders[instances[i].group as int].group,
            ),
    )
}

/// What a round of descriptions tells of the fleet.
#[derive(Clone, PartialEq, Eq, Debug)]
pub enum Readiness {
    /// An instance still lacks an address: ask again.
    NotYet,
    /// No instance lacks an address, but the provider knows nothing of one.
    Short,
    /// Every instance is reachable.
    Complete(Vec<Machine>),
}

/// What `descs` tells of the fleet, given the instances on record.
pub open spec fn mustered(
    out: Readiness,
    instances: Seq<Instance>,
    descs: Seq<InstanceDescription>,
    orders: Seq<BidOrder>,
) -> bool {
    match out {
        Readiness::NotYet => half_described(instances, descs),
        Readiness::Short => !half_described(instances, descs) && undescribed(instances, descs),
        Readiness::Complete(roster) => {
            &&& !half_described(instances, descs)
            &&& !undescribed(instances, descs)
            &&& roster@ == roster_of(instances, descs, orders)
        },
    }
}

/// Where among `descs` the last one stands that speaks of the instance `id`.
pub fn find_description(descs: &Vec<InstanceDescription>, id: &String) -> (out: Option<usize>)
    ensures
        match out {
            Some(at) => at < descs.len() && description_of(descs@, id@) == Some(descs[at as int]),
            None => description_of(descs@, id@) is None,
        },
{
    let mut out: Option<usize> = None;
    let mut at: usize = 0;
    while at < descs.len()
        invariant
            at <= descs.len(),
            match out {
                Some(found) => found < at && description_of(descs@.take(at as int), id@) == Some(
                    descs[found as int],
                ),
                None => description_of(descs@.take(at as int), id@) is None,
            },
        decreases descs.len() - at,
    {
        assert(descs@.take(at + 1).drop_last() == descs@.take(at as int));
        if descs[at].instance_id == *id {
            out = Some(at);
        }
        at += 1;
    }
    assert(descs@.take(at as int) == descs@);
    out
}

/// Reads a round of descriptions: the roster where every instance is
/// reachable, and else what stands in its way.
pub fn muster(
    instances: &Vec<Instance>,
    descs: &Vec<InstanceDescription>,
    orders: &Vec<BidOrder>,
) -> (out: Readiness)
    requires
        forall|i: int| 0 <= i < instances.len() ==> (#[trigger] instances[i]).group < orders.len(),
    ensures
        mustered(out, instances@, descs@, orders@),
{
    let mut roster: Vec<Machine> = Vec::new();
    let mut missing = false;
    let mut at: usize = 0;
    while at < instances.len()
        invariant
            at <= instances.len(),
            forall|i: int| 0 <= i < instances.len() ==> (#[trigger] instances[i]).group < orders.len(),
            forall|i: int|
                0 <= i < at ==> match description_of(descs@, (#[trigger] instances[i]).id@) {
                    Some(desc) => reachable(desc),
                    None => true,
                },
            missing == exists|i: int|
                0 <= i < at && description_of(descs@, (#[trigger] instances[i]).id@) is None,
            !missing ==> roster.len() == at,
            !missing ==> forall|i: int|
                0 <= i < at ==> roster[i] == roster_of(instances@, descs@, orders@)[i],
        decreases instances.len() - at,
    {
        match find_description(descs, &instances[at].id) {
            Some(found) => {
                let desc = &descs[found];
                match (&desc.public_address, &desc.private_address) {
                    (Some(public), Some(private)) => {
                        if !missing {
                            roster.push(
                                Machine {
                                    instance_id: instances[at].id.clone(),
                                    group: orders[instances[at].group].group.clone(),
                                    private_ip: private.clone(),
                                    public_dns: public.clone(),
                                    instance_type: desc.instance_type.clone(),
                                    ssh: None,
                                },
                            );
                        }
                    },
                    _ => {
                        return Readiness::NotYet;
                    },
                }
            },
            None => {
                missing = true;
            },
        }
        at += 1;
    }
    if missing {
        Readiness::Short
    } else {
        assert(roster@ =~= roster_of(instances@, descs@, orders@));
        Readiness::Complete(roster)
    }
}

} // verus!
