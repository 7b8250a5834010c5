//! What a fleet is made of: machine groups, their shape, and the budget.

use crate::fleet::bids::{distinct_groups, BidOrder};
use vstd::prelude::*;

verus! {

/// An established connection to a machine.
#[derive(Clone, PartialEq, Eq, Debug)]
pub struct SshConnection {}

/// A machine that has become reachable.
#[derive(Clone, PartialEq, Eq, Debug)]
pub struct Machine {
    pub instance_id: String,
    pub group: String,
    pub private_ip: String,
    pub public_dns: String,
    pub instance_type: String,
    pub ssh: Option<SshConnection>,
}

/// The shape of the machines of one group, and what prepares each of them.
pub struct MachineSetup<F> {
    pub instance_type: String,
    pub ami: String,
    pub setup: F,
}

impl<F> MachineSetup<F> {
    pub fn new(instance_type: String, ami: String, setup: F) -> (out: Self)
        ensures
            out.instance_type == instance_type,
            out.ami == ami,
            out.setup == setup,
    {
        Self { instance_type, ami, setup }
    }
}

/// A named group of identical machines.
pub struct MachineGroup<F> {
    pub name: String,
    pub setup: MachineSetup<F>,
    pub count: u32,
}

/// Most hours a fleet may be asked to live.
pub const MAX_HOURS: i64 = 255;

/// The group at position `at` is called `name`.
pub open spec fn named_at<F>(groups: Seq<MachineGroup<F>>, name: Seq<char>, at: int) -> bool {
    0 <= at < groups.len() && groups[at].name@ == name
}

/// Some group is called `name`.
pub open spec fn has_name<F>(groups: Seq<MachineGroup<F>>, name: Seq<char>) -> bool {
    exists|at: int| named_at(groups, name, at)
}

/// No two groups share a name.
pub open spec fn distinct_names<F>(groups: Seq<MachineGroup<F>>) -> bool {
    forall|i: int, j: int|
        0 <= i < j < groups.len() ==> #[trigger] groups[i].name@ != #[trigger] groups[j].name@
}

/// The order that bids for `group`, for a fleet that may live `minutes`
/// minutes.
pub open spec fn order_for<F>(group: MachineGroup<F>, minutes: int) -> BidOrder {
    BidOrder {
        group: group.name,
        ami: group.setup.ami,
        instance_type: group.setup.instance_type,
        count: group.count,
        duration_minutes: minutes as i64,
    }
}

/// One order for each group, in order.
pub open spec fn orders_of<F>(groups: Seq<MachineGroup<F>>, minutes: int) -> Seq<BidOrder> {
    Seq::new(groups.len(), |g: int| order_for(groups[g], minutes))
}

/// The description of a fleet: its groups by name, and how long it may live.
pub struct BurstBuilder<F> {
    machine_descriptors: Vec<MachineGroup<F>>,
    max_duration: i64,
}

impl<F> Default for BurstBuilder<F> {
    /// A fleet of no machines that may live a minute.
    fn default() -> (out: Self)
        ensures
            out.wf(),
            out.groups() == Seq::<MachineGroup<F>>::empty(),
            out.minutes() == 1,
    {
        Self { machine_descriptors: Vec::new(), max_duration: 1 }
    }
}

impl<F> BurstBuilder<F> {
    /// The groups, in the order in which their names were first added.
    pub closed spec fn groups(&self) -> Seq<MachineGroup<F>> {
        self.machine_descriptors@
    }

    /// The lifetime budget, in minutes.
    pub closed spec fn minutes(&self) -> int {
        self.max_duration as int
    }

    /// What holds of every description: no two groups share a name, and the
    /// budget is at most `MAX_HOURS` hours.
    pub open spec fn wf(&self) -> bool {
        &&& distinct_names(self.groups())
        &&& 0 <= self.minutes() <= MAX_HOURS * 60
    }

    #[verifier::type_invariant]
    spec fn sound(&self) -> bool {
        self.wf()
    }

    /// Adds the group `name`, or replaces the group of that name where it
    /// stands.
    pub fn add_machine(&mut self, name: String, count: u32, descriptor: MachineSetup<F>)
        ensures
            final(self).wf(),
            final(self).minutes() == old(self).minutes(),
            forall|at: int|
                named_at(old(self).groups(), name@, at) ==> final(self).groups() == old(
                    self,
                ).groups().update(at, (MachineGroup { name, setup: descriptor, count })),
            !has_name(old(self).groups(), name@) ==> final(self).groups() == old(
                self,
            ).groups().push((MachineGroup { name, setup: descriptor, count })),
    {
        proof {
            use_type_invariant(&*self);
        }
        let group = MachineGroup { name, setup: descriptor, count };
        let found = self.position(&group.name);
        let mut groups: Vec<MachineGroup<F>> = Vec::new();
        core::mem::swap(&mut self.machine_descriptors, &mut groups);
        let ghost before = groups@;
        match found {
            Some(at) => {
                groups.set(at, group);
                assert forall|i: int, j: int| 0 <= i < j < groups.len() implies groups[i].name@
                    != groups[j].name@ by {
                    assert(before[i].name@ != before[j].name@);
                    assert(before[at as int].name@ == name@);
                }
            },
            None => {
                groups.push(group);
                assert forall|i: int, j: int| 0 <= i < j < groups.len() implies groups[i].name@
                    != groups[j].name@ by {
                    if j < before.len() {
                        assert(before[i].name@ != before[j].name@);
                    } else {
                        assert(!named_at(before, name@, i));
                    }
                }
            },
        }
        core::mem::swap(&mut self.machine_descriptors, &mut groups);
    }

    /// Where the group called `name` stands.
    pub fn position(&self, name: &String) -> (out: Option<usize>)
        ensures
            match out {
                Some(at) => named_at(self.groups(), name@, at as int),
                None => !has_name(self.groups(), name@),
            },
    {
        let mut at: usize = 0;
        while at < self.machine_descriptors.len()
            invariant
                at <= self.machine_descriptors.len(),
                forall|k: int| 0 <= k < at ==> !named_at(self.groups(), name@, k),
            decreases self.machine_descriptors.len() - at,
        {
            if self.machine_descriptors[at].name == *name {
                return Some(at);
            }
            at += 1;
        }
        None
    }

    /// One order for each group, in order.
    pub fn orders(&self) -> (out: Vec<BidOrder>)
        ensures
            out@ == orders_of(self.groups(), self.minutes()),
            distinct_groups(out@),
    {
        proof {
            use_type_invariant(self);
        }
        let mut out: Vec<BidOrder> = Vec::new();
        let mut g: usize = 0;
        while g < self.machine_descriptors.len()
            invariant
                g <= self.machine_descriptors.len(),
                out.len() == g,
                forall|h: int| 0 <= h < g ==> out[h] == order_for(self.groups()[h], self.minutes()),
            decreases self.machine_descriptors.len() - g,
        {
            let group = &self.machine_descriptors[g];
            out.push(
                BidOrder {
                    group: group.name.clone(),
                    ami: group.setup.ami.clone(),
                    instance_type: group.setup.instance_type.clone(),
                    count: group.count,
                    duration_minutes: self.max_duration,
                },
            );
            g += 1;
        }
        assert(out@ =~= orders_of(self.groups(), self.minutes()));
        assert forall|g: int, h: int| 0 <= g < h < out.len() implies (#[trigger] out[g]).group@ != (
        #[trigger] out[h]).group@ by {
            assert(self.groups()[g].name@ != self.groups()[h].name@);
        }
        out
    }

    /// The lifetime budget, in minutes.
    pub fn max_duration(&self) -> (out: i64)
        ensures
            out == self.minutes(),
            0 <= out <= MAX_HOURS * 60,
    {
        proof {
            use_type_invariant(self);
        }
        self.max_duration
    }

    /// The group called `name`, if there is one.
    pub fn group(&self, name: &String) -> (out: Option<&MachineGroup<F>>)
        ensures
            match out {
                Some(group) => exists|at: int|
                    named_at(self.groups(), name@, at) && *group == self.groups()[at],
                None => !has_name(self.groups(), name@),
            },
    {
        match self.position(name) {
            Some(at) => Some(&self.machine_descriptors[at]),
            None => None,
        }
    }

    pub fn set_max_duration(&mut self, hours: u8)
        ensures
            final(self).wf(),
            final(self).groups() == old(self).groups(),
            final(self).minutes() == hours * 60,
    {
        proof {
            use_type_invariant(&*self);
        }
        self.max_duration = (hours as i64) * 60;
    }
}

} // verus!
