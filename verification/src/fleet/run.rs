//! One run of a fleet. The run decides; whoever drives it talks to the
//! provider and to the machines, and reports back.

use crate::fleet::bids::{
    absorb, cancel, has_open, is_admitted, live_bid_ids, place, BidDescription, BidOrder,
    BidRequest, Instance,
};
use crate::fleet::instances::{count_in_group, group_count, groups_below, quota_is_met, record};
use crate::fleet::laws::lemma_next_keeps_inv;
use crate::fleet::model::{
    abandoned, asks, begun, bid_ids, bids_heard, cancellation_over, connected, fresh,
    fulfilment, in_group, instance_ids, instances_heard, inv, named, names, next, reached,
    runner_over, set_up, setup_over, status, submitted, teardown_over, unconfirmed, Action,
    Event, Failure, Outcome, Phase, RunView, SetupStatus,
};
use crate::fleet::pace::Pace;
use crate::fleet::plan::{orders_of, BurstBuilder, Machine, SshConnection};
use crate::fleet::readiness::{muster, InstanceDescription, Readiness};
use vstd::prelude::*;

verus! {

/// What a run keeps on record.
struct Ledger {
    phase: Phase,
    orders: Vec<BidOrder>,
    budget: u64,
    bids: Vec<BidRequest>,
    instances: Vec<Instance>,
    roster: Vec<Machine>,
    setup: Vec<SetupStatus>,
    pace: Pace,
    failure: Option<Failure>,
    runner: Option<bool>,
    unterminated: Vec<String>,
}

impl View for Ledger {
    type V = RunView;

    closed spec fn view(&self) -> RunView {
        RunView {
            phase: self.phase,
            orders: self.orders@,
            budget: self.budget,
            bids: self.bids@,
            instances: self.instances@,
            roster: self.roster@,
            setup: self.setup@,
            pace: self.pace,
            failure: self.failure,
            runner: self.runner,
            unterminated: self.unterminated@,
        }
    }
}

impl Ledger {
    fn new<F>(plan: &BurstBuilder<F>) -> (out: Self)
        ensures
            out@ == fresh(orders_of(plan.groups(), plan.minutes()), (plan.minutes() * 60) as u64),
            inv(out@),
    {
        let orders = plan.orders();
        let budget = (plan.max_duration() as u64) * 60;
        let out = Ledger {
            phase: Phase::Building,
            orders,
            budget,
            bids: Vec::new(),
            instances: Vec::new(),
            roster: Vec::new(),
            setup: Vec::new(),
            pace: Pace::begin(budget),
            failure: None,
            runner: None,
            unterminated: Vec::new(),
        };
        out
    }

    /// A record of nothing: a run of no groups and no budget that has not
    /// begun. It stands in for a run's record while that record is worked on.
    fn blank() -> (out: Self)
        ensures
            out@ == fresh(Seq::<BidOrder>::empty(), 0),
            inv(out@),
    {
        let out = Ledger {
            phase: Phase::Building,
            orders: Vec::new(),
            budget: 0,
            bids: Vec::new(),
            instances: Vec::new(),
            roster: Vec::new(),
            setup: Vec::new(),
            pace: Pace::begin(0),
            failure: None,
            runner: None,
            unterminated: Vec::new(),
        };
        assert(out@ =~= fresh(Seq::<BidOrder>::empty(), 0));
        out
    }

    fn machines_in(&self, name: &String) -> (out: Vec<Machine>)
        ensures
            out@ == in_group(self@.roster, name@),
    {
        let mut out: Vec<Machine> = Vec::new();
        let mut at: usize = 0;
        while at < self.roster.len()
            invariant
                at <= self.roster.len(),
                out@ == in_group(self@.roster.take(at as int), name@),
            decreases self.roster.len() - at,
        {
            assert(self@.roster.take(at + 1).drop_last() == self@.roster.take(at as int));
            if self.roster[at].group == *name {
                out.push(copy_machine(&self.roster[at]));
            }
            at += 1;
        }
        assert(self@.roster.take(at as int) == self@.roster);
        out
    }

    fn outcome(&self) -> (out: Outcome)
        ensures
            out.phase == self@.phase,
            out.failure == self@.failure,
            out.fulfilled@ == fulfilment(self@),
            out.setup@ == self@.setup,
            out.runner == self@.runner,
            out.unterminated@ == self@.unterminated,
    {
        let mut fulfilled: Vec<usize> = Vec::new();
        let mut g: usize = 0;
        while g < self.orders.len()
            invariant
                g <= self.orders.len(),
                fulfilled.len() == g,
                forall|h: int| 0 <= h < g ==> fulfilled[h] == count_in_group(self@.instances, h),
            decreases self.orders.len() - g,
        {
            fulfilled.push(group_count(&self.instances, g));
            g += 1;
        }
        assert(fulfilled@ =~= fulfilment(self@));
        let mut setup: Vec<SetupStatus> = Vec::new();
        let mut at: usize = 0;
        while at < self.setup.len()
            invariant
                at <= self.setup.len(),
                setup@ == self.setup@.take(at as int),
            decreases self.setup.len() - at,
        {
            setup.push(self.setup[at]);
            assert(self.setup@.take(at + 1) == self.setup@.take(at as int).push(self.setup@[at as int]));
            at += 1;
        }
        assert(self.setup@.take(at as int) == self.setup@);
        let mut unterminated: Vec<String> = Vec::new();
        let mut k: usize = 0;
        while k < self.unterminated.len()
            invariant
                k <= self.unterminated.len(),
                unterminated@ == self.unterminated@.take(k as int),
            decreases self.unterminated.len() - k,
        {
            unterminated.push(self.unterminated[k].clone());
            assert(self.unterminated@.take(k + 1) == self.unterminated@.take(k as int).push(
                self.unterminated@[k as int],
            ));
            k += 1;
        }
        assert(self.unterminated@.take(k as int) == self.unterminated@);
        Outcome {
            phase: self.phase,
            failure: self.failure,
            fulfilled,
            setup,
            runner: self.runner,
            unterminated,
        }
    }

    fn pending(&self) -> (action: Action)
        ensures
            asks(self@, action),
    {
        match self.phase {
            Phase::Building => Action::AwaitStart,
            Phase::Bidding => Action::SubmitBids(copy_orders(&self.orders)),
            Phase::AwaitingFulfillment => Action::PollBids {
                delay_seconds: self.pace.delay,
                bid_ids: all_bid_ids(&self.bids),
            },
            Phase::CancellingBids => Action::CancelBids(live_bid_ids(&self.bids)),
            Phase::AwaitingReadiness => Action::PollInstances {
                delay_seconds: self.pace.delay,
                instance_ids: all_instance_ids(&self.instances),
            },
            Phase::Ready => Action::SetUp(copy_machines(&self.roster)),
            Phase::Running => Action::InvokeRunner,
            Phase::TearingDown => Action::TearDown {
                cancel: if_any(live_bid_ids(&self.bids)),
                terminate: if_any(all_instance_ids(&self.instances)),
            },
            Phase::Done | Phase::Failed => Action::Finish,
        }
    }

    fn advance(&mut self, event: Event)
        requires
            inv(old(self)@),
        ensures
            final(self)@ == next(old(self)@, event),
            inv(final(self)@),
    {
        proof {
            lemma_next_keeps_inv(self@, event);
        }
        match event {
            Event::Start => {
                if let Phase::Building = self.phase {
                    self.begin();
                }
            },
            Event::BidsSubmitted(results) => {
                if let Phase::Bidding = self.phase {
                    self.take_submissions(&results);
                }
            },
            Event::BidsDescribed { took_seconds, bids } => {
                if let Phase::AwaitingFulfillment = self.phase {
                    self.hear_bids(&bids, took_seconds);
                }
            },
            Event::BidsCancelled(ok) => {
                if let Phase::CancellingBids = self.phase {
                    self.end_cancellation(ok);
                }
            },
            Event::InstancesDescribed { took_seconds, instances } => {
                if let Phase::AwaitingReadiness = self.phase {
                    self.hear_instances(&instances, took_seconds);
                }
            },
            Event::ProviderFailed => {
                match self.phase {
                    Phase::AwaitingFulfillment | Phase::AwaitingReadiness => {
                        self.give_up(Failure::ProviderFailure);
                    },
                    _ => {},
                }
            },
            Event::SetupFinished(results) => {
                if let Phase::Ready = self.phase {
                    self.end_setup(&results);
                }
            },
            Event::RunnerFinished(ok) => {
                if let Phase::Running = self.phase {
                    self.end_runner(ok);
                }
            },
            Event::TornDown(confirmed) => {
                if let Phase::TearingDown = self.phase {
                    self.end_teardown(&confirmed);
                }
            },
        }
    }

    fn give_up(&mut self, failure: Failure)
        ensures
            final(self)@ == abandoned(old(self)@, failure),
    {
        self.phase = Phase::TearingDown;
        self.failure = Some(failure);
    }

    fn begin(&mut self)
        ensures
            final(self)@ == begun(old(self)@),
    {
        if self.orders.len() == 0 {
            self.phase = Phase::Ready;
            return ;
        }
        let mut g: usize = 0;
        while g < self.orders.len()
            invariant
                g <= self.orders.len(),
                *self == *old(self),
                forall|h: int| 0 <= h < g ==> (#[trigger] self.orders[h]).count > 0,
            decreases self.orders.len() - g,
        {
            if self.orders[g].count == 0 {
                self.phase = Phase::Failed;
                self.failure = Some(Failure::AdmissionFailure);
                return ;
            }
            g += 1;
        }
        self.phase = Phase::Bidding;
    }

    fn take_submissions(&mut self, results: &Vec<Option<Vec<String>>>)
        ensures
            final(self)@ == submitted(old(self)@, results@),
    {
        self.bids = place(results, self.orders.len());
        if is_admitted(results, self.orders.len()) {
            self.phase = Phase::AwaitingFulfillment;
            self.pace = Pace::begin(self.budget);
        } else {
            self.give_up(Failure::AdmissionFailure);
        }
    }

    fn hear_bids(&mut self, descs: &Vec<BidDescription>, took: u64)
        ensures
            final(self)@ == bids_heard(old(self)@, descs@, took),
    {
        record(&mut self.instances, &self.bids, descs);
        self.bids = absorb(&self.bids, descs);
        if !has_open(&self.bids) {
            if !quota_is_met(&self.orders, &self.instances) {
                self.give_up(Failure::FulfillmentShortfall);
            } else if live_bid_ids(&self.bids).len() == 0 {
                self.end_cancellation(true);
            } else {
                self.phase = Phase::CancellingBids;
            }
        } else if self.pace.is_late(took) {
            self.give_up(Failure::FulfillmentTimeout);
        } else {
            self.pace = self.pace.slow_down(took);
        }
    }

    fn end_cancellation(&mut self, ok: bool)
        ensures
            final(self)@ == cancellation_over(old(self)@, ok),
    {
        if ok {
            self.bids = cancel(&self.bids);
        }
        self.phase = Phase::AwaitingReadiness;
        self.pace = Pace::begin(self.budget);
    }

    fn hear_instances(&mut self, descs: &Vec<InstanceDescription>, took: u64)
        requires
            groups_below(old(self)@.instances, old(self)@.orders.len() as int),
        ensures
            final(self)@ == instances_heard(old(self)@, descs@, took),
    {
        match muster(&self.instances, descs, &self.orders) {
            Readiness::NotYet => {
                if self.pace.is_late(took) {
                    self.give_up(Failure::ReadinessTimeout);
                } else {
                    self.pace = self.pace.slow_down(took);
                }
            },
            Readiness::Short => {
                self.give_up(Failure::FulfillmentShortfall);
            },
            Readiness::Complete(roster) => {
                let mut setup: Vec<SetupStatus> = Vec::new();
                let mut at: usize = 0;
                while at < roster.len()
                    invariant
                        at <= roster.len(),
                        setup@ == Seq::new(at as nat, |i: int| SetupStatus::Pending),
                    decreases roster.len() - at,
                {
                    setup.push(SetupStatus::Pending);
                    assert(setup@ =~= Seq::new((at + 1) as nat, |i: int| SetupStatus::Pending));
                    at += 1;
                }
                self.phase = Phase::Ready;
                self.roster = roster;
                self.setup = setup;
            },
        }
    }

    fn end_setup(&mut self, results: &Vec<bool>)
        requires
            old(self)@.setup.len() == old(self)@.roster.len(),
        ensures
            final(self)@ == setup_over(old(self)@, results@),
    {
        let mut at: usize = 0;
        while at < self.roster.len()
            invariant
                at <= self.roster.len(),
                self.roster.len() == old(self).roster.len(),
                self.setup.len() == self.roster.len(),
                self@ == (RunView { roster: self@.roster, setup: self@.setup, ..old(self)@ }),
                forall|i: int| 0 <= i < at ==> self.setup[i] == status(results@, i),
                forall|i: int|
                    0 <= i < at ==> self.roster[i] == if set_up(results@, i) {
                        connected(old(self).roster[i])
                    } else {
                        old(self).roster[i]
                    },
                forall|i: int| at <= i < self.roster.len() ==> self.roster[i] == old(self).roster[i],
            decreases self.roster.len() - at,
        {
            if at < results.len() && results[at] {
                self.setup.set(at, SetupStatus::Succeeded);
                self.roster[at].ssh = Some(SshConnection {  });
            } else {
                self.setup.set(at, SetupStatus::Failed);
            }
            at += 1;
        }
        self.phase = Phase::Running;
        assert(self@.setup =~= setup_over(old(self)@, results@).setup);
        assert(self@.roster =~= setup_over(old(self)@, results@).roster);
    }

    fn end_runner(&mut self, ok: bool)
        ensures
            final(self)@ == runner_over(old(self)@, ok),
    {
        self.phase = Phase::TearingDown;
        self.runner = Some(ok);
        self.failure = if ok {
            None
        } else {
            Some(Failure::RunnerFailure)
        };
    }

    fn end_teardown(&mut self, confirmed: &Vec<String>)
        ensures
            final(self)@ == teardown_over(old(self)@, confirmed@),
    {
        let mut left: Vec<String> = Vec::new();
        let mut at: usize = 0;
        while at < self.instances.len()
            invariant
                at <= self.instances.len(),
                *self == *old(self),
                left@ == unconfirmed(self.instances@.take(at as int), confirmed@),
            decreases self.instances.len() - at,
        {
            assert(self.instances@.take(at + 1).drop_last() == self.instances@.take(at as int));
            if !is_named(confirmed, &self.instances[at].id) {
                left.push(self.instances[at].id.clone());
            }
            at += 1;
        }
        assert(self.instances@.take(at as int) == self.instances@);
        self.phase = Phase::Done;
        self.unterminated = left;
    }
}

/// One run of a fleet.
pub struct FleetRun {
    state: Ledger,
}

impl View for FleetRun {
    type V = RunView;

    closed spec fn view(&self) -> RunView {
        self.state@
    }
}

impl FleetRun {
    #[verifier::type_invariant]
    spec fn sound(&self) -> bool {
        inv(self@)
    }

    /// A run of the fleet that `plan` describes, not yet begun. Each polling
    /// phase of it may wait as long as the fleet may live.
    pub fn new<F>(plan: &BurstBuilder<F>) -> (out: Self)
        ensures
            out@ == fresh(orders_of(plan.groups(), plan.minutes()), (plan.minutes() * 60) as u64),
            inv(out@),
    {
        FleetRun { state: Ledger::new(plan) }
    }

    pub fn phase(&self) -> (out: Phase)
        ensures
            out == self@.phase,
    {
        self.state.phase
    }

    pub fn failure(&self) -> (out: Option<Failure>)
        ensures
            out == self@.failure,
    {
        self.state.failure
    }

    pub fn orders(&self) -> (out: &Vec<BidOrder>)
        ensures
            out@ == self@.orders,
    {
        &self.state.orders
    }

    pub fn bids(&self) -> (out: &Vec<BidRequest>)
        ensures
            out@ == self@.bids,
    {
        &self.state.bids
    }

    pub fn instances(&self) -> (out: &Vec<Instance>)
        ensures
            out@ == self@.instances,
    {
        &self.state.instances
    }

    pub fn roster(&self) -> (out: &Vec<Machine>)
        ensures
            out@ == self@.roster,
    {
        &self.state.roster
    }

    pub fn setup_status(&self) -> (out: &Vec<SetupStatus>)
        ensures
            out@ == self@.setup,
    {
        &self.state.setup
    }

    pub fn runner_result(&self) -> (out: Option<bool>)
        ensures
            out == self@.runner,
    {
        self.state.runner
    }

    pub fn unterminated(&self) -> (out: &Vec<String>)
        ensures
            out@ == self@.unterminated,
    {
        &self.state.unterminated
    }

    /// The machines of the roster that belong to the group called `name`.
    pub fn machines_in(&self, name: &String) -> (out: Vec<Machine>)
        ensures
            out@ == in_group(self@.roster, name@),
    {
        self.state.machines_in(name)
    }

    /// How the run has gone so far.
    pub fn outcome(&self) -> (out: Outcome)
        ensures
            out.phase == self@.phase,
            out.failure == self@.failure,
            out.fulfilled@ == fulfilment(self@),
            out.setup@ == self@.setup,
            out.runner == self@.runner,
            out.unterminated@ == self@.unterminated,
    {
        self.state.outcome()
    }

    /// What the run asks of its driver as it stands.
    pub fn pending(&self) -> (action: Action)
        ensures
            inv(self@),
            asks(self@, action),
    {
        proof {
            use_type_invariant(self);
        }
        self.state.pending()
    }

    /// Takes the driver's report and says what to do next.
    pub fn step(&mut self, event: Event) -> (action: Action)
        ensures
            final(self)@ == next(old(self)@, event),
            inv(old(self)@),
            inv(final(self)@),
            asks(final(self)@, action),
    {
        proof {
            use_type_invariant(&*self);
        }
        let mut state = Ledger::blank();
        core::mem::swap(&mut self.state, &mut state);
        state.advance(event);
        let action = state.pending();
        core::mem::swap(&mut self.state, &mut state);
        action
    }
}

/// Each of `actions` is what the run asked for after the report that it
/// answers: the action at `i` after the first `i + 1` of `events`.
pub open spec fn answers(v: RunView, events: Seq<Event>, actions: Seq<Action>) -> bool {
    &&& actions.len() == events.len()
    &&& forall|i: int|
        0 <= i < actions.len() ==> asks(reached(v, events.take(i + 1)), #[trigger] actions[i])
}

impl FleetRun {
    /// Takes a whole sequence of reports, in order, and says what the run
    /// asked for after each.
    pub fn replay(&mut self, events: Vec<Event>) -> (actions: Vec<Action>)
        ensures
            final(self)@ == reached(old(self)@, events@),
            inv(final(self)@),
            answers(old(self)@, events@, actions@),
    {
        proof {
            use_type_invariant(&*self);
        }
        let ghost all = events@;
        let mut actions: Vec<Action> = Vec::new();
        for event in it: events
            invariant
                it.seq() == all,
                inv(self@),
                self@ == reached(old(self)@, all.take(it.index() as int)),
                actions.len() == it.index(),
                forall|i: int|
                    0 <= i < actions.len() ==> asks(
                        reached(old(self)@, all.take(i + 1)),
                        #[trigger] actions[i],
                    ),
        {
            assert(all.take(it.index() + 1).drop_last() == all.take(it.index() as int));
            let action = self.step(event);
            actions.push(action);
        }
        assert(all.take(all.len() as int) == all);
        actions
    }
}

/// The identifiers, if there is one.
fn if_any(ids: Vec<String>) -> (out: Option<Vec<String>>)
    ensures
        named(out, ids@),
{
    if ids.len() == 0 {
        None
    } else {
        Some(ids)
    }
}

fn is_named(ids: &Vec<String>, id: &String) -> (out: bool)
    ensures
        out == names(ids@, id@),
{
    let mut at: usize = 0;
    while at < ids.len()
        invariant
            at <= ids.len(),
            forall|i: int| 0 <= i < at ==> ids[i]@ != id@,
        decreases ids.len() - at,
    {
        if ids[at] == *id {
            return true;
        }
        at += 1;
    }
    false
}

fn copy_orders(orders: &Vec<BidOrder>) -> (out: Vec<BidOrder>)
    ensures
        out@ == orders@,
{
    let mut out: Vec<BidOrder> = Vec::new();
    let mut at: usize = 0;
    while at < orders.len()
        invariant
            at <= orders.len(),
            out@ == orders@.take(at as int),
        decreases orders.len() - at,
    {
        let order = &orders[at];
        out.push(
            BidOrder {
                group: order.group.clone(),
                ami: order.ami.clone(),
                instance_type: order.instance_type.clone(),
                count: order.count,
                duration_minutes: order.duration_minutes,
            },
        );
        assert(orders@.take(at + 1) == orders@.take(at as int).push(orders@[at as int]));
        at += 1;
    }
    assert(orders@.take(at as int) == orders@);
    out
}

fn copy_machine(machine: &Machine) -> (out: Machine)
    ensures
        out == *machine,
{
    Machine {
        instance_id: machine.instance_id.clone(),
        group: machine.group.clone(),
        private_ip: machine.private_ip.clone(),
        public_dns: machine.public_dns.clone(),
        instance_type: machine.instance_type.clone(),
        ssh: match &machine.ssh {
            Some(handle) => {
                assert(*handle == SshConnection {  });
                Some(SshConnection {  })
            },
            None => None,
        },
    }
}

fn copy_machines(machines: &Vec<Machine>) -> (out: Vec<Machine>)
    ensures
        out@ == machines@,
{
    let mut out: Vec<Machine> = Vec::new();
    let mut at: usize = 0;
    while at < machines.len()
        invariant
            at <= machines.len(),
            out@ == machines@.take(at as int),
        decreases machines.len() - at,
    {
        out.push(copy_machine(&machines[at]));
        assert(machines@.take(at + 1) == machines@.take(at as int).push(machines@[at as int]));
        at += 1;
    }
    assert(machines@.take(at as int) == machines@);
    out
}

fn all_bid_ids(bids: &Vec<BidRequest>) -> (out: Vec<String>)
    ensures
        out@ == bid_ids(bids@),
{
    let mut out: Vec<String> = Vec::new();
    let mut at: usize = 0;
    while at < bids.len()
        invariant
            at <= bids.len(),
            out@ == bid_ids(bids@).take(at as int),
        decreases bids.len() - at,
    {
        out.push(bids[at].id.clone());
        assert(bid_ids(bids@).take(at + 1) == bid_ids(bids@).take(at as int).push(bids@[at as int].id));
        at += 1;
    }
    assert(bid_ids(bids@).take(at as int) == bid_ids(bids@));
    out
}

fn all_instance_ids(instances: &Vec<Instance>) -> (out: Vec<String>)
    ensures
        out@ == instance_ids(instances@),
{
    let mut out: Vec<String> = Vec::new();
    let mut at: usize = 0;
    while at < instances.len()
        invariant
            at <= instances.len(),
            out@ == instance_ids(instances@).take(at as int),
        decreases instances.len() - at,
    {
        out.push(instances[at].id.clone());
        assert(instance_ids(instances@).take(at + 1) == instance_ids(instances@).take(
            at as int,
        ).push(instances@[at as int].id));
        at += 1;
    }
    assert(instance_ids(instances@).take(at as int) == instance_ids(instances@));
    out
}

} // verus!
